use vstd::prelude::*;
use vstd::string::StringExecFns;

verus! {

/// Number of values printed on one row of a dump.
pub const ROW_LEN: usize = 32;

/// The character of the decimal digit `d`.
pub open spec fn digit_char(d: int) -> char {
    if d == 0 {
        '0'
    } else if d == 1 {
        '1'
    } else if d == 2 {
        '2'
    } else if d == 3 {
        '3'
    } else if d == 4 {
        '4'
    } else if d == 5 {
        '5'
    } else if d == 6 {
        '6'
    } else if d == 7 {
        '7'
    } else if d == 8 {
        '8'
    } else {
        '9'
    }
}

/// The decimal notation of `v`, without leading zeros.
pub open spec fn decimal(v: nat) -> Seq<char>
    decreases v,
{
    if v < 10 {
        seq![digit_char(v as int)]
    } else {
        decimal(v / 10) + seq![digit_char((v % 10) as int)]
    }
}

/// The text printed for the value at position `i`: its decimal notation and a
/// space, and a line break after the last value of each row.
pub open spec fn entry_text(data: Seq<u8>, i: int) -> Seq<char> {
    decimal(data[i] as nat) + seq![' '] + if i % (ROW_LEN as int) == ROW_LEN - 1 {
        seq!['\n']
    } else {
        Seq::empty()
    }
}

/// The texts of the first `n` values, one after the other.
pub open spec fn entries_text(data: Seq<u8>, n: nat) -> Seq<char>
    decreases n,
{
    if n == 0 {
        Seq::empty()
    } else {
        entries_text(data, (n - 1) as nat) + entry_text(data, n - 1)
    }
}

/// A labelled dump: the label on a line of its own, the values in rows, and a
/// blank line.
pub open spec fn dump_text(label: Seq<char>, data: Seq<u8>) -> Seq<char> {
    label + seq!['\n'] + entries_text(data, data.len()) + seq!['\n']
}

fn digit_str(d: u8) -> (r: &'static str)
    requires
        d < 10,
    ensures
        r@ == seq![digit_char(d as int)],
{
    proof {
        reveal_strlit("0");
        reveal_strlit("1");
        reveal_strlit("2");
        reveal_strlit("3");
        reveal_strlit("4");
        reveal_strlit("5");
        reveal_strlit("6");
        reveal_strlit("7");
        reveal_strlit("8");
        reveal_strlit("9");
    }
    let r = if d == 0 {
        "0"
    } else if d == 1 {
        "1"
    } else if d == 2 {
        "2"
    } else if d == 3 {
        "3"
    } else if d == 4 {
        "4"
    } else if d == 5 {
        "5"
    } else if d == 6 {
        "6"
    } else if d == 7 {
        "7"
    } else if d == 8 {
        "8"
    } else {
        "9"
    };
    assert(r@ =~= seq![digit_char(d as int)]);
    r
}

/// Appends the decimal notation of `v` to `s`.
pub fn push_decimal(s: &mut String, v: u8)
    ensures
        final(s)@ == old(s)@ + decimal(v as nat),
{
    let ghost start = s@;
    if v >= 100 {
        s.append(digit_str(v / 100));
    }
    if v >= 10 {
        s.append(digit_str((v / 10) % 10));
    }
    s.append(digit_str(v % 10));
    proof {
        if v >= 100 {
            assert(decimal((v / 100) as nat) == seq![digit_char((v / 100) as int)]);
            assert(((v / 10) / 10) as nat == (v / 100) as nat);
            assert((((v / 10) as nat) % 10) as int == ((v / 10) % 10) as int);
            assert(decimal((v / 10) as nat) =~= seq![digit_char((v / 100) as int)] + seq![
                digit_char(((v / 10) % 10) as int)]);
        } else if v >= 10 {
            assert(decimal((v / 10) as nat) == seq![digit_char((v / 10) as int)]);
            assert((v / 10) % 10 == v / 10);
        }
    }
    assert(s@ =~= start + decimal(v as nat));
}

/// The dump of `data` under `label`: the label on a line of its own, then the
/// values in decimal, each followed by a space, with a line break after every
/// `ROW_LEN` values, then a blank line.
pub fn format_dump(label: &str, data: &[u8]) -> (r: String)
    ensures
        r@ == dump_text(label@, data@),
{
    proof {
        reveal_strlit("\n");
        reveal_strlit(" ");
    }
    let mut s = String::from_str(label);
    s.append("\n");
    let ghost head = s@;
    let mut i: usize = 0;
    while i < data.len()
        invariant
            i <= data@.len(),
            head == label@ + seq!['\n'],
            s@ == head + entries_text(data@, i as nat),
        decreases data@.len() - i,
    {
        proof {
            reveal_strlit("\n");
            reveal_strlit(" ");
        }
        let ghost before = s@;
        push_decimal(&mut s, data[i]);
        s.append(" ");
        assert(s@ =~= before + decimal(data@[i as int] as nat) + seq![' ']);
        if i % ROW_LEN == ROW_LEN - 1 {
            s.append("\n");
        }
        assert(s@ =~= before + entry_text(data@, i as int));
        assert(entries_text(data@, (i + 1) as nat) == entries_text(data@, i as nat) + entry_text(
            data@,
            i as int,
        ));
        assert(s@ =~= head + entries_text(data@, (i + 1) as nat));
        i = i + 1;
    }
    s.append("\n");
    assert(s@ =~= dump_text(label@, data@));
    s
}

} // verus!
