use vstd::prelude::*;

verus! {

/// Number of bytes in the data buffer.
pub const BUFFER_LEN: usize = 128;

/// Number of work-items dispatched.
pub const DISPATCH_SIZE: usize = 128;

/// Local workgroup size declared by the kernel.
pub const LOCAL_SIZE: usize = 64;

/// The factor by which the kernel multiplies each word.
pub const FACTOR: u32 = 12;

/// The 32-bit little-endian word made of bytes `4k .. 4k + 4` of `data`.
pub open spec fn word_at(data: Seq<u8>, k: int) -> int {
    data[4 * k] as int + 256 * data[4 * k + 1] as int + 65536 * data[4 * k + 2] as int
        + 16777216 * data[4 * k + 3] as int
}

/// Byte `b` (0 = least significant) of the 32-bit value `w`.
pub open spec fn byte_of(w: int, b: int) -> u8 {
    (if b == 0 {
        w % 256
    } else if b == 1 {
        (w / 256) % 256
    } else if b == 2 {
        (w / 65536) % 256
    } else {
        (w / 16777216) % 256
    }) as u8
}

/// The word `w` multiplied by the kernel's factor, modulo 2^32.
pub open spec fn scaled(w: int) -> int {
    (FACTOR * w) % 4294967296
}

/// Whether the kernel invocation with index `k` writes inside a buffer of
/// `len` bytes, `n` invocations being dispatched.
pub open spec fn word_touched(len: nat, n: nat, k: int) -> bool {
    0 <= k < n && 4 * k + 4 <= len
}

/// What the kernel leaves in the buffer: every whole word that an invocation
/// reaches is multiplied by the factor modulo 2^32, stored little-endian;
/// every other byte is left as it was.
pub open spec fn kernel_result(data: Seq<u8>, n: nat) -> Seq<u8> {
    Seq::new(
        data.len(),
        |j: int|
            if word_touched(data.len(), n, j / 4) {
                byte_of(scaled(word_at(data, j / 4)), j % 4)
            } else {
                data[j]
            },
    )
}

/// The initial content of the buffer: byte `i` holds `i`.
pub open spec fn initial_fill(len: nat) -> Seq<u8> {
    Seq::new(len, |i: int| i as u8)
}

/// The bytes `0, 1, ..., BUFFER_LEN - 1`, the buffer's initial content.
pub fn initial_data() -> (r: Vec<u8>)
    ensures
        r@ == initial_fill(BUFFER_LEN as nat),
        forall|i: int| 0 <= i < BUFFER_LEN ==> r@[i] == i,
{
    let mut v: Vec<u8> = Vec::new();
    let mut i: usize = 0;
    while i < BUFFER_LEN
        invariant
            i <= BUFFER_LEN,
            v@.len() == i,
            forall|j: int| 0 <= j < i ==> v@[j] == j,
        decreases BUFFER_LEN - i,
    {
        v.push(i as u8);
        i = i + 1;
    }
    assert(v@ =~= initial_fill(BUFFER_LEN as nat));
    v
}

/// Runs `invocations` kernel invocations on `data`, read as an array of
/// little-endian 32-bit words: invocation `k` multiplies word `k` by the
/// factor, wrapping at 2^32. An invocation past the last whole word writes
/// nothing that the buffer holds.
pub fn apply_kernel(data: &mut Vec<u8>, invocations: usize)
    ensures
        final(data)@ == kernel_result(old(data)@, invocations as nat),
{
    let ghost orig = data@;
    let words: usize = data.len() / 4;
    let n: usize = if invocations < words { invocations } else { words };
    let mut k: usize = 0;
    assert(4 * words <= orig.len());
    assert(orig.len() <= usize::MAX);
    while k < n
        invariant
            n <= words,
            4 * words <= orig.len(),
            orig.len() <= usize::MAX,
            words == orig.len() / 4,
            k <= n,
            n as nat == (if (invocations as nat) < words { invocations as nat } else { words as nat }),
            data@.len() == orig.len(),
            forall|j: int| 0 <= j < 4 * k ==> #[trigger] data@[j] == kernel_result(orig, invocations as nat)[j],
            forall|j: int| 4 * k <= j < orig.len() ==> #[trigger] data@[j] == orig[j],
        decreases n - k,
    {
        let b0 = data[4 * k] as u64;
        let b1 = data[4 * k + 1] as u64;
        let b2 = data[4 * k + 2] as u64;
        let b3 = data[4 * k + 3] as u64;
        let w: u64 = b0 + 256 * b1 + 65536 * b2 + 16777216 * b3;
        assert(w == word_at(orig, k as int));
        let r: u64 = (w * 12) % 4294967296;
        assert(r == scaled(word_at(orig, k as int)));
        data.set(4 * k, (r % 256) as u8);
        data.set(4 * k + 1, ((r / 256) % 256) as u8);
        data.set(4 * k + 2, ((r / 65536) % 256) as u8);
        data.set(4 * k + 3, ((r / 16777216) % 256) as u8);
        proof {
            let res = kernel_result(orig, invocations as nat);
            assert forall|j: int| 4 * k <= j < 4 * k + 4 implies #[trigger] data@[j] == res[j] by {
                assert(j / 4 == k);
                assert(word_touched(orig.len(), invocations as nat, k as int));
            }
        }
        k = k + 1;
    }
    proof {
        let res = kernel_result(orig, invocations as nat);
        assert forall|j: int| 4 * n <= j < orig.len() implies data@[j] == res[j] by {
            assert(!word_touched(orig.len(), invocations as nat, j / 4));
        }
        assert(data@ =~= res);
    }
}

} // verus!

verus! {

proof fn lemma_bytes_recompose(w: u32)
    ensures
        w as int == byte_of(w as int, 0) as int + 256 * byte_of(w as int, 1) as int + 65536
            * byte_of(w as int, 2) as int + 16777216 * byte_of(w as int, 3) as int,
{
    assert(w == (w % 256) + 256 * ((w / 256) % 256) + 65536 * ((w / 65536) % 256) + 16777216 * ((
    w / 16777216) % 256)) by (bit_vector);
}

/// Read back as words, the kernel's output holds each reached word multiplied
/// by the factor modulo 2^32, and every other word as it was.
pub proof fn lemma_kernel_words(data: Seq<u8>, n: nat, k: int)
    requires
        0 <= k,
        4 * k + 4 <= data.len(),
    ensures
        kernel_result(data, n).len() == data.len(),
        word_touched(data.len(), n, k) ==> word_at(kernel_result(data, n), k) == scaled(
            word_at(data, k),
        ),
        !word_touched(data.len(), n, k) ==> word_at(kernel_result(data, n), k) == word_at(data, k),
{
    let r = kernel_result(data, n);
    assert((4 * k) / 4 == k && (4 * k + 1) / 4 == k && (4 * k + 2) / 4 == k && (4 * k + 3) / 4
        == k);
    assert((4 * k) % 4 == 0 && (4 * k + 1) % 4 == 1 && (4 * k + 2) % 4 == 2 && (4 * k + 3) % 4
        == 3);
    if word_touched(data.len(), n, k) {
        let s = scaled(word_at(data, k));
        assert(0 <= s < 4294967296);
        lemma_bytes_recompose(s as u32);
    }
}

} // verus!
