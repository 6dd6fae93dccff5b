use vstd::prelude::*;
use vstd::string::StringExecFns;

verus! {

/// Severity flags that the driver attaches to a diagnostic message.
#[derive(Clone, Copy, Debug, PartialEq, Eq)]
pub struct MessageSeverity {
    pub error: bool,
    pub warning: bool,
    pub information: bool,
    pub verbose: bool,
}

/// Category flags that the driver attaches to a diagnostic message.
#[derive(Clone, Copy, Debug, PartialEq, Eq)]
pub struct MessageType {
    pub general: bool,
    pub validation: bool,
    pub performance: bool,
}

/// A diagnostic message as handed to the logging sink.
pub struct Message {
    pub severity: MessageSeverity,
    pub ty: MessageType,
    pub layer_prefix: String,
    pub description: String,
}

impl MessageSeverity {
    pub open spec fn has_flag(self) -> bool {
        self.error || self.warning || self.information || self.verbose
    }

    /// The label of the most severe flag that is set.
    pub open spec fn label_spec(self) -> Seq<char> {
        if self.error {
            "error"@
        } else if self.warning {
            "warn"@
        } else if self.information {
            "info"@
        } else {
            "verb"@
        }
    }

    /// The label of the most severe flag that is set.
    pub fn label(&self) -> (r: &'static str)
        requires
            self.has_flag(),
        ensures
            r@ == self.label_spec(),
    {
        if self.error {
            "error"
        } else if self.warning {
            "warn"
        } else if self.information {
            "info"
        } else {
            "verb"
        }
    }
}

impl MessageType {
    pub open spec fn has_flag(self) -> bool {
        self.general || self.validation || self.performance
    }

    /// The label of the first flag that is set, in the order
    /// general, performance, validation.
    pub open spec fn label_spec(self) -> Seq<char> {
        if self.general {
            "general"@
        } else if self.performance {
            "performance"@
        } else {
            "validation"@
        }
    }

    /// The label of the first flag that is set, in the order
    /// general, performance, validation.
    pub fn label(&self) -> (r: &'static str)
        requires
            self.has_flag(),
        ensures
            r@ == self.label_spec(),
    {
        if self.general {
            "general"
        } else if self.performance {
            "performance"
        } else {
            "validation"
        }
    }
}

/// Informational messages of the general category are noise and are dropped.
pub open spec fn suppressed_spec(severity: MessageSeverity, ty: MessageType) -> bool {
    severity.information && ty.general
}

/// The line printed for a message: `[severity:type][layer] description`.
pub open spec fn message_line(m: &Message) -> Seq<char> {
    "["@ + m.severity.label_spec() + ":"@ + m.ty.label_spec() + "]["@ + m.layer_prefix@ + "] "@
        + m.description@
}

/// Whether a message with these flags is dropped as noise.
pub fn is_suppressed(severity: &MessageSeverity, ty: &MessageType) -> (r: bool)
    ensures
        r == suppressed_spec(*severity, *ty),
{
    severity.information && ty.general
}

/// The line to print for a message, or `None` where the message is dropped.
pub fn format_message(m: &Message) -> (r: Option<String>)
    requires
        suppressed_spec(m.severity, m.ty) || (m.severity.has_flag() && m.ty.has_flag()),
    ensures
        suppressed_spec(m.severity, m.ty) ==> r is None,
        !suppressed_spec(m.severity, m.ty) ==> (r matches Some(s) && s@ == message_line(m)),
{
    if is_suppressed(&m.severity, &m.ty) {
        return None;
    }
    let mut s = String::from_str("[");
    s.append(m.severity.label());
    s.append(":");
    s.append(m.ty.label());
    s.append("][");
    s.append(m.layer_prefix.as_str());
    s.append("] ");
    s.append(m.description.as_str());
    Some(s)
}

} // verus!
