//! Event kinds exchanged between the interface and the engine, and the
//! notification kinds with their textual names.

use vstd::prelude::*;
use crate::text::{chars_of, lower_chars, lower_seq, concat, owned};

verus! {

/// The category of an event, used to route it to its handler.
#[derive(Hash, Eq, PartialEq, Debug, Clone, Structural)]
pub enum EventType {
    UiEvent,
    NotificationEvent,
    EngineEvent,
    FileEvent,
    DockEvent,
}

/// The severity of a notification.
#[derive(Debug, Clone, PartialEq, Eq, Structural)]
pub enum NotificationKind {
    Info,
    Warning,
    Error,
}

/// A notification shown to the user.
#[derive(Debug, Clone)]
pub struct NotificationEvent {
    pub kind: NotificationKind,
    pub message: String,
}

/// The lower-case name of a kind.
pub open spec fn kind_name(k: NotificationKind) -> Seq<char> {
    match k {
        NotificationKind::Info => "info"@,
        NotificationKind::Warning => "warning"@,
        NotificationKind::Error => "error"@,
    }
}

/// The kind named by `s`, compared without regard to ASCII case.
pub open spec fn kind_named(s: Seq<char>) -> Option<NotificationKind> {
    if lower_seq(s) == "info"@ {
        Some(NotificationKind::Info)
    } else if lower_seq(s) == "warning"@ {
        Some(NotificationKind::Warning)
    } else if lower_seq(s) == "error"@ {
        Some(NotificationKind::Error)
    } else {
        None
    }
}

impl NotificationKind {
    /// The kind named by `s` in any ASCII case; otherwise an error that
    /// quotes `s`.
    pub fn from_str(s: &str) -> (r: Result<Self, String>)
        ensures
            match r {
                Ok(k) => kind_named(s@) == Some(k),
                Err(m) => kind_named(s@) is None && m@ == "Unknown NotificationKind: "@ + s@,
            },
    {
        let cs = chars_of(s);
        let lc = lower_chars(cs.as_slice());
        let lcs = string_from_vec(&lc);
        if crate::text::str_eq(lcs.as_str(), "info") {
            Ok(NotificationKind::Info)
        } else if crate::text::str_eq(lcs.as_str(), "warning") {
            Ok(NotificationKind::Warning)
        } else if crate::text::str_eq(lcs.as_str(), "error") {
            Ok(NotificationKind::Error)
        } else {
            Err(concat("Unknown NotificationKind: ", s))
        }
    }

    /// The lower-case name of the kind.
    pub fn to_string(&self) -> (r: String)
        ensures
            r@ == kind_name(*self),
    {
        match self {
            NotificationKind::Info => owned("info"),
            NotificationKind::Warning => owned("warning"),
            NotificationKind::Error => owned("error"),
        }
    }
}

fn string_from_vec(v: &Vec<char>) -> (s: String)
    ensures
        s@ == v@,
{
    let s = crate::text::string_of(v.as_slice(), 0, v.len());
    assert(v@.subrange(0, v@.len() as int) =~= v@);
    s
}

/// Reading back the name of a kind gives that kind.
pub proof fn law_kind_name_round_trip(k: NotificationKind)
    ensures
        kind_named(kind_name(k)) == Some(k),
{
    reveal_strlit("info");
    reveal_strlit("warning");
    reveal_strlit("error");
    let n = kind_name(k);
    assert(lower_seq(n) =~= n);
}

/// The name of a kind can be read in any ASCII case.
pub proof fn law_kind_named_ignores_case(s: Seq<char>, t: Seq<char>)
    requires
        lower_seq(s) == lower_seq(t),
    ensures
        kind_named(s) == kind_named(t),
{
}

} // verus!
