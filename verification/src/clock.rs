//! Instants on the UTC time line.
use vstd::prelude::*;
use vstd::string::StringExecFns;

verus! {

/// An instant, as whole seconds since the Unix epoch plus a sub-second part
/// in nanoseconds. Instants are ordered first by seconds, then by nanoseconds.
#[derive(Clone, Copy, Debug, PartialEq, Eq, Structural)]
pub struct Timestamp {
    pub secs: i64,
    pub nanos: u32,
}

impl Timestamp {
    /// `self` lies strictly earlier than `other`.
    pub open spec fn before(self, other: Timestamp) -> bool {
        self.secs < other.secs || (self.secs == other.secs && self.nanos < other.nanos)
    }

    /// The instant `nanos` nanoseconds after the second `secs` of the epoch.
    pub fn new(secs: i64, nanos: u32) -> (t: Timestamp)
        ensures
            t.secs == secs,
            t.nanos == nanos,
    {
        Timestamp { secs, nanos }
    }

    /// The instant that lies exactly `secs` seconds after the epoch.
    pub fn from_secs(secs: i64) -> (t: Timestamp)
        ensures
            t.secs == secs,
            t.nanos == 0,
    {
        Timestamp { secs, nanos: 0 }
    }

    /// Whether `self` lies strictly earlier than `other`.
    pub fn is_before(&self, other: &Timestamp) -> (r: bool)
        ensures
            r == self.before(*other),
    {
        self.secs < other.secs || (self.secs == other.secs && self.nanos < other.nanos)
    }
}

/// The instant that an RFC 3339 date-and-time text names, if the text is one.
pub uninterp spec fn rfc3339_instant(text: Seq<char>) -> Option<Timestamp>;

/// What a form adds to a date and time given to the minute: the seconds
/// and the UTC designator.
pub open spec fn form_suffix() -> Seq<char> {
    seq![':', '0', '0', 'Z']
}

/// The instant that a form text of the shape `2025-06-01T19:30` names: the
/// text is read as RFC 3339 once seconds and UTC are added.
pub open spec fn form_instant(text: Seq<char>) -> Option<Timestamp> {
    rfc3339_instant(text + form_suffix())
}

/// Reads an RFC 3339 date and time with `chrono::DateTime::parse_from_rfc3339`
/// and gives the instant as seconds and nanoseconds since the epoch, or
/// `None` where chrono rejects the text. The parse depends on the text
/// alone; which texts it accepts, and the instant of each, is chrono's to
/// say and is not proved here.
#[verifier::external_body]
fn parse_rfc3339(text: &str) -> (r: Option<Timestamp>)
    ensures
        r == rfc3339_instant(text@),
{
    match chrono::DateTime::parse_from_rfc3339(text) {
        Ok(instant) => Some(
            Timestamp { secs: instant.timestamp(), nanos: instant.timestamp_subsec_nanos() },
        ),
        Err(_) => None,
    }
}

/// Reads the date and time of a form field, given to the minute as in
/// `2025-06-01T19:30`.
pub fn parse_form_instant(text: &str) -> (r: Option<Timestamp>)
    ensures
        r == form_instant(text@),
{
    let full = text.to_owned().concat(":00Z");
    proof {
        reveal_strlit(":00Z");
        assert(":00Z"@ =~= form_suffix());
    }
    parse_rfc3339(full.as_str())
}

/// The order on instants is strict and total: no instant lies before
/// itself, the order carries over a third instant, and of two different
/// instants one lies before the other.
pub proof fn law_instants_are_ordered(a: Timestamp, b: Timestamp, c: Timestamp)
    ensures
        !a.before(a),
        a.before(b) && b.before(c) ==> a.before(c),
        a.before(b) || b.before(a) || a == b,
{
}

} // verus!
