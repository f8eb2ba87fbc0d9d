use vstd::prelude::*;

verus! {

/// Whether `chrono::DateTime::parse_from_rfc3339` accepts this text.
/// The parse is a pure function of the text, so the outcome gets a name.
pub uninterp spec fn is_rfc3339(s: Seq<char>) -> bool;

/// The clock-face rendering (`%x %I:%M %P`) of an RFC 3339 timestamp,
/// taken in UTC. A pure function of the text, so the result gets a name.
pub uninterp spec fn clock_display_of(s: Seq<char>) -> Seq<char>;

/// Relies on `chrono::Utc::now` for the current instant and on
/// `chrono::DateTime::to_rfc3339` for its text. Nothing is promised of the
/// text: for years outside 0 through 9999 the writer uses a five-digit
/// signed year that the strict parser refuses, so callers must check what
/// they get.
#[verifier::external_body]
pub fn now_rfc3339() -> (r: String)
{
    chrono::Utc::now().to_rfc3339()
}

/// Relies on `chrono::DateTime::parse_from_rfc3339`: a pure function of
/// the bytes, it accepts this fixed RFC 3339 text on every run.
#[verifier::external_body]
pub fn fallback_rfc3339() -> (r: String)
    ensures
        is_rfc3339(r@),
{
    String::from("1970-01-01T00:00:00+00:00")
}

/// Relies on `chrono::DateTime::parse_from_rfc3339`: a pure parse of the
/// argument, succeeding exactly on RFC 3339 date-and-time strings.
#[verifier::external_body]
pub fn check_rfc3339(s: &str) -> (r: bool)
    ensures
        r == is_rfc3339(s@),
{
    chrono::DateTime::parse_from_rfc3339(s).is_ok()
}

/// Relies on `chrono::DateTime::parse_from_rfc3339` (succeeds exactly on
/// RFC 3339 strings), `with_timezone` (the same instant in UTC) and
/// `format` with `%x %I:%M %P`, a pure rendering of that instant.
#[verifier::external_body]
pub fn format_clock(s: &str) -> (r: Option<String>)
    ensures
        r is Some <==> is_rfc3339(s@),
        r matches Some(t) ==> t@ == clock_display_of(s@),
{
    match chrono::DateTime::parse_from_rfc3339(s) {
        Ok(d) => Some(format!("{}", d.with_timezone(&chrono::Utc).format("%x %I:%M %P"))),
        Err(_) => None,
    }
}

} // verus!
