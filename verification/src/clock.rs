//! Wall-clock timestamps and fresh identifiers.
//!
//! Both come from outside the program. The library never looks inside them:
//! it stores them, copies them and writes them into documents.

use vstd::prelude::*;

verus! {

/// A point in time, kept as its RFC 3339 text in UTC.
#[derive(Debug)]
pub struct Timestamp {
    pub text: String,
}

impl DeepView for Timestamp {
    type V = Seq<char>;

    open spec fn deep_view(&self) -> Seq<char> {
        self.text@
    }
}

impl View for Timestamp {
    type V = Seq<char>;

    open spec fn view(&self) -> Seq<char> {
        self.text@
    }
}

impl Clone for Timestamp {
    fn clone(&self) -> (r: Self)
        ensures
            r@ == self@,
    {
        Timestamp { text: self.text.clone() }
    }
}

/// Whether a text ends as a time in UTC is written: with the letter `Z`.
pub open spec fn ends_in_utc(text: Seq<char>) -> bool {
    text.len() > 0 && text.last() == 'Z'
}

/// `chrono::Utc::now`, written with `DateTime::to_rfc3339_opts` in the form
/// with as many fractional digits as the value needs and `Z` for the offset.
/// Which time is written depends on the system clock. That the text ends
/// in `Z` holds of every time: the offset of a time in UTC is zero, and
/// with the second argument `true` a zero offset is written as `Z`.
#[verifier::external_body]
fn current_time_text() -> (r: String)
    ensures
        ends_in_utc(r@),
{
    chrono::Utc::now().to_rfc3339_opts(chrono::SecondsFormat::AutoSi, true)
}

/// `uuid::Uuid::new_v4`, written in the hyphenated lower-case form that
/// `Uuid`'s `Display` prints, which is 36 characters long. Which identifier
/// comes back depends on the random source.
#[verifier::external_body]
fn random_id_text() -> (r: String)
    ensures
        r@.len() == 36,
{
    uuid::Uuid::new_v4().to_string()
}

impl Timestamp {
    /// The current time, in UTC.
    pub fn now() -> (t: Timestamp)
        ensures
            ends_in_utc(t.text@),
    {
        Timestamp { text: current_time_text() }
    }
}

/// A fresh random identifier, 36 characters long.
pub fn new_id() -> (r: String)
    ensures
        r@.len() == 36,
{
    random_id_text()
}

} // verus!
