//! Identifiers.  Every object in the system is named by a time-ordered
//! 128-bit identifier whose canonical rendering is a 26-character
//! Crockford base32 string; identifiers therefore sort by creation time.
//! The rusty_ulid crate generates and decodes them.

use vstd::prelude::*;
use std::str::FromStr;

verus! {

/// What decoding an identifier string yields: the canonical rendering of
/// the identifier it denotes, or nothing if the string is not a valid
/// encoding.  Decoding is case-insensitive and folds confusable
/// characters, so a non-canonical string can denote an identifier.
pub uninterp spec fn ulid_canon_of(s: Seq<char>) -> Option<Seq<char>>;

/// Relies on rusty_ulid::Ulid::from_str and Ulid::to_string: decoding a
/// valid encoding and re-rendering it yields the canonical 26-character
/// form, which re-decodes to itself.
#[verifier::external_body]
pub(crate) fn ulid_parse(s: &str) -> (r: Option<String>)
    ensures
        r matches Some(c) ==> ulid_canon_of(s@) == Some(c@) && c@.len() == 26 && ulid_canon_of(c@)
            == Some(c@),
        r is None ==> ulid_canon_of(s@) is None,
{
    rusty_ulid::Ulid::from_str(s).ok().map(|u| u.to_string())
}

/// Relies on rusty_ulid::Ulid::generate and Ulid::to_string: a fresh
/// identifier for the current instant, in canonical form.
#[verifier::external_body]
pub(crate) fn ulid_generate() -> (r: String)
    ensures
        r@.len() == 26,
        ulid_canon_of(r@) == Some(r@),
{
    rusty_ulid::Ulid::generate().to_string()
}

/// A job identifier, held in canonical rendering.
#[derive(Debug)]
pub struct JobId {
    pub id: String,
}

/// A job file identifier, held in canonical rendering.
#[derive(Debug)]
pub struct JobFileId {
    pub id: String,
}

impl JobId {
    /// The canonical rendering re-decodes to itself.
    pub open spec fn wf(&self) -> bool {
        ulid_canon_of(self.id@) == Some(self.id@)
    }

    /// Decode a string into a job identifier.
    pub fn parse(s: &str) -> (r: Option<JobId>)
        ensures
            r matches Some(j) ==> j.wf() && ulid_canon_of(s@) == Some(j.id@),
            r is None ==> ulid_canon_of(s@) is None,
    {
        match ulid_parse(s) {
            Some(c) => Some(JobId { id: c }),
            None => None,
        }
    }

    /// A fresh identifier for the current instant.
    pub fn generate() -> (r: JobId)
        ensures
            r.wf(),
    {
        JobId { id: ulid_generate() }
    }

    pub fn render(&self) -> (r: String)
        ensures
            r@ == self.id@,
    {
        self.id.clone()
    }
}

impl PartialEq for JobId {
    fn eq(&self, other: &JobId) -> (r: bool) {
        crate::text::str_eq(self.id.as_str(), other.id.as_str())
    }
}

impl vstd::std_specs::cmp::PartialEqSpecImpl for JobId {
    open spec fn obeys_eq_spec() -> bool {
        true
    }

    open spec fn eq_spec(&self, other: &JobId) -> bool {
        self.id@ == other.id@
    }
}

impl JobFileId {
    /// The canonical rendering re-decodes to itself.
    pub open spec fn wf(&self) -> bool {
        ulid_canon_of(self.id@) == Some(self.id@)
    }

    /// Decode a string into a file identifier.
    pub fn parse(s: &str) -> (r: Option<JobFileId>)
        ensures
            r matches Some(f) ==> f.wf() && ulid_canon_of(s@) == Some(f.id@),
            r is None ==> ulid_canon_of(s@) is None,
    {
        match ulid_parse(s) {
            Some(c) => Some(JobFileId { id: c }),
            None => None,
        }
    }

    /// A fresh identifier for the current instant.
    pub fn generate() -> (r: JobFileId)
        ensures
            r.wf(),
    {
        JobFileId { id: ulid_generate() }
    }

    pub fn render(&self) -> (r: String)
        ensures
            r@ == self.id@,
    {
        self.id.clone()
    }
}

impl PartialEq for JobFileId {
    fn eq(&self, other: &JobFileId) -> (r: bool) {
        crate::text::str_eq(self.id.as_str(), other.id.as_str())
    }
}

impl vstd::std_specs::cmp::PartialEqSpecImpl for JobFileId {
    open spec fn obeys_eq_spec() -> bool {
        true
    }

    open spec fn eq_spec(&self, other: &JobFileId) -> bool {
        self.id@ == other.id@
    }
}

} // verus!
