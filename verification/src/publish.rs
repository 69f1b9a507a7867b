//! Published outputs are addressed as `series/version/name`.  Each of the
//! three identifiers must be 2 to 48 characters drawn from ASCII letters,
//! digits, `-`, `_` and `.`.

use vstd::prelude::*;
use crate::error::{ApiError, ErrorKind};
use crate::text::{chars_of, is_digit, is_alpha, spec_is_digit, spec_is_alpha};

verus! {

use vstd::string::StringExecFns;

/// A character allowed in a published file identifier.
pub open spec fn spec_publish_char(c: char) -> bool {
    spec_is_digit(c) || spec_is_alpha(c) || c == '-' || c == '_' || c == '.'
}

/// A safe published file identifier: 2 to 48 allowed characters.
pub open spec fn spec_publish_id_ok(s: Seq<char>) -> bool {
    &&& 2 <= s.len() <= 48
    &&& forall|i: int| 0 <= i < s.len() ==> spec_publish_char(s[i])
}

/// The identifiers under which one output of a job is published.
#[derive(Debug)]
pub struct JobOutputPublish {
    pub series: String,
    pub version: String,
    pub name: String,
}

impl JobOutputPublish {
    /// All three identifiers are safe.
    pub fn safe(&self) -> (r: Result<(), ApiError>)
        ensures
            r is Ok <==> spec_publish_id_ok(self.series@) && spec_publish_id_ok(self.version@)
                && spec_publish_id_ok(self.name@),
            r matches Err(e) ==> e.kind == ErrorKind::Validation,
    {
        Self::one_safe(self.series.as_str())?;
        Self::one_safe(self.version.as_str())?;
        Self::one_safe(self.name.as_str())?;
        Ok(())
    }

    /// One identifier is safe: 2 to 48 characters, each an ASCII letter,
    /// digit, `-`, `_` or `.`.
    pub fn one_safe(n: &str) -> (r: Result<(), ApiError>)
        ensures
            r is Ok <==> spec_publish_id_ok(n@),
            r matches Err(e) ==> e.kind == ErrorKind::Validation,
    {
        let s = chars_of(n);
        if s.len() < 2 || s.len() > 48 {
            return Err(
                ApiError::new(ErrorKind::Validation, String::from_str("invalid published file ID")),
            );
        }
        let mut i: usize = 0;
        while i < s.len()
            invariant
                i <= s.len(),
                s@ == n@,
                forall|j: int| 0 <= j < i ==> spec_publish_char(n@[j]),
            decreases s.len() - i,
        {
            let c = s[i];
            if !(is_digit(c) || is_alpha(c) || c == '-' || c == '_' || c == '.') {
                return Err(
                    ApiError::new(
                        ErrorKind::Validation,
                        String::from_str("invalid published file ID"),
                    ),
                );
            }
            i = i + 1;
        }
        Ok(())
    }
}

} // verus!
