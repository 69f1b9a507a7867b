//! Output rules.  A job names the files it wants collected with glob rules.
//! A rule is written as an absolute path, optionally preceded by sigils:
//! `!` (ignore matches), `=` (a match is required), `%` (a size change
//! between matching and archiving is acceptable).  `=` and `%` may be
//! combined in either order; `!` excludes both.  No sigil may repeat.

use vstd::prelude::*;
use crate::error::{ApiError, ErrorKind};
use crate::text::{chars_of, string_of};

verus! {

use vstd::string::StringExecFns;

/// A parsed output rule, as handed to the store when a job is created.
#[derive(Debug)]
pub struct CreateOutputRule {
    pub rule: String,
    pub ignore: bool,
    pub require_match: bool,
    pub size_change_ok: bool,
}

impl PartialEq for CreateOutputRule {
    fn eq(&self, other: &CreateOutputRule) -> (r: bool) {
        crate::text::str_eq(self.rule.as_str(), other.rule.as_str()) && self.ignore
            == other.ignore && self.require_match == other.require_match && self.size_change_ok
            == other.size_change_ok
    }
}

impl vstd::std_specs::cmp::PartialEqSpecImpl for CreateOutputRule {
    open spec fn obeys_eq_spec() -> bool {
        true
    }

    open spec fn eq_spec(&self, other: &CreateOutputRule) -> bool {
        self.rule@ == other.rule@ && self.ignore == other.ignore && self.require_match
            == other.require_match && self.size_change_ok == other.size_change_ok
    }
}

impl CreateOutputRule {
    /// A well-formed rule: an absolute path, with `!` excluding the other
    /// two directives.
    pub open spec fn wf(&self) -> bool {
        &&& self.rule@.len() > 0
        &&& self.rule@[0] == '/'
        &&& self.ignore ==> !self.require_match && !self.size_change_ok
    }
}

/// What parsing an output rule string yields: the path part and the three
/// directive flags `(rule, ignore, require_match, size_change_ok)`, or
/// nothing if the string is not a sigil prefix followed by an absolute
/// path.
pub open spec fn spec_parse_output_rule(s: Seq<char>) -> Option<(Seq<char>, bool, bool, bool)> {
    if s.len() > 0 && s[0] == '/' {
        Some((s, false, false, false))
    } else if s.len() >= 2 && s[0] == '!' && s[1] == '/' {
        Some((s.skip(1), true, false, false))
    } else if s.len() >= 2 && s[0] == '=' && s[1] == '/' {
        Some((s.skip(1), false, true, false))
    } else if s.len() >= 2 && s[0] == '%' && s[1] == '/' {
        Some((s.skip(1), false, false, true))
    } else if s.len() >= 3 && s[0] == '=' && s[1] == '%' && s[2] == '/' {
        Some((s.skip(2), false, true, true))
    } else if s.len() >= 3 && s[0] == '%' && s[1] == '=' && s[2] == '/' {
        Some((s.skip(2), false, true, true))
    } else {
        None
    }
}

/// Parse an output rule string: an optional sigil combination (any subset
/// of `!`, `=`, `%`, each at most once, `!` alone, `=`/`%` in either
/// order) followed by an absolute path.
pub fn parse_output_rule(input: &str) -> (r: Result<CreateOutputRule, ApiError>)
    ensures
        match r {
            Ok(cor) => {
                &&& spec_parse_output_rule(input@) == Some(
                    (cor.rule@, cor.ignore, cor.require_match, cor.size_change_ok),
                )
                &&& cor.wf()
            },
            Err(e) => spec_parse_output_rule(input@) is None && e.kind == ErrorKind::Validation,
        },
{
    let s = chars_of(input);
    let n = s.len();

    let (skip, ignore, require_match, size_change_ok): (usize, bool, bool, bool) = if n > 0 && s[0]
        == '/' {
        (0, false, false, false)
    } else if n >= 2 && s[0] == '!' && s[1] == '/' {
        (1, true, false, false)
    } else if n >= 2 && s[0] == '=' && s[1] == '/' {
        (1, false, true, false)
    } else if n >= 2 && s[0] == '%' && s[1] == '/' {
        (1, false, false, true)
    } else if n >= 3 && s[0] == '=' && s[1] == '%' && s[2] == '/' {
        (2, false, true, true)
    } else if n >= 3 && s[0] == '%' && s[1] == '=' && s[2] == '/' {
        (2, false, true, true)
    } else {
        return Err(
            ApiError::new(
                ErrorKind::Validation,
                String::from_str("output rule pattern must be sigils and an absolute path"),
            ),
        );
    };

    let mut rest: Vec<char> = Vec::new();
    let mut i: usize = skip;
    while i < n
        invariant
            skip <= i <= n,
            n == s@.len(),
            rest@ == s@.subrange(skip as int, i as int),
        decreases n - i,
    {
        rest.push(s[i]);
        proof {
            assert(s@.subrange(skip as int, i as int).push(s@[i as int]) =~= s@.subrange(
                skip as int,
                i + 1 as int,
            ));
        }
        i = i + 1;
    }
    proof {
        assert(rest@ =~= s@.skip(skip as int));
    }
    let rule = string_of(&rest);
    Ok(CreateOutputRule { rule, ignore, require_match, size_change_ok })
}

/// Render a parsed rule back into its string form: `!`, then `%`, then
/// `=`, for whichever directives are set, followed by the path.
pub open spec fn spec_render_output_rule(
    rule: Seq<char>,
    ignore: bool,
    require_match: bool,
    size_change_ok: bool,
) -> Seq<char> {
    let a: Seq<char> = if ignore {
        seq!['!']
    } else {
        Seq::empty()
    };
    let b: Seq<char> = if size_change_ok {
        seq!['%']
    } else {
        Seq::empty()
    };
    let c: Seq<char> = if require_match {
        seq!['=']
    } else {
        Seq::empty()
    };
    a + b + c + rule
}

/// Reconstruct the string form of a stored output rule.
pub fn render_output_rule(r: &CreateOutputRule) -> (out: String)
    ensures
        out@ == spec_render_output_rule(r.rule@, r.ignore, r.require_match, r.size_change_ok),
{
    let mut v: Vec<char> = Vec::new();
    if r.ignore {
        v.push('!');
    }
    if r.size_change_ok {
        v.push('%');
    }
    if r.require_match {
        v.push('=');
    }
    let mut rest = chars_of(r.rule.as_str());
    let mut i: usize = 0;
    let ghost pre = v@;
    while i < rest.len()
        invariant
            i <= rest.len(),
            rest@ == r.rule@,
            v@ == pre + rest@.subrange(0, i as int),
        decreases rest.len() - i,
    {
        v.push(rest[i]);
        proof {
            assert(pre + rest@.subrange(0, i as int).push(rest@[i as int]) =~= pre + rest@.subrange(
                0,
                i + 1 as int,
            ));
        }
        i = i + 1;
    }
    proof {
        assert(rest@.subrange(0, rest@.len() as int) =~= rest@);
        assert(pre + r.rule@ =~= spec_render_output_rule(
            r.rule@,
            r.ignore,
            r.require_match,
            r.size_change_ok,
        ));
    }
    string_of(&v)
}

/// Rendering a well-formed rule and parsing the result yields the rule
/// back: the string form of a stored rule means what the stored rule
/// means.
pub proof fn lemma_output_rule_round_trip(
    rule: Seq<char>,
    ignore: bool,
    require_match: bool,
    size_change_ok: bool,
)
    requires
        rule.len() > 0,
        rule[0] == '/',
        ignore ==> !require_match && !size_change_ok,
    ensures
        spec_parse_output_rule(spec_render_output_rule(rule, ignore, require_match, size_change_ok))
            == Some((rule, ignore, require_match, size_change_ok)),
{
    let s = spec_render_output_rule(rule, ignore, require_match, size_change_ok);
    if ignore {
        assert(s =~= seq!['!'] + rule);
        assert(s.skip(1) =~= rule);
    } else if size_change_ok && require_match {
        assert(s =~= seq!['%', '='] + rule);
        assert(s.skip(2) =~= rule);
    } else if size_change_ok {
        assert(s =~= seq!['%'] + rule);
        assert(s.skip(1) =~= rule);
    } else if require_match {
        assert(s =~= seq!['='] + rule);
        assert(s.skip(1) =~= rule);
    } else {
        assert(s =~= rule);
    }
}

} // verus!
