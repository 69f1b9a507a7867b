//! Authentication decisions.  Bearer tokens live in three realms:
//! users, workers and factories.  A user holding the delegation
//! privilege may act as another user, named by a separate header, and
//! the named user is created on first sight.  An administrative caller
//! presents either the configured admin token or a user token carrying
//! the delegated administrative privilege.

use vstd::prelude::*;
use crate::error::{ApiError, ErrorKind};
use crate::store::{Database, spec_find_user_token_from, spec_has_privilege, user_has_privilege};
use crate::text::str_eq;

verus! {

use vstd::string::StringExecFns;

/// Authenticate a user request: the bearer token names a user, and if
/// a delegation is asked for, the caller must hold the `delegate`
/// privilege; the delegated-to user is created if missing.  The
/// position of the acting user is returned.
pub fn require_user(db: &mut Database, token: &str, delegate: Option<&str>, now: i64) -> (r: Result<
    usize,
    ApiError,
>)
    requires
        old(db).wf(),
    ensures
        final(db).wf(),
        *final(db) == (Database { users: final(db).users, ..*old(db) }),
        match spec_find_user_token_from(old(db).users@, token@, 0) {
            None => *final(db) == *old(db) && (r matches Err(e) && e.kind
                == ErrorKind::Authentication),
            Some(u) => {
                match delegate {
                    None => *final(db) == *old(db) && r == Ok::<usize, ApiError>(u as usize),
                    Some(d) => {
                        if !spec_has_privilege(old(db).users@[u], "delegate"@) {
                            *final(db) == *old(db) && (r matches Err(e) && e.kind
                                == ErrorKind::Authentication)
                        } else {
                            r matches Ok(i) && i < final(db).users@.len() && final(db).users@[
                                i as int
                            ].name@ == d@
                        }
                    },
                }
            },
        },
{
    let mut u: usize = 0;
    let n = db.users.len();
    loop
        invariant
            u <= n,
            n == db.users@.len(),
            *db == *old(db),
            spec_find_user_token_from(db.users@, token@, 0) == spec_find_user_token_from(
                db.users@,
                token@,
                u as int,
            ),
        ensures
            *db == *old(db),
            match spec_find_user_token_from(db.users@, token@, 0) {
                Some(m) => m == u as int && u < n,
                None => u == n,
            },
        decreases n - u,
    {
        if u >= n {
            break ;
        }
        if str_eq(db.users[u].token.as_str(), token) {
            break ;
        }
        u = u + 1;
    }
    if u >= n {
        return Err(ApiError::new(ErrorKind::Authentication, String::from_str("not authorised")));
    }
    match delegate {
        None => Ok(u),
        Some(d) => {
            if !user_has_privilege(&db.users[u], "delegate") {
                return Err(
                    ApiError::new(ErrorKind::Authentication, String::from_str("not authorised")),
                );
            }
            db.user_ensure(d, now)
        },
    }
}

/// Authenticate an administrative request for a named privilege: the
/// configured admin token passes outright, and a user token passes
/// exactly when the user holds the corresponding delegated
/// administrative privilege.
pub fn require_admin(db: &Database, token: &str, admin_token: &str, privname: &str) -> (r: Result<
    (),
    ApiError,
>)
    ensures
        token@ == admin_token@ ==> r is Ok,
        token@ != admin_token@ ==> match spec_find_user_token_from(db.users@, token@, 0) {
            None => r matches Err(e) && e.kind == ErrorKind::Authentication,
            Some(u) => {
                if spec_has_privilege(db.users@[u], "admin."@ + privname@) {
                    r is Ok
                } else {
                    r matches Err(e) && e.kind == ErrorKind::Authentication
                }
            },
        },
{
    if str_eq(token, admin_token) {
        return Ok(());
    }
    let mut u: usize = 0;
    let n = db.users.len();
    loop
        invariant
            u <= n,
            n == db.users@.len(),
            spec_find_user_token_from(db.users@, token@, 0) == spec_find_user_token_from(
                db.users@,
                token@,
                u as int,
            ),
        ensures
            match spec_find_user_token_from(db.users@, token@, 0) {
                Some(m) => m == u as int && u < n,
                None => u == n,
            },
        decreases n - u,
    {
        if u >= n {
            break ;
        }
        if str_eq(db.users[u].token.as_str(), token) {
            break ;
        }
        u = u + 1;
    }
    if u >= n {
        return Err(ApiError::new(ErrorKind::Authentication, String::from_str("not authorised")));
    }
    let mut want = String::from_str("admin.");
    want.append(privname);
    proof {
        assert(want@ == "admin."@ + privname@);
    }
    if user_has_privilege(&db.users[u], want.as_str()) {
        Ok(())
    } else {
        Err(ApiError::new(ErrorKind::Authentication, String::from_str("not authorised")))
    }
}


/// A whitespace character as far as header splitting cares: the space
/// and tab that occur in header values; wider Unicode whitespace is
/// not expected there and not folded.
pub open spec fn spec_is_space(c: char) -> bool {
    c == ' ' || c == '\t'
}

/// The end of the token starting at `i`: the first whitespace position
/// at or after it, or the end of the text.
pub open spec fn spec_token_end(s: Seq<char>, i: int) -> int
    decreases s.len() - i when 0 <= i <= s.len()
{
    if i >= s.len() {
        s.len() as int
    } else if spec_is_space(s[i]) {
        i
    } else {
        spec_token_end(s, i + 1)
    }
}

/// The whitespace-separated tokens of the text from position `i` on.
pub open spec fn spec_tokens_from(s: Seq<char>, i: int) -> Seq<Seq<char>>
    decreases s.len() - i when 0 <= i <= s.len()
{
    if i >= s.len() {
        Seq::empty()
    } else if spec_is_space(s[i]) {
        spec_tokens_from(s, i + 1)
    } else {
        let e = spec_token_end(s, i);
        if i < e <= s.len() {
            seq![s.subrange(i, e)] + spec_tokens_from(s, e)
        } else {
            seq![s.subrange(i, i + 1)] + spec_tokens_from(s, i + 1)
        }
    }
}

/// The whitespace-separated tokens of a header value.
pub open spec fn spec_tokens(s: Seq<char>) -> Seq<Seq<char>> {
    spec_tokens_from(s, 0)
}

/// The scheme word of a bearer header, in any letter case.
pub open spec fn spec_is_bearer_word(t: Seq<char>) -> bool {
    &&& t.len() == 6
    &&& (t[0] == 'b' || t[0] == 'B')
    &&& (t[1] == 'e' || t[1] == 'E')
    &&& (t[2] == 'a' || t[2] == 'A')
    &&& (t[3] == 'r' || t[3] == 'R')
    &&& (t[4] == 'e' || t[4] == 'E')
    &&& (t[5] == 'r' || t[5] == 'R')
}

/// What a well-formed authorisation header yields: exactly two
/// whitespace-separated tokens, the first the scheme word in any
/// case, the second a credential of at least three characters.
pub open spec fn spec_parse_bearer(s: Seq<char>) -> Option<Seq<char>> {
    let ts = spec_tokens(s);
    if ts.len() == 2 && spec_is_bearer_word(ts[0]) && ts[1].len() >= 3 {
        Some(ts[1])
    } else {
        None
    }
}

/// A run of non-whitespace ending at whitespace or the end is one
/// token.
proof fn lemma_token_end_run(s: Seq<char>, i: int, e: int)
    requires
        0 <= i <= e <= s.len(),
        forall|k: int| i <= k < e ==> !spec_is_space(#[trigger] s[k]),
        e == s.len() || spec_is_space(s[e]),
    ensures
        spec_token_end(s, i) == e,
    decreases e - i,
{
    if i < e {
        lemma_token_end_run(s, i + 1, e);
    }
}

/// Split a header value on whitespace.
fn tokenize(s: &str) -> (r: Vec<String>)
    ensures
        r@.len() == spec_tokens(s@).len(),
        forall|k: int| 0 <= k < r@.len() ==> (#[trigger] r@[k])@ == spec_tokens(s@)[k],
{
    let cs = crate::text::chars_of(s);
    let mut out: Vec<String> = Vec::new();
    let mut i: usize = 0;
    let n = cs.len();
    while i < n
        invariant
            i <= n,
            n == cs@.len(),
            cs@ == s@,
            spec_tokens(s@) =~= Seq::new(out@.len(), |k: int| out@[k]@) + spec_tokens_from(
                s@,
                i as int,
            ),
        decreases n - i,
    {
        let c = cs[i];
        if c == ' ' || c == '\t' {
            i = i + 1;
            continue ;
        }
        let start = i;
        let mut tok: Vec<char> = Vec::new();
        while i < n && !(cs[i] == ' ' || cs[i] == '\t')
            invariant
                start <= i <= n,
                n == cs@.len(),
                cs@ == s@,
                forall|k: int| start <= k < i ==> !spec_is_space(#[trigger] s@[k]),
                tok@ == s@.subrange(start as int, i as int),
            decreases n - i,
        {
            tok.push(cs[i]);
            proof {
                assert(s@.subrange(start as int, i as int).push(s@[i as int]) =~= s@.subrange(
                    start as int,
                    i + 1 as int,
                ));
            }
            i = i + 1;
        }
        proof {
            lemma_token_end_run(s@, start as int, i as int);
        }
        let ghost pre = Seq::new(out@.len(), |k: int| out@[k]@);
        out.push(crate::text::string_of(&tok));
        proof {
            assert(Seq::new(out@.len(), |k: int| out@[k]@) =~= pre.push(
                s@.subrange(start as int, i as int),
            ));
            assert(spec_tokens(s@) =~= Seq::new(out@.len(), |k: int| out@[k]@) + spec_tokens_from(
                s@,
                i as int,
            ));
        }
    }
    proof {
        assert(spec_tokens(s@) =~= Seq::new(out@.len(), |k: int| out@[k]@));
    }
    out
}

/// Pull the credential out of an authorisation header: the scheme word
/// in any case, whitespace, and a credential of at least three
/// characters, and nothing else.
pub fn parse_bearer(header: &str) -> (r: Option<String>)
    ensures
        match r {
            Some(tok) => spec_parse_bearer(header@) == Some(tok@),
            None => spec_parse_bearer(header@) is None,
        },
{
    let toks = tokenize(header);
    if toks.len() != 2 {
        return None;
    }
    let w = crate::text::chars_of(toks[0].as_str());
    if w.len() != 6 {
        return None;
    }
    let word_ok = (w[0] == 'b' || w[0] == 'B') && (w[1] == 'e' || w[1] == 'E') && (w[2] == 'a'
        || w[2] == 'A') && (w[3] == 'r' || w[3] == 'R') && (w[4] == 'e' || w[4] == 'E') && (w[5]
        == 'r' || w[5] == 'R');
    if !word_ok {
        return None;
    }
    let cred = crate::text::chars_of(toks[1].as_str());
    if cred.len() < 3 {
        return None;
    }
    Some(toks[1].clone())
}


/// Load a job on behalf of an authenticated user: users see their own
/// jobs, and a user holding the delegated read privilege sees every
/// job.  The position of the job is returned.
pub fn load_job_for_user(
    db: &Database,
    user: &crate::store::User,
    job: &crate::ids::JobId,
) -> (r: Result<usize, ApiError>)
    ensures
        match crate::store::spec_find_job(db.jobs@, job.id@) {
            None => r matches Err(e) && e.kind == ErrorKind::NotFound,
            Some(i) => {
                if db.jobs@[i].owner@ == user.id@ || spec_has_privilege(*user, "admin.job.read"@) {
                    r == Ok::<usize, ApiError>(i as usize)
                } else {
                    r matches Err(e) && e.kind == ErrorKind::Authorization
                }
            },
        },
{
    let i = match db.find_job(job) {
        Some(i) => i,
        None => {
            return Err(ApiError::new(ErrorKind::NotFound, String::from_str("job not found")));
        },
    };
    if str_eq(db.jobs[i].owner.as_str(), user.id.as_str()) {
        return Ok(i);
    }
    if user_has_privilege(user, "admin.job.read") {
        return Ok(i);
    }
    Err(ApiError::new(ErrorKind::Authorization, String::from_str("not your job")))
}

} // verus!
