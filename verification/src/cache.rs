//! Helpers for the build-cache tooling: picking apart artifact file
//! names, deciding which artifacts belong to workspace packages and so
//! should not be cached, and deriving the cache key from the toolchain
//! description, the selected environment and the manifest contents.

use vstd::prelude::*;
use crate::text::{chars_of, hex_of, string_of, spec_hex_digit};

verus! {

use vstd::string::StringExecFns;

/// The position of the last occurrence of a character, if any.
pub open spec fn spec_last_index_of(s: Seq<char>, c: char) -> Option<int> {
    if exists|i: int| 0 <= i < s.len() && s[i] == c {
        Some(choose|i: int| 0 <= i < s.len() && s[i] == c && (forall|k: int| i < k < s.len() ==> s[k] != c))
    } else {
        None
    }
}

/// Split a string at the last occurrence of a delimiter, yielding the
/// parts before and after it.  Artifact names carry a trailing hash
/// after a dash, so splitting `deps-abc12.d` at `-` yields
/// `(deps, abc12.d)`.
pub fn rsplit_once(haystack: &str, delim: char) -> (r: Option<(String, String)>)
    ensures
        match r {
            Some((prefix, suffix)) => exists|i: int|
                0 <= i < haystack@.len() && #[trigger] haystack@[i] == delim && prefix@
                    == haystack@.subrange(0, i) && suffix@ == haystack@.subrange(
                    i + 1,
                    haystack@.len() as int,
                ) && (forall|k: int| i < k < haystack@.len() ==> haystack@[k] != delim),
            None => forall|i: int| 0 <= i < haystack@.len() ==> haystack@[i] != delim,
        },
{
    let s = chars_of(haystack);
    let mut i: usize = s.len();
    while i > 0
        invariant
            i <= s@.len(),
            s@ == haystack@,
            forall|k: int| i <= k < s@.len() ==> s@[k] != delim,
        decreases i,
    {
        if s[i - 1] == delim {
            let mut prefix: Vec<char> = Vec::new();
            let mut k: usize = 0;
            while k < i - 1
                invariant
                    k <= i - 1,
                    i <= s@.len(),
                    i >= 1,
                    s@ == haystack@,
                    prefix@ == s@.subrange(0, k as int),
                decreases i - 1 - k,
            {
                prefix.push(s[k]);
                proof {
                    assert(s@.subrange(0, k as int).push(s@[k as int]) =~= s@.subrange(
                        0,
                        k + 1 as int,
                    ));
                }
                k = k + 1;
            }
            let mut suffix: Vec<char> = Vec::new();
            let mut k: usize = i;
            while k < s.len()
                invariant
                    i <= k <= s@.len(),
                    s@ == haystack@,
                    suffix@ == s@.subrange(i as int, k as int),
                decreases s@.len() - k,
            {
                suffix.push(s[k]);
                proof {
                    assert(s@.subrange(i as int, k as int).push(s@[k as int]) =~= s@.subrange(
                        i as int,
                        k + 1 as int,
                    ));
                }
                k = k + 1;
            }
            return Some((string_of(&prefix), string_of(&suffix)));
        }
        i = i - 1;
    }
    None
}

/// Render a digest as hexadecimal, one or two digits per byte: a byte
/// below sixteen contributes a single digit.
pub open spec fn spec_hash_text(bytes: Seq<u8>) -> Seq<char>
    decreases bytes.len(),
{
    if bytes.len() == 0 {
        Seq::empty()
    } else {
        spec_hash_text(bytes.drop_last()) + (if bytes.last() < 16 {
            seq![spec_hex_digit(bytes.last() % 16)]
        } else {
            seq![spec_hex_digit(bytes.last() / 16), spec_hex_digit(bytes.last() % 16)]
        })
    }
}

/// Render a digest as text for use in a cache object name.
pub fn hash_to_string(input: &Vec<u8>) -> (r: String)
    ensures
        r@ == spec_hash_text(input@),
{
    let mut out: Vec<char> = Vec::new();
    let mut i: usize = 0;
    while i < input.len()
        invariant
            i <= input@.len(),
            out@ == spec_hash_text(input@.subrange(0, i as int)),
        decreases input@.len() - i,
    {
        let b = input[i];
        if b >= 16 {
            out.push(crate::text::hex_digit(b / 16));
        }
        out.push(crate::text::hex_digit(b % 16));
        proof {
            let pre = input@.subrange(0, i + 1 as int);
            assert(pre.drop_last() =~= input@.subrange(0, i as int));
            assert(pre.last() == input@[i as int]);
        }
        i = i + 1;
    }
    proof {
        assert(input@.subrange(0, input@.len() as int) =~= input@);
    }
    string_of(&out)
}

/// Whether a name occurs in a list of names.
pub fn contains_name(names: &Vec<String>, name: &str) -> (r: bool)
    ensures
        r == exists|i: int| 0 <= i < names@.len() && (#[trigger] names@[i])@ == name@,
{
    let mut i: usize = 0;
    while i < names.len()
        invariant
            i <= names@.len(),
            forall|k: int| 0 <= k < i ==> (#[trigger] names@[k])@ != name@,
        decreases names@.len() - i,
    {
        if crate::text::str_eq(names[i].as_str(), name) {
            return true;
        }
        i = i + 1;
    }
    false
}

/// The stem of an artifact file name with dashes folded to
/// underscores, as package names are compared.
pub open spec fn spec_fold_dashes(s: Seq<char>) -> Seq<char> {
    s.map_values(
        |c: char|
            if c == '-' {
                '_'
            } else {
                c
            },
    )
}

/// Fold the dashes of a name to underscores.
pub fn fold_dashes(s: &str) -> (r: String)
    ensures
        r@ == spec_fold_dashes(s@),
{
    let cs = chars_of(s);
    let mut out: Vec<char> = Vec::new();
    let mut i: usize = 0;
    while i < cs.len()
        invariant
            i <= cs@.len(),
            cs@ == s@,
            out@ =~= spec_fold_dashes(s@.subrange(0, i as int)),
        decreases cs@.len() - i,
    {
        if cs[i] == '-' {
            out.push('_');
        } else {
            out.push(cs[i]);
        }
        proof {
            assert(out@ =~= spec_fold_dashes(s@.subrange(0, i + 1 as int)));
        }
        i = i + 1;
    }
    proof {
        assert(s@.subrange(0, s@.len() as int) =~= s@);
    }
    string_of(&out)
}

/// Whether an artifact file belongs to a workspace package, and so
/// should be removed before the target directory is cached.  A file
/// whose name has no dash-separated hash suffix is always removed; one
/// whose stem, dashes folded to underscores, names a workspace package
/// is removed; anything else is a dependency artifact and stays.
pub fn should_delete(filename: &str, packages: &Vec<String>) -> (r: bool)
    ensures
        match spec_last_index_of(filename@, '-') {
            None => r == true,
            Some(i) => r == exists|k: int|
                0 <= k < packages@.len() && (#[trigger] packages@[k])@ == spec_fold_dashes(
                    filename@.subrange(0, i),
                ),
        },
{
    match rsplit_once(filename, '-') {
        None => true,
        Some((stem, _)) => {
            let folded = fold_dashes(stem.as_str());
            proof {
                let i = choose|i: int|
                    0 <= i < filename@.len() && #[trigger] filename@[i] == '-' && stem@
                        == filename@.subrange(0, i) && (forall|k: int|
                        i < k < filename@.len() ==> filename@[k] != '-');
                assert(spec_last_index_of(filename@, '-') == Some(i));
            }
            contains_name(packages, folded.as_str())
        },
    }
}

/// What the SHA-256 digest of a byte string is.  The digest depends on
/// the bytes alone.
pub uninterp spec fn sha256_of(input: Seq<u8>) -> Seq<u8>;

/// Relies on hmac_sha256::Hash::hash: the SHA-256 digest of the input,
/// thirty-two bytes.
#[verifier::external_body]
fn sha256(input: &Vec<u8>) -> (r: Vec<u8>)
    ensures
        r@ == sha256_of(input@),
        r@.len() == 32,
{
    hmac_sha256::Hash::hash(input.as_slice()).to_vec()
}

/// The byte string a cache key is digested over: every part in order,
/// each part's bytes after the previous part's.
pub open spec fn spec_key_material(parts: Seq<Vec<u8>>) -> Seq<u8>
    decreases parts.len(),
{
    if parts.len() == 0 {
        Seq::empty()
    } else {
        spec_key_material(parts.drop_last()) + parts.last()@
    }
}

/// Digest the parts of a cache key, in order: the toolchain
/// description values, then the selected environment pairs, then the
/// manifest file contents.  The key is the rendering of the digest
/// over the concatenation of the parts.
pub fn cache_key(parts: &Vec<Vec<u8>>) -> (r: String)
    ensures
        r@ == spec_hash_text(sha256_of(spec_key_material(parts@))),
{
    let mut material: Vec<u8> = Vec::new();
    let mut i: usize = 0;
    while i < parts.len()
        invariant
            i <= parts@.len(),
            material@ == spec_key_material(parts@.subrange(0, i as int)),
        decreases parts@.len() - i,
    {
        let part = &parts[i];
        let mut m: usize = 0;
        let ghost pre = material@;
        while m < part.len()
            invariant
                m <= part@.len(),
                part@ == parts@[i as int]@,
                i < parts@.len(),
                material@ == pre + part@.subrange(0, m as int),
            decreases part@.len() - m,
        {
            material.push(part[m]);
            proof {
                assert(pre + part@.subrange(0, m as int).push(part@[m as int]) =~= pre
                    + part@.subrange(0, m + 1 as int));
            }
            m = m + 1;
        }
        proof {
            assert(part@.subrange(0, part@.len() as int) =~= part@);
            let sub = parts@.subrange(0, i + 1 as int);
            assert(sub.drop_last() =~= parts@.subrange(0, i as int));
            assert(sub.last() == parts@[i as int]);
        }
        i = i + 1;
    }
    proof {
        assert(parts@.subrange(0, parts@.len() as int) =~= parts@);
    }
    let digest = sha256(&material);
    hash_to_string(&digest)
}

} // verus!
