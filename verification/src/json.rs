//! A small JSON codec for the archive documents.  The encoder renders
//! a document canonically; the parser reads documents back.  Parsing a
//! rendered document yields the document again: the round trip is
//! proved below, so an archive written by this crate is always read
//! back intact.

use vstd::prelude::*;
use crate::text::{spec_is_digit, spec_hex_digit, chars_of};

verus! {

use vstd::string::StringExecFns;

/// A JSON value as held in memory.
#[derive(Debug)]
pub enum Json {
    Null,
    Bool(bool),
    Num(i128),
    Str(String),
    Arr(Vec<Json>),
    Obj(Vec<(String, Json)>),
}

/// The mathematical shape of a JSON value: strings as character
/// sequences, collections as sequences.
pub enum GJson {
    Null,
    Bool(bool),
    Num(int),
    Str(Seq<char>),
    Arr(Seq<GJson>),
    Obj(Seq<(Seq<char>, GJson)>),
}

/// The shape of a value.
pub open spec fn jview(v: Json) -> GJson
    decreases v,
{
    match v {
        Json::Null => GJson::Null,
        Json::Bool(b) => GJson::Bool(b),
        Json::Num(n) => GJson::Num(n as int),
        Json::Str(s) => GJson::Str(s@),
        Json::Arr(items) => GJson::Arr(jview_items(items@, 0)),
        Json::Obj(fields) => GJson::Obj(jview_fields(fields@, 0)),
    }
}

/// The shapes of the items of an array, from position `i` on.
pub open spec fn jview_items(items: Seq<Json>, i: int) -> Seq<GJson>
    decreases items, items.len() - i,
{
    if i < 0 || i >= items.len() {
        Seq::empty()
    } else {
        seq![jview(items[i])] + jview_items(items, i + 1)
    }
}

/// The shapes of the fields of an object, from position `i` on.
pub open spec fn jview_fields(fields: Seq<(String, Json)>, i: int) -> Seq<(Seq<char>, GJson)>
    decreases fields, fields.len() - i,
{
    if i < 0 || i >= fields.len() {
        Seq::empty()
    } else {
        seq![(fields[i].0@, jview(fields[i].1))] + jview_fields(fields, i + 1)
    }
}

/// A shape the encoder can render: every number fits the in-memory
/// number type.
pub open spec fn gwf(g: GJson) -> bool
    decreases g,
{
    match g {
        GJson::Null => true,
        GJson::Bool(_) => true,
        GJson::Num(n) => i128::MIN <= n <= i128::MAX,
        GJson::Str(_) => true,
        GJson::Arr(items) => forall|i: int| 0 <= i < items.len() ==> gwf(#[trigger] items[i]),
        GJson::Obj(fields) => forall|i: int|
            0 <= i < fields.len() ==> gwf((#[trigger] fields[i]).1),
    }
}

/// The canonical decimal rendering of a non-negative number.
pub open spec fn spec_enc_nat(n: int) -> Seq<char>
    recommends
        n >= 0,
    decreases n,
{
    if n <= 9 {
        seq![spec_digit_char(n)]
    } else {
        spec_enc_nat(n / 10) + seq![spec_digit_char(n % 10)]
    }
}

/// The digit character for a value below ten.
pub open spec fn spec_digit_char(n: int) -> char
    recommends
        0 <= n <= 9,
{
    spec_hex_digit(n as u8)
}

/// The canonical decimal rendering of a number, with a leading minus
/// for negative values.
pub open spec fn spec_enc_int(n: int) -> Seq<char> {
    if n < 0 {
        seq!['-'] + spec_enc_nat(-n)
    } else {
        spec_enc_nat(n)
    }
}

/// The escape of one string character.
pub open spec fn spec_esc_char(c: char) -> Seq<char> {
    if c == '"' {
        seq!['\\', '"']
    } else if c == '\\' {
        seq!['\\', '\\']
    } else if c == '\n' {
        seq!['\\', 'n']
    } else if c == '\r' {
        seq!['\\', 'r']
    } else if c == '\t' {
        seq!['\\', 't']
    } else if (c as u32) < 32 {
        seq!['\\', 'u', '0', '0', spec_hex_digit(((c as u32) / 16) as u8), spec_hex_digit(
            ((c as u32) % 16) as u8,
        )]
    } else {
        seq![c]
    }
}

/// The escaped body of a string.
pub open spec fn spec_esc(s: Seq<char>) -> Seq<char>
    decreases s.len(),
{
    if s.len() == 0 {
        Seq::empty()
    } else {
        spec_esc_char(s[0]) + spec_esc(s.skip(1))
    }
}

/// The canonical rendering of a value.
pub open spec fn spec_enc(g: GJson) -> Seq<char>
    decreases g,
{
    match g {
        GJson::Null => "null"@,
        GJson::Bool(b) => if b {
            "true"@
        } else {
            "false"@
        },
        GJson::Num(n) => spec_enc_int(n),
        GJson::Str(s) => seq!['"'] + spec_esc(s) + seq!['"'],
        GJson::Arr(items) => seq!['['] + spec_enc_items(items) + seq![']'],
        GJson::Obj(fields) => seq!['{'] + spec_enc_fields(fields) + seq!['}'],
    }
}

/// The comma-separated renderings of array items.
pub open spec fn spec_enc_items(items: Seq<GJson>) -> Seq<char>
    decreases items,
{
    if items.len() == 0 {
        Seq::empty()
    } else if items.len() == 1 {
        spec_enc(items[0])
    } else {
        spec_enc(items[0]) + seq![','] + spec_enc_items(items.skip(1))
    }
}

/// The comma-separated renderings of object fields.
pub open spec fn spec_enc_fields(fields: Seq<(Seq<char>, GJson)>) -> Seq<char>
    decreases fields,
{
    if fields.len() == 0 {
        Seq::empty()
    } else {
        (seq!['"'] + spec_esc(fields[0].0) + seq!['"', ':'] + spec_enc(fields[0].1)) + (if fields.len()
            == 1 {
            Seq::empty()
        } else {
            seq![','] + spec_enc_fields(fields.skip(1))
        })
    }
}


/// The numeric value of a decimal digit character.
pub open spec fn spec_digit_val(c: char) -> int {
    (c as u32) - 48
}

/// The numeric value of a lowercase hexadecimal digit character.
pub open spec fn spec_hex_val(c: char) -> int {
    if '0' <= c && c <= '9' {
        (c as u32) - 48
    } else {
        (c as u32) - 87
    }
}

/// Whether a character is a lowercase hexadecimal digit.
pub open spec fn spec_is_hex(c: char) -> bool {
    ('0' <= c && c <= '9') || ('a' <= c && c <= 'f')
}

/// Parse a run of decimal digits from position `i`, folding them onto
/// an accumulator, and stop at the first non-digit.
pub open spec fn spec_parse_digits(s: Seq<char>, i: int, acc: int) -> (int, int)
    decreases s.len() - i when 0 <= i <= s.len()
{
    if i < s.len() && spec_is_digit(s[i]) {
        spec_parse_digits(s, i + 1, acc * 10 + spec_digit_val(s[i]))
    } else {
        (acc, i)
    }
}

/// Parse a number at position `i`: an optional minus sign and at least
/// one digit.
pub open spec fn spec_parse_num(s: Seq<char>, i: int) -> Option<(GJson, int)> {
    if i < s.len() && s[i] == '-' {
        if i + 1 < s.len() && spec_is_digit(s[i + 1]) {
            let (n, j) = spec_parse_digits(s, i + 1, 0);
            Some((GJson::Num(-n), j))
        } else {
            None
        }
    } else if i < s.len() && spec_is_digit(s[i]) {
        let (n, j) = spec_parse_digits(s, i, 0);
        Some((GJson::Num(n), j))
    } else {
        None
    }
}

/// Parse the body of a string from position `i`, after the opening
/// quote, up to and including the closing quote.
pub open spec fn spec_parse_str(s: Seq<char>, i: int) -> Option<(Seq<char>, int)>
    decreases s.len() - i when 0 <= i <= s.len()
{
    if i >= s.len() {
        None
    } else if s[i] == '"' {
        Some((Seq::empty(), i + 1))
    } else if s[i] == '\\' {
        if i + 1 < s.len() {
            let e = s[i + 1];
            if e == '"' || e == '\\' {
                match spec_parse_str(s, i + 2) {
                    None => None,
                    Some((rest, j)) => Some((seq![e] + rest, j)),
                }
            } else if e == 'n' {
                match spec_parse_str(s, i + 2) {
                    None => None,
                    Some((rest, j)) => Some((seq!['\n'] + rest, j)),
                }
            } else if e == 'r' {
                match spec_parse_str(s, i + 2) {
                    None => None,
                    Some((rest, j)) => Some((seq!['\r'] + rest, j)),
                }
            } else if e == 't' {
                match spec_parse_str(s, i + 2) {
                    None => None,
                    Some((rest, j)) => Some((seq!['\t'] + rest, j)),
                }
            } else if e == 'u' {
                if i + 5 < s.len() && s[i + 2] == '0' && s[i + 3] == '0' && spec_is_hex(s[i + 4])
                    && spec_is_hex(s[i + 5]) {
                    let v = spec_hex_val(s[i + 4]) * 16 + spec_hex_val(s[i + 5]);
                    if 0 <= v < 32 {
                        match spec_parse_str(s, i + 6) {
                            None => None,
                            Some((rest, j)) => Some((seq![(v as u32) as char] + rest, j)),
                        }
                    } else {
                        None
                    }
                } else {
                    None
                }
            } else {
                None
            }
        } else {
            None
        }
    } else {
        match spec_parse_str(s, i + 1) {
            None => None,
            Some((rest, j)) => Some((seq![s[i]] + rest, j)),
        }
    }
}

/// Parse a value at position `i`.
pub open spec fn spec_parse(s: Seq<char>, i: int) -> Option<(GJson, int)>
    decreases s.len() - i, 0int when 0 <= i <= s.len()
{
    if i >= s.len() {
        None
    } else if s[i] == 'n' {
        if i + 4 <= s.len() && s.subrange(i, i + 4) == "null"@ {
            Some((GJson::Null, i + 4))
        } else {
            None
        }
    } else if s[i] == 't' {
        if i + 4 <= s.len() && s.subrange(i, i + 4) == "true"@ {
            Some((GJson::Bool(true), i + 4))
        } else {
            None
        }
    } else if s[i] == 'f' {
        if i + 5 <= s.len() && s.subrange(i, i + 5) == "false"@ {
            Some((GJson::Bool(false), i + 5))
        } else {
            None
        }
    } else if s[i] == '"' {
        match spec_parse_str(s, i + 1) {
            None => None,
            Some((cs, j)) => Some((GJson::Str(cs), j)),
        }
    } else if s[i] == '[' {
        if i + 1 < s.len() && s[i + 1] == ']' {
            Some((GJson::Arr(Seq::empty()), i + 2))
        } else {
            match spec_parse_items(s, i + 1) {
                None => None,
                Some((items, j)) => Some((GJson::Arr(items), j)),
            }
        }
    } else if s[i] == '{' {
        if i + 1 < s.len() && s[i + 1] == '}' {
            Some((GJson::Obj(Seq::empty()), i + 2))
        } else {
            match spec_parse_fields(s, i + 1) {
                None => None,
                Some((fields, j)) => Some((GJson::Obj(fields), j)),
            }
        }
    } else if s[i] == '-' || spec_is_digit(s[i]) {
        spec_parse_num(s, i)
    } else {
        None
    }
}

/// Parse one or more comma-separated values from position `i`, up to
/// and including the closing bracket.
pub open spec fn spec_parse_items(s: Seq<char>, i: int) -> Option<(Seq<GJson>, int)>
    decreases s.len() - i, 1int when 0 <= i <= s.len()
{
    match spec_parse(s, i) {
        None => None,
        Some((g, j)) => if i < j <= s.len() {
            if j < s.len() && s[j] == ']' {
                Some((seq![g], j + 1))
            } else if j < s.len() && s[j] == ',' {
                match spec_parse_items(s, j + 1) {
                    None => None,
                    Some((rest, k)) => Some((seq![g] + rest, k)),
                }
            } else {
                None
            }
        } else {
            None
        },
    }
}

/// Parse one or more comma-separated `"key":value` fields from
/// position `i`, up to and including the closing brace.
pub open spec fn spec_parse_fields(s: Seq<char>, i: int) -> Option<(Seq<(Seq<char>, GJson)>, int)>
    decreases s.len() - i, 1int when 0 <= i <= s.len()
{
    if i < s.len() && s[i] == '"' {
        match spec_parse_str(s, i + 1) {
            None => None,
            Some((key, j)) => if i < j < s.len() && s[j] == ':' {
                match spec_parse(s, j + 1) {
                    None => None,
                    Some((g, k)) => if j + 1 < k <= s.len() {
                        if k < s.len() && s[k] == '}' {
                            Some((seq![(key, g)], k + 1))
                        } else if k < s.len() && s[k] == ',' {
                            match spec_parse_fields(s, k + 1) {
                                None => None,
                                Some((rest, m)) => Some((seq![(key, g)] + rest, m)),
                            }
                        } else {
                            None
                        }
                    } else {
                        None
                    },
                }
            } else {
                None
            },
        }
    } else {
        None
    }
}


/// Fold a run of digit characters onto an accumulator, most
/// significant first.
pub open spec fn spec_fold_digits(acc: int, ds: Seq<char>) -> int
    decreases ds.len(),
{
    if ds.len() == 0 {
        acc
    } else {
        spec_fold_digits(acc * 10 + spec_digit_val(ds[0]), ds.skip(1))
    }
}

/// Folding one more digit multiplies by ten and adds it.
proof fn lemma_fold_append(acc: int, ds: Seq<char>, d: char)
    ensures
        spec_fold_digits(acc, ds + seq![d]) == spec_fold_digits(acc, ds) * 10 + spec_digit_val(d),
    decreases ds.len(),
{
    if ds.len() == 0 {
        assert((ds + seq![d])[0] == d);
        assert((ds + seq![d]).skip(1) =~= Seq::<char>::empty());
        assert(spec_fold_digits(acc * 10 + spec_digit_val(d), Seq::<char>::empty()) == acc * 10
            + spec_digit_val(d));
        assert(spec_fold_digits(acc, ds) == acc);
    } else {
        assert((ds + seq![d])[0] == ds[0]);
        assert((ds + seq![d]).skip(1) =~= ds.skip(1) + seq![d]);
        lemma_fold_append(acc * 10 + spec_digit_val(ds[0]), ds.skip(1), d);
    }
}

/// The canonical rendering of a non-negative number is a non-empty
/// run of digits that folds back to the number.
proof fn lemma_enc_nat(n: int)
    requires
        n >= 0,
    ensures
        spec_enc_nat(n).len() >= 1,
        forall|k: int| 0 <= k < spec_enc_nat(n).len() ==> spec_is_digit(#[trigger] spec_enc_nat(n)[k]),
        spec_fold_digits(0, spec_enc_nat(n)) == n,
    decreases n,
{
    if n <= 9 {
        assert(spec_enc_nat(n) =~= seq![spec_digit_char(n)]);
        assert(spec_is_digit(spec_digit_char(n)));
        assert(seq![spec_digit_char(n)].skip(1) =~= Seq::<char>::empty());
        assert(spec_fold_digits(0 * 10 + spec_digit_val(spec_digit_char(n)), Seq::<char>::empty())
            == spec_digit_val(spec_digit_char(n)));
        assert(spec_fold_digits(0, seq![spec_digit_char(n)]) == spec_digit_val(spec_digit_char(n)));
    } else {
        lemma_enc_nat(n / 10);
        let pre = spec_enc_nat(n / 10);
        let d = spec_digit_char(n % 10);
        assert(spec_enc_nat(n) == pre + seq![d]);
        assert forall|k: int|
            0 <= k < spec_enc_nat(n).len() implies spec_is_digit(
            #[trigger] spec_enc_nat(n)[k],
        ) by {
            if k < pre.len() {
                assert(spec_enc_nat(n)[k] == pre[k]);
            } else {
                assert(spec_enc_nat(n)[k] == d);
                assert(spec_is_digit(d));
            }
        }
        lemma_fold_append(0, pre, d);
        assert(spec_digit_val(d) == n % 10);
    }
}

/// A run of digits followed by a non-digit parses to its folded value
/// and stops at the non-digit.
proof fn lemma_parse_digits(s: Seq<char>, i: int, j: int, acc: int)
    requires
        0 <= i <= j <= s.len(),
        forall|k: int| i <= k < j ==> spec_is_digit(#[trigger] s[k]),
        j == s.len() || !spec_is_digit(s[j]),
    ensures
        spec_parse_digits(s, i, acc) == (spec_fold_digits(acc, s.subrange(i, j)), j),
    decreases j - i,
{
    if i < j {
        lemma_parse_digits(s, i + 1, j, acc * 10 + spec_digit_val(s[i]));
        assert(s.subrange(i, j)[0] == s[i]);
        assert(s.subrange(i, j).skip(1) =~= s.subrange(i + 1, j));
    } else {
        assert(s.subrange(i, j) =~= Seq::<char>::empty());
    }
}

/// A rendered number parses back to the number, stopping right after
/// it, when the next character is not a digit.
proof fn lemma_parse_num(n: int, s: Seq<char>, i: int)
    requires
        0 <= i,
        i + spec_enc_int(n).len() <= s.len(),
        s.subrange(i, i + spec_enc_int(n).len() as int) == spec_enc_int(n),
        i + spec_enc_int(n).len() == s.len() || !spec_is_digit(s[i + spec_enc_int(n).len()]),
    ensures
        spec_parse_num(s, i) == Some((GJson::Num(n), i + spec_enc_int(n).len() as int)),
{
    let le = spec_enc_int(n).len() as int;
    assert forall|k: int| 0 <= k < le implies s[i + k] == spec_enc_int(n)[k] by {
        assert(s[i + k] == s.subrange(i, i + le)[k]);
    }
    if n >= 0 {
        lemma_enc_nat(n);
        let l = spec_enc_nat(n).len() as int;
        assert forall|k: int| i <= k < i + l implies spec_is_digit(#[trigger] s[k]) by {
            assert(s[k] == spec_enc_int(n)[k - i]);
        }
        assert(spec_is_digit(s[i]));
        assert(s[i] != '-');
        lemma_parse_digits(s, i, i + l, 0);
        assert(s.subrange(i, i + l) == spec_enc_nat(n));
    } else {
        lemma_enc_nat(-n);
        let l = spec_enc_nat(-n).len() as int;
        assert(s[i] == spec_enc_int(n)[0]);
        assert(spec_enc_int(n)[0] == '-');
        assert forall|k: int| i + 1 <= k < i + 1 + l implies spec_is_digit(#[trigger] s[k]) by {
            assert(s[k] == spec_enc_int(n)[k - i]);
            assert(spec_enc_int(n)[k - i] == spec_enc_nat(-n)[k - i - 1]);
        }
        assert(spec_is_digit(s[i + 1]));
        lemma_parse_digits(s, i + 1, i + 1 + l, 0);
        assert(s.subrange(i + 1, i + 1 + l) =~= spec_enc_nat(-n)) by {
            assert forall|k: int| 0 <= k < l implies #[trigger] s.subrange(i + 1, i + 1 + l)[k]
                == spec_enc_nat(-n)[k] by {
                assert(s.subrange(i + 1, i + 1 + l)[k] == s[i + 1 + k]);
                assert(s[i + 1 + k] == spec_enc_int(n)[1 + k]);
                assert(spec_enc_int(n)[1 + k] == spec_enc_nat(-n)[k]);
            }
        }
    }
}

/// An escaped string body followed by a closing quote parses back to
/// the original characters, stopping right after the quote.
proof fn lemma_parse_str(cs: Seq<char>, s: Seq<char>, i: int)
    requires
        0 <= i,
        i + spec_esc(cs).len() + 1 <= s.len(),
        s.subrange(i, i + spec_esc(cs).len() as int) == spec_esc(cs),
        s[i + spec_esc(cs).len()] == '"',
    ensures
        spec_parse_str(s, i) == Some((cs, i + spec_esc(cs).len() + 1)),
    decreases cs.len(),
{
    if cs.len() == 0 {
        assert(spec_esc(cs) =~= Seq::<char>::empty());
    } else {
        let c = cs[0];
        let e = spec_esc_char(c);
        let rest = cs.skip(1);
        assert(spec_esc(cs) == e + spec_esc(rest));
        let el = e.len() as int;
        let rl = spec_esc(rest).len() as int;
        assert forall|k: int| 0 <= k < el implies s[i + k] == e[k] by {
            assert(s[i + k] == s.subrange(i, i + el + rl)[k]);
            assert(spec_esc(cs)[k] == e[k]);
        }
        assert(s.subrange(i + el, i + el + rl) =~= spec_esc(rest)) by {
            assert forall|k: int| 0 <= k < rl implies s.subrange(i + el, i + el + rl)[k]
                == spec_esc(rest)[k] by {
                assert(s.subrange(i + el, i + el + rl)[k] == s[i + el + k]);
                assert(s[i + el + k] == s.subrange(i, i + el + rl)[el + k]);
                assert(spec_esc(cs)[el + k] == spec_esc(rest)[k]);
            }
        }
        lemma_parse_str(rest, s, i + el);
        assert(s[i + 0] == e[0]);
        if el >= 2 {
            assert(s[i + 1] == e[1]);
        }
        if el == 6 {
            assert(s[i + 2] == e[2]);
            assert(s[i + 3] == e[3]);
            assert(s[i + 4] == e[4]);
            assert(s[i + 5] == e[5]);
        }
        if c == '"' || c == '\\' {
            assert(s[i] == '\\' && s[i + 1] == c);
            assert(seq![c] + rest =~= cs);
        } else if c == '\n' {
            assert(s[i] == '\\' && s[i + 1] == 'n');
            assert(seq!['\n'] + rest =~= cs);
        } else if c == '\r' {
            assert(s[i] == '\\' && s[i + 1] == 'r');
            assert(seq!['\r'] + rest =~= cs);
        } else if c == '\t' {
            assert(s[i] == '\\' && s[i + 1] == 't');
            assert(seq!['\t'] + rest =~= cs);
        } else if (c as u32) < 32 {
            assert(s[i] == '\\' && s[i + 1] == 'u' && s[i + 2] == '0' && s[i + 3] == '0');
            let hi = spec_hex_digit(((c as u32) / 16) as u8);
            let lo = spec_hex_digit(((c as u32) % 16) as u8);
            assert(s[i + 4] == hi && s[i + 5] == lo);
            assert(spec_is_hex(hi) && spec_hex_val(hi) == (c as u32) / 16);
            assert(spec_is_hex(lo) && spec_hex_val(lo) == (c as u32) % 16);
            let v = spec_hex_val(hi) * 16 + spec_hex_val(lo);
            assert(v == c as u32);
            assert(0 <= v < 32);
            assert(v as u32 == c as u32);
            vstd::utf8::char_u32_cast(c, v as u32);
            assert((v as u32) as char == c);
            assert(seq![c] + rest =~= cs);
        } else {
            assert(e[0] == c);
            assert(s[i + 0] == e[0]);
            assert(s[i] == c);
            assert(c != '"' && c != '\\');
            assert(seq![c] + rest =~= cs);
        }
    }
}

/// The first character of a rendering announces the value: it is a
/// letter opening a keyword, a quote, a bracket, a brace, a minus or a
/// digit, and never a separator or closer.
proof fn lemma_enc_first(g: GJson)
    ensures
        spec_enc(g).len() >= 1,
        ({
            let c = spec_enc(g)[0];
            c == 'n' || c == 't' || c == 'f' || c == '"' || c == '[' || c == '{' || c == '-'
                || spec_is_digit(c)
        }),
{
    reveal_strlit("null");
    reveal_strlit("true");
    reveal_strlit("false");
    match g {
        GJson::Num(n) => {
            if n >= 0 {
                lemma_enc_nat(n);
                assert(spec_enc(g)[0] == spec_enc_nat(n)[0]);
            } else {
                lemma_enc_nat(-n);
                assert(spec_enc(g)[0] == '-');
            }
        },
        _ => {},
    }
}

/// Every rendering is non-empty.
proof fn lemma_enc_len(g: GJson)
    ensures
        spec_enc(g).len() >= 1,
{
    reveal_strlit("null");
    reveal_strlit("true");
    reveal_strlit("false");
    match g {
        GJson::Num(n) => {
            if n >= 0 {
                lemma_enc_nat(n);
            } else {
                lemma_enc_nat(-n);
            }
        },
        _ => {},
    }
}

/// A rendered value parses back to the value it renders, stopping
/// right after it, whenever the character that follows cannot extend a
/// number.
#[verifier::spinoff_prover]
#[verifier::rlimit(60)]
pub proof fn lemma_parse_enc(g: GJson, s: Seq<char>, i: int)
    requires
        0 <= i,
        i + spec_enc(g).len() <= s.len(),
        s.subrange(i, i + spec_enc(g).len() as int) == spec_enc(g),
        i + spec_enc(g).len() == s.len() || !spec_is_digit(s[i + spec_enc(g).len()]),
    ensures
        spec_parse(s, i) == Some((g, i + spec_enc(g).len() as int)),
    decreases g, 0int,
{
    reveal_strlit("null");
    reveal_strlit("true");
    reveal_strlit("false");
    let l = spec_enc(g).len() as int;
    assert forall|k: int| 0 <= k < l implies s[i + k] == spec_enc(g)[k] by {
        assert(s[i + k] == s.subrange(i, i + l)[k]);
    }
    assert(s[i + 0] == spec_enc(g)[0]);
    match g {
        GJson::Null => {
            assert(spec_enc(g)[0] == 'n');
            assert(s[i] == 'n');
            assert(spec_enc(g).len() == 4);
            assert(s.subrange(i, i + 4) =~= "null"@);
            assert(spec_parse(s, i) == Some((g, i + spec_enc(g).len() as int)));
        },
        GJson::Bool(b) => {
            if b {
                assert(spec_enc(g)[0] == 't');
                assert(s[i] == 't');
                assert(s.subrange(i, i + 4) =~= "true"@);
            } else {
                assert(spec_enc(g)[0] == 'f');
                assert(s[i] == 'f');
                assert(s.subrange(i, i + 5) =~= "false"@);
            }
            assert(spec_parse(s, i) == Some((g, i + spec_enc(g).len() as int)));
        },
        GJson::Num(n) => {
            if n >= 0 {
                lemma_enc_nat(n);
                assert(spec_is_digit(s[i]));
                assert(s[i] != 'n' && s[i] != 't' && s[i] != 'f' && s[i] != '"' && s[i] != '['
                    && s[i] != '{');
            } else {
                lemma_enc_nat(-n);
                assert(s[i] == '-');
            }
            lemma_parse_num(n, s, i);
            assert(spec_parse(s, i) == Some((g, i + spec_enc(g).len() as int)));
        },
        GJson::Str(cs) => {
            assert(s[i] == '"');
            let el = spec_esc(cs).len() as int;
            assert(s.subrange(i + 1, i + 1 + el) =~= spec_esc(cs)) by {
                assert forall|k: int| 0 <= k < el implies s.subrange(i + 1, i + 1 + el)[k]
                    == spec_esc(cs)[k] by {
                    assert(s.subrange(i + 1, i + 1 + el)[k] == s[i + 1 + k]);
                    assert(spec_enc(g)[1 + k] == spec_esc(cs)[k]);
                }
            }
            assert(s[i + 1 + el] == spec_enc(g)[1 + el]);
            lemma_parse_str(cs, s, i + 1);
            assert(spec_parse(s, i) == Some((g, i + spec_enc(g).len() as int)));
        },
        GJson::Arr(items) => {
            assert(s[i] == '[');
            if items.len() == 0 {
                assert(items =~= Seq::<GJson>::empty());
                assert(items == Seq::<GJson>::empty());
                assert(spec_enc_items(items) =~= Seq::<char>::empty());
                assert(s[i + 1] == spec_enc(g)[1]);
                assert(spec_enc(g)[1] == ']');
                assert(s[i + 1] == ']');
            } else {
                let il = spec_enc_items(items).len() as int;
                assert(s.subrange(i + 1, i + 1 + il) =~= spec_enc_items(items)) by {
                    assert forall|k: int| 0 <= k < il implies s.subrange(i + 1, i + 1 + il)[k]
                        == spec_enc_items(items)[k] by {
                        assert(s.subrange(i + 1, i + 1 + il)[k] == s[i + 1 + k]);
                        assert(spec_enc(g)[1 + k] == spec_enc_items(items)[k]);
                    }
                }
                assert(s[i + 1 + il] == spec_enc(g)[1 + il]);
                assert(spec_enc(g)[1 + il] == ']');
                assert(s[i + 1 + il] == ']');
                lemma_enc_first(items[0]);
                assert(spec_enc_items(items)[0] == spec_enc(items[0])[0]);
                assert(s[i + 1] == spec_enc(g)[1]);
                assert(spec_enc(g)[1] == spec_enc_items(items)[0]);
                assert(s[i + 1] != ']');
                lemma_parse_items_enc(items, s, i + 1);
            }
            assert(spec_parse(s, i) == Some((g, i + spec_enc(g).len() as int)));
        },
        GJson::Obj(fields) => {
            assert(s[i] == '{');
            if fields.len() == 0 {
                assert(fields =~= Seq::<(Seq<char>, GJson)>::empty());
                assert(fields == Seq::<(Seq<char>, GJson)>::empty());
                assert(spec_enc_fields(fields) =~= Seq::<char>::empty());
                assert(s[i + 1] == spec_enc(g)[1]);
                assert(spec_enc(g)[1] == '}');
                assert(s[i + 1] == '}');
            } else {
                let fl = spec_enc_fields(fields).len() as int;
                assert(s.subrange(i + 1, i + 1 + fl) =~= spec_enc_fields(fields)) by {
                    assert forall|k: int| 0 <= k < fl implies s.subrange(i + 1, i + 1 + fl)[k]
                        == spec_enc_fields(fields)[k] by {
                        assert(s.subrange(i + 1, i + 1 + fl)[k] == s[i + 1 + k]);
                        assert(spec_enc(g)[1 + k] == spec_enc_fields(fields)[k]);
                    }
                }
                assert(s[i + 1 + fl] == spec_enc(g)[1 + fl]);
                assert(spec_enc(g)[1 + fl] == '}');
                assert(s[i + 1 + fl] == '}');
                assert(spec_enc_fields(fields)[0] == '"');
                assert(s[i + 1] != '}');
                lemma_parse_fields_enc(fields, s, i + 1);
            }
            assert(spec_parse(s, i) == Some((g, i + spec_enc(g).len() as int)));
        },
    }
}

/// Rendered array items followed by the closing bracket parse back to
/// the items.
proof fn lemma_parse_items_enc(items: Seq<GJson>, s: Seq<char>, i: int)
    requires
        items.len() >= 1,
        0 <= i,
        i + spec_enc_items(items).len() + 1 <= s.len(),
        s.subrange(i, i + spec_enc_items(items).len() as int) == spec_enc_items(items),
        s[i + spec_enc_items(items).len()] == ']',
    ensures
        spec_parse_items(s, i) == Some((items, i + spec_enc_items(items).len() + 1)),
    decreases items, 1int,
{
    let l = spec_enc_items(items).len() as int;
    assert forall|k: int| 0 <= k < l implies s[i + k] == spec_enc_items(items)[k] by {
        assert(s[i + k] == s.subrange(i, i + l)[k]);
    }
    let e0 = spec_enc(items[0]);
    let el = e0.len() as int;
    if items.len() == 1 {
        assert(spec_enc_items(items) == e0);
        assert(s.subrange(i, i + el) =~= e0);
        lemma_parse_enc(items[0], s, i);
        assert(seq![items[0]] =~= items);
    } else {
        let rest = items.skip(1);
        assert(spec_enc_items(items) == e0 + seq![','] + spec_enc_items(rest));
        let rl = spec_enc_items(rest).len() as int;
        assert(s.subrange(i, i + el) =~= e0) by {
            assert forall|k: int| 0 <= k < el implies s.subrange(i, i + el)[k] == e0[k] by {
                assert(s.subrange(i, i + el)[k] == s[i + k]);
                assert(spec_enc_items(items)[k] == e0[k]);
            }
        }
        assert(s[i + el] == spec_enc_items(items)[el]);
        assert(spec_enc_items(items)[el] == ',');
        assert(s[i + el] == ',');
        lemma_parse_enc(items[0], s, i);
        assert(s.subrange(i + el + 1, i + el + 1 + rl) =~= spec_enc_items(rest)) by {
            assert forall|k: int| 0 <= k < rl implies s.subrange(i + el + 1, i + el + 1 + rl)[k]
                == spec_enc_items(rest)[k] by {
                assert(s.subrange(i + el + 1, i + el + 1 + rl)[k] == s[i + el + 1 + k]);
                assert(spec_enc_items(items)[el + 1 + k] == spec_enc_items(rest)[k]);
            }
        }
        assert(s[i + el + 1 + rl] == ']');
        lemma_enc_first(rest[0]);
        assert(spec_enc_items(rest)[0] == spec_enc(rest[0])[0]);
        lemma_parse_items_enc(rest, s, i + el + 1);
        assert(seq![items[0]] + rest =~= items);
    }
}

/// Rendered object fields followed by the closing brace parse back to
/// the fields.
proof fn lemma_parse_fields_enc(fields: Seq<(Seq<char>, GJson)>, s: Seq<char>, i: int)
    requires
        fields.len() >= 1,
        0 <= i,
        i + spec_enc_fields(fields).len() + 1 <= s.len(),
        s.subrange(i, i + spec_enc_fields(fields).len() as int) == spec_enc_fields(fields),
        s[i + spec_enc_fields(fields).len()] == '}',
    ensures
        spec_parse_fields(s, i) == Some((fields, i + spec_enc_fields(fields).len() + 1)),
    decreases fields, 1int,
{
    let l = spec_enc_fields(fields).len() as int;
    assert forall|k: int| 0 <= k < l implies s[i + k] == spec_enc_fields(fields)[k] by {
        assert(s[i + k] == s.subrange(i, i + l)[k]);
    }
    let key = fields[0].0;
    let g0 = fields[0].1;
    let kl = spec_esc(key).len() as int;
    let e0 = spec_enc(g0);
    let el = e0.len() as int;
    let head = seq!['"'] + spec_esc(key) + seq!['"', ':'] + e0;
    let hl = head.len() as int;
    assert(s[i + 0] == spec_enc_fields(fields)[0]);
    assert(spec_enc_fields(fields)[0] == '"');
    assert(s[i] == '"');
    assert(s.subrange(i + 1, i + 1 + kl) =~= spec_esc(key)) by {
        assert forall|k: int| 0 <= k < kl implies s.subrange(i + 1, i + 1 + kl)[k] == spec_esc(
            key,
        )[k] by {
            assert(s.subrange(i + 1, i + 1 + kl)[k] == s[i + 1 + k]);
            assert(spec_enc_fields(fields)[1 + k] == spec_esc(key)[k]);
        }
    }
    assert(s[i + 1 + kl] == spec_enc_fields(fields)[1 + kl]);
    assert(spec_enc_fields(fields)[1 + kl] == '"');
    assert(s[i + 1 + kl] == '"');
    lemma_parse_str(key, s, i + 1);
    assert(s[i + 2 + kl] == spec_enc_fields(fields)[2 + kl]);
    assert(spec_enc_fields(fields)[2 + kl] == ':');
    assert(s[i + 2 + kl] == ':');
    assert(s.subrange(i + 3 + kl, i + 3 + kl + el) =~= e0) by {
        assert forall|k: int| 0 <= k < el implies s.subrange(i + 3 + kl, i + 3 + kl + el)[k]
            == e0[k] by {
            assert(s.subrange(i + 3 + kl, i + 3 + kl + el)[k] == s[i + 3 + kl + k]);
            assert(spec_enc_fields(fields)[3 + kl + k] == e0[k]);
        }
    }
    if fields.len() == 1 {
        assert(spec_enc_fields(fields) =~= head);
        assert(s[i + hl] == '}');
        lemma_parse_enc(g0, s, i + 3 + kl);
        assert(seq![(key, g0)] =~= fields);
    } else {
        let rest = fields.skip(1);
        assert(spec_enc_fields(fields) =~= head + seq![','] + spec_enc_fields(rest));
        let rl = spec_enc_fields(rest).len() as int;
        assert(s[i + hl] == spec_enc_fields(fields)[hl]);
        assert(spec_enc_fields(fields)[hl] == ',');
        assert(s[i + hl] == ',');
        lemma_parse_enc(g0, s, i + 3 + kl);
        assert(s.subrange(i + hl + 1, i + hl + 1 + rl) =~= spec_enc_fields(rest)) by {
            assert forall|k: int| 0 <= k < rl implies s.subrange(i + hl + 1, i + hl + 1 + rl)[k]
                == spec_enc_fields(rest)[k] by {
                assert(s.subrange(i + hl + 1, i + hl + 1 + rl)[k] == s[i + hl + 1 + k]);
                assert(spec_enc_fields(fields)[hl + 1 + k] == spec_enc_fields(rest)[k]);
            }
        }
        assert(s[i + hl + 1 + rl] == '}');
        assert(spec_enc_fields(rest)[0] == '"');
        lemma_parse_fields_enc(rest, s, i + hl + 1);
        assert(seq![(key, g0)] + rest =~= fields);
    }
}

/// The round trip: parsing a rendered value, and nothing more, yields
/// the value back.
pub proof fn lemma_round_trip(g: GJson)
    ensures
        spec_parse(spec_enc(g), 0) == Some((g, spec_enc(g).len() as int)),
{
    assert(spec_enc(g).subrange(0, spec_enc(g).len() as int) =~= spec_enc(g));
    lemma_parse_enc(g, spec_enc(g), 0);
}


/// The lengths of the shapes of array items.
pub proof fn lemma_jview_items_len(items: Seq<Json>, i: int)
    requires
        0 <= i <= items.len(),
    ensures
        jview_items(items, i).len() == items.len() - i,
        forall|k: int|
            0 <= k < items.len() - i ==> #[trigger] jview_items(items, i)[k] == jview(
                items[i + k],
            ),
    decreases items.len() - i,
{
    if i < items.len() {
        lemma_jview_items_len(items, i + 1);
        assert forall|k: int|
            0 <= k < items.len() - i implies #[trigger] jview_items(items, i)[k] == jview(
            items[i + k],
        ) by {
            if k > 0 {
                assert(jview_items(items, i)[k] == jview_items(items, i + 1)[k - 1]);
            }
        }
    }
}

/// The lengths of the shapes of object fields.
pub proof fn lemma_jview_fields_len(fields: Seq<(String, Json)>, i: int)
    requires
        0 <= i <= fields.len(),
    ensures
        jview_fields(fields, i).len() == fields.len() - i,
        forall|k: int|
            0 <= k < fields.len() - i ==> #[trigger] jview_fields(fields, i)[k] == (
                fields[i + k].0@,
                jview(fields[i + k].1),
            ),
    decreases fields.len() - i,
{
    if i < fields.len() {
        lemma_jview_fields_len(fields, i + 1);
        assert forall|k: int|
            0 <= k < fields.len() - i implies #[trigger] jview_fields(fields, i)[k] == (
            fields[i + k].0@,
            jview(fields[i + k].1),
        ) by {
            if k > 0 {
                assert(jview_fields(fields, i)[k] == jview_fields(fields, i + 1)[k - 1]);
            }
        }
    }
}

/// Append the canonical rendering of a non-negative number.
pub(crate) fn enc_u128(n: u128, out: &mut Vec<char>)
    ensures
        final(out)@ == old(out)@ + spec_enc_nat(n as int),
    decreases n,
{
    if n <= 9 {
        out.push(crate::text::hex_digit((n % 16) as u8));
        proof {
            assert(spec_digit_char(n as int) == spec_hex_digit((n % 16) as u8));
            assert(spec_enc_nat(n as int) =~= seq![spec_digit_char(n as int)]);
            assert(out@ =~= old(out)@ + spec_enc_nat(n as int));
        }
    } else {
        enc_u128(n / 10, out);
        let ghost mid = out@;
        out.push(crate::text::hex_digit((n % 10) as u8));
        proof {
            assert(spec_digit_char((n as int) % 10) == spec_hex_digit((n % 10) as u8));
            assert(out@ =~= old(out)@ + (spec_enc_nat((n as int) / 10) + seq![
                spec_digit_char((n as int) % 10),
            ]));
            assert(spec_enc_nat(n as int) == spec_enc_nat((n as int) / 10) + seq![
                spec_digit_char((n as int) % 10),
            ]);
        }
    }
}

/// Append the canonical rendering of a number.
fn enc_i128(n: i128, out: &mut Vec<char>)
    ensures
        final(out)@ == old(out)@ + spec_enc_int(n as int),
{
    if n < 0 {
        out.push('-');
        let mag: u128 = if n == i128::MIN {
            (i128::MAX as u128) + 1
        } else {
            (-n) as u128
        };
        proof {
            assert(mag as int == -(n as int));
        }
        enc_u128(mag, out);
        proof {
            assert(out@ =~= old(out)@ + (seq!['-'] + spec_enc_nat(-(n as int))));
        }
    } else {
        enc_u128(n as u128, out);
    }
}

/// Append the escaped form of one character.
fn enc_char(c: char, out: &mut Vec<char>)
    ensures
        final(out)@ == old(out)@ + spec_esc_char(c),
{
    if c == '"' {
        out.push('\\');
        out.push('"');
    } else if c == '\\' {
        out.push('\\');
        out.push('\\');
    } else if c == '\n' {
        out.push('\\');
        out.push('n');
    } else if c == '\r' {
        out.push('\\');
        out.push('r');
    } else if c == '\t' {
        out.push('\\');
        out.push('t');
    } else if (c as u32) < 32 {
        out.push('\\');
        out.push('u');
        out.push('0');
        out.push('0');
        out.push(crate::text::hex_digit(((c as u32) / 16) as u8));
        out.push(crate::text::hex_digit(((c as u32) % 16) as u8));
    } else {
        out.push(c);
    }
    proof {
        assert(out@ =~= old(out)@ + spec_esc_char(c));
    }
}

/// Append a quoted, escaped string.
fn enc_str(s: &str, out: &mut Vec<char>)
    ensures
        final(out)@ == old(out)@ + seq!['"'] + spec_esc(s@) + seq!['"'],
{
    out.push('"');
    let cs = chars_of(s);
    let mut i: usize = 0;
    while i < cs.len()
        invariant
            i <= cs@.len(),
            cs@ == s@,
            out@ == old(out)@ + seq!['"'] + spec_esc(s@.subrange(0, i as int)),
        decreases cs@.len() - i,
    {
        enc_char(cs[i], out);
        proof {
            lemma_esc_snoc(s@, i as int);
        }
        i = i + 1;
    }
    let ghost done = out@;
    out.push('"');
    proof {
        assert(s@.subrange(0, s@.len() as int) =~= s@);
        assert(out@ =~= old(out)@ + seq!['"'] + spec_esc(s@) + seq!['"']);
    }
}

/// Escaping one more character appends its escape.
proof fn lemma_esc_snoc(s: Seq<char>, i: int)
    requires
        0 <= i < s.len(),
    ensures
        spec_esc(s.subrange(0, i + 1)) == spec_esc(s.subrange(0, i)) + spec_esc_char(s[i]),
    decreases i,
{
    if i == 0 {
        assert(s.subrange(0, 1)[0] == s[0]);
        assert(s.subrange(0, 1).skip(1) =~= Seq::<char>::empty());
        assert(spec_esc(Seq::<char>::empty()) == Seq::<char>::empty());
        assert(spec_esc(s.subrange(0, 0)) =~= Seq::<char>::empty());
        assert(spec_esc(s.subrange(0, 1)) == spec_esc_char(s[0]) + spec_esc(
            s.subrange(0, 1).skip(1),
        ));
        assert(spec_esc(s.subrange(0, 1)) =~= spec_esc_char(s[0]));
        assert(spec_esc(s.subrange(0, 0)) + spec_esc_char(s[0]) =~= spec_esc_char(s[0]));
    } else {
        let t = s.skip(1);
        assert(s.subrange(0, i + 1)[0] == s[0]);
        assert(s.subrange(0, i + 1).skip(1) =~= t.subrange(0, i));
        assert(s.subrange(0, i).skip(1) =~= t.subrange(0, i - 1));
        assert(s.subrange(0, i)[0] == s[0]);
        lemma_esc_snoc(t, i - 1);
        assert(t[i - 1] == s[i]);
        assert(spec_esc(s.subrange(0, i + 1)) == spec_esc_char(s[0]) + spec_esc(t.subrange(0, i)));
        assert(spec_esc(s.subrange(0, i)) == spec_esc_char(s[0]) + spec_esc(t.subrange(0, i - 1)));
        assert(spec_esc_char(s[0]) + (spec_esc(t.subrange(0, i - 1)) + spec_esc_char(s[i])) =~= (
        spec_esc_char(s[0]) + spec_esc(t.subrange(0, i - 1))) + spec_esc_char(s[i]));
    }
}

/// Append the canonical rendering of a value.
#[verifier::loop_isolation(false)]
#[verifier::rlimit(100)]
#[verifier::spinoff_prover]
pub fn enc_json(v: &Json, out: &mut Vec<char>)
    ensures
        final(out)@ == old(out)@ + spec_enc(jview(*v)),
    decreases *v,
{
    match v {
        Json::Null => {
            out.push('n');
            out.push('u');
            out.push('l');
            out.push('l');
            proof {
                reveal_strlit("null");
                assert(out@ =~= old(out)@ + "null"@);
            }
        },
        Json::Bool(b) => {
            if *b {
                out.push('t');
                out.push('r');
                out.push('u');
                out.push('e');
                proof {
                    reveal_strlit("true");
                    assert(out@ =~= old(out)@ + "true"@);
                }
            } else {
                out.push('f');
                out.push('a');
                out.push('l');
                out.push('s');
                out.push('e');
                proof {
                    reveal_strlit("false");
                    assert(out@ =~= old(out)@ + "false"@);
                }
            }
        },
        Json::Num(n) => {
            enc_i128(*n, out);
        },
        Json::Str(s) => {
            enc_str(s.as_str(), out);
            proof {
                assert(out@ =~= old(out)@ + spec_enc(jview(*v)));
            }
        },
        Json::Arr(items) => {
            out.push('[');
            let n = items.len();
            proof {
                lemma_jview_items_len(items@, 0);
            }
            let mut i: usize = 0;
            while i < n
                invariant
                    i <= n,
                    n == items@.len(),
                    jview_items(items@, 0).len() == n,
                    forall|k: int|
                        0 <= k < n ==> #[trigger] jview_items(items@, 0)[k] == jview(items@[k]),
                    out@ == old(out)@ + seq!['['] + (if i == 0 {
                        Seq::<char>::empty()
                    } else {
                        spec_enc_items(jview_items(items@, 0).subrange(0, i as int)) + (if i < n {
                            seq![',']
                        } else {
                            Seq::<char>::empty()
                        })
                    }),
                decreases n - i,
            {
                proof {
                    vstd::std_specs::vec::axiom_vec_index_decreases(*items, i as int);
                }
                enc_json(&items[i], out);
                proof {
                    lemma_enc_items_snoc(jview_items(items@, 0), i as int);
                }
                if i + 1 < n {
                    out.push(',');
                }
                proof {
                    assert(out@ =~= old(out)@ + seq!['['] + (spec_enc_items(
                        jview_items(items@, 0).subrange(0, i + 1 as int),
                    ) + (if i + 1 < n {
                        seq![',']
                    } else {
                        Seq::<char>::empty()
                    })));
                }
                i = i + 1;
            }
            out.push(']');
            proof {
                assert(jview_items(items@, 0).subrange(0, n as int) =~= jview_items(items@, 0));
                if n == 0 {
                    assert(spec_enc_items(jview_items(items@, 0)) =~= Seq::<char>::empty());
                }
                assert(out@ =~= old(out)@ + (seq!['['] + spec_enc_items(jview_items(items@, 0))
                    + seq![']']));
            }
        },
        Json::Obj(fields) => {
            out.push('{');
            let n = fields.len();
            proof {
                lemma_jview_fields_len(fields@, 0);
            }
            let mut i: usize = 0;
            while i < n
                invariant
                    i <= n,
                    n == fields@.len(),
                    jview_fields(fields@, 0).len() == n,
                    forall|k: int|
                        0 <= k < n ==> #[trigger] jview_fields(fields@, 0)[k] == (
                            fields@[k].0@,
                            jview(fields@[k].1),
                        ),
                    out@ == old(out)@ + seq!['{'] + (if i == 0 {
                        Seq::<char>::empty()
                    } else {
                        spec_enc_fields(jview_fields(fields@, 0).subrange(0, i as int)) + (if i
                            < n {
                            seq![',']
                        } else {
                            Seq::<char>::empty()
                        })
                    }),
                decreases n - i,
            {
                enc_str(fields[i].0.as_str(), out);
                out.push(':');
                proof {
                    vstd::std_specs::vec::axiom_vec_index_decreases(*fields, i as int);
                }
                enc_json(&fields[i].1, out);
                proof {
                    lemma_enc_fields_snoc(jview_fields(fields@, 0), i as int);
                }
                if i + 1 < n {
                    out.push(',');
                }
                proof {
                    assert(out@ =~= old(out)@ + seq!['{'] + (spec_enc_fields(
                        jview_fields(fields@, 0).subrange(0, i + 1 as int),
                    ) + (if i + 1 < n {
                        seq![',']
                    } else {
                        Seq::<char>::empty()
                    })));
                }
                i = i + 1;
            }
            out.push('}');
            proof {
                assert(jview_fields(fields@, 0).subrange(0, n as int) =~= jview_fields(fields@, 0));
                if n == 0 {
                    assert(spec_enc_fields(jview_fields(fields@, 0)) =~= Seq::<char>::empty());
                }
                assert(out@ =~= old(out)@ + (seq!['{'] + spec_enc_fields(jview_fields(fields@, 0))
                    + seq!['}']));
            }
        },
    }
}

/// Rendering one more item appends a comma and its rendering.
proof fn lemma_enc_items_snoc(items: Seq<GJson>, i: int)
    requires
        0 <= i < items.len(),
    ensures
        spec_enc_items(items.subrange(0, i + 1)) == (if i == 0 {
            Seq::<char>::empty()
        } else {
            spec_enc_items(items.subrange(0, i)) + seq![',']
        }) + spec_enc(items[i]),
    decreases i,
{
    if i == 0 {
        assert(items.subrange(0, 1) =~= seq![items[0]]);
        assert(spec_enc_items(seq![items[0]]) == spec_enc(items[0]));
        assert(Seq::<char>::empty() + spec_enc(items[0]) =~= spec_enc(items[0]));
    } else {
        let t = items.skip(1);
        assert(items.subrange(0, i + 1)[0] == items[0]);
        assert(items.subrange(0, i + 1).skip(1) =~= t.subrange(0, i));
        assert(items.subrange(0, i)[0] == items[0]);
        assert(items.subrange(0, i).skip(1) =~= t.subrange(0, i - 1));
        lemma_enc_items_snoc(t, i - 1);
        assert(t[i - 1] == items[i]);
        assert(items.subrange(0, i + 1).len() > 1);
        assert(spec_enc_items(items.subrange(0, i + 1)) == spec_enc(items[0]) + seq![',']
            + spec_enc_items(t.subrange(0, i)));
        if i == 1 {
            assert(items.subrange(0, i).len() == 1);
            assert(spec_enc_items(items.subrange(0, i)) == spec_enc(items[0]));
            assert(spec_enc_items(t.subrange(0, 1)) == spec_enc(t[0]));
            assert(spec_enc(items[0]) + seq![','] + (Seq::<char>::empty() + spec_enc(t[0])) =~= (
            spec_enc(items[0]) + seq![',']) + spec_enc(items[1]));
        } else {
            assert(spec_enc_items(items.subrange(0, i)) == spec_enc(items[0]) + seq![',']
                + spec_enc_items(t.subrange(0, i - 1)));
            assert(spec_enc(items[0]) + seq![','] + ((spec_enc_items(t.subrange(0, i - 1)) + seq![
                ',',
            ]) + spec_enc(t[i - 1])) =~= ((spec_enc(items[0]) + seq![','] + spec_enc_items(
                t.subrange(0, i - 1),
            )) + seq![',']) + spec_enc(items[i]));
        }
    }
}

/// Rendering one more field appends a comma and its rendering.
proof fn lemma_enc_fields_snoc(fields: Seq<(Seq<char>, GJson)>, i: int)
    requires
        0 <= i < fields.len(),
    ensures
        spec_enc_fields(fields.subrange(0, i + 1)) == (if i == 0 {
            Seq::<char>::empty()
        } else {
            spec_enc_fields(fields.subrange(0, i)) + seq![',']
        }) + (seq!['"'] + spec_esc(fields[i].0) + seq!['"', ':'] + spec_enc(fields[i].1)),
    decreases i,
{
    let head0 = seq!['"'] + spec_esc(fields[0].0) + seq!['"', ':'] + spec_enc(fields[0].1);
    if i == 0 {
        assert(fields.subrange(0, 1) =~= seq![fields[0]]);
        assert(seq![fields[0]].len() == 1);
        assert(spec_enc_fields(seq![fields[0]]) =~= head0);
        assert(Seq::<char>::empty() + head0 =~= head0);
    } else {
        let t = fields.skip(1);
        assert(fields.subrange(0, i + 1)[0] == fields[0]);
        assert(fields.subrange(0, i + 1).skip(1) =~= t.subrange(0, i));
        assert(fields.subrange(0, i)[0] == fields[0]);
        assert(fields.subrange(0, i).skip(1) =~= t.subrange(0, i - 1));
        lemma_enc_fields_snoc(t, i - 1);
        assert(t[i - 1] == fields[i]);
        let headi = seq!['"'] + spec_esc(fields[i].0) + seq!['"', ':'] + spec_enc(fields[i].1);
        assert(spec_enc_fields(fields.subrange(0, i + 1)) == head0 + (seq![','] + spec_enc_fields(
            t.subrange(0, i),
        )));
        if i == 1 {
            assert(spec_enc_fields(fields.subrange(0, 1)) =~= head0);
            assert(spec_enc_fields(t.subrange(0, 1)) =~= seq!['"'] + spec_esc(t[0].0) + seq![
                '"',
                ':',
            ] + spec_enc(t[0].1));
            assert(head0 + (seq![','] + (Seq::<char>::empty() + headi)) =~= (head0 + seq![','])
                + headi);
        } else {
            assert(spec_enc_fields(fields.subrange(0, i)) == head0 + (seq![','] + spec_enc_fields(
                t.subrange(0, i - 1),
            )));
            assert(head0 + (seq![','] + ((spec_enc_fields(t.subrange(0, i - 1)) + seq![','])
                + headi)) =~= ((head0 + (seq![','] + spec_enc_fields(t.subrange(0, i - 1)))) + seq![
                ',',
            ]) + headi);
        }
    }
}

/// Render a value to a string.
pub fn render_json(v: &Json) -> (r: String)
    ensures
        r@ == spec_enc(jview(*v)),
{
    let mut out: Vec<char> = Vec::new();
    enc_json(v, &mut out);
    proof {
        assert(Seq::<char>::empty() + spec_enc(jview(*v)) =~= spec_enc(jview(*v)));
    }
    crate::text::string_of(&out)
}


/// Appending an item extends the shapes by its shape.
proof fn lemma_jview_items_snoc(items: Seq<Json>, x: Json)
    ensures
        jview_items(items.push(x), 0) == jview_items(items, 0).push(jview(x)),
{
    lemma_jview_items_len(items, 0);
    lemma_jview_items_len(items.push(x), 0);
    assert forall|k: int|
        0 <= k < items.len() + 1 implies #[trigger] jview_items(items.push(x), 0)[k]
        == jview_items(items, 0).push(jview(x))[k] by {
        if k < items.len() {
            assert(items.push(x)[k] == items[k]);
        } else {
            assert(items.push(x)[k] == x);
        }
    }
    assert(jview_items(items.push(x), 0) =~= jview_items(items, 0).push(jview(x)));
}

/// Appending a field extends the shapes by its shape.
proof fn lemma_jview_fields_snoc(fields: Seq<(String, Json)>, k: String, x: Json)
    ensures
        jview_fields(fields.push((k, x)), 0) == jview_fields(fields, 0).push((k@, jview(x))),
{
    lemma_jview_fields_len(fields, 0);
    lemma_jview_fields_len(fields.push((k, x)), 0);
    assert forall|m: int|
        0 <= m < fields.len() + 1 implies #[trigger] jview_fields(fields.push((k, x)), 0)[m]
        == jview_fields(fields, 0).push((k@, jview(x)))[m] by {
        if m < fields.len() {
            assert(fields.push((k, x))[m] == fields[m]);
        } else {
            assert(fields.push((k, x))[m] == (k, x));
        }
    }
    assert(jview_fields(fields.push((k, x)), 0) =~= jview_fields(fields, 0).push((k@, jview(x))));
}

/// Parse the body of a string after its opening quote.  Whatever is
/// returned is what the reference parser yields there.
fn parse_string_body(s: &Vec<char>, pos: usize) -> (r: Option<(String, usize)>)
    ensures
        r matches Some((cs, j)) ==> (spec_parse_str(s@, pos as int) matches Some((g, jj)) && cs@
            == g && j == jj && pos < j <= s@.len()),
{
    if pos > s.len() {
        return None;
    }
    let mut acc: Vec<char> = Vec::new();
    let mut cur: usize = pos;
    loop
        invariant
            pos <= cur <= s@.len(),
            match spec_parse_str(s@, cur as int) {
                Some((rest, j)) => spec_parse_str(s@, pos as int) == Some((acc@ + rest, j)),
                None => spec_parse_str(s@, pos as int) is None,
            },
        ensures
            match spec_parse_str(s@, cur as int) {
                Some((rest, j)) => spec_parse_str(s@, pos as int) == Some((acc@ + rest, j)),
                None => spec_parse_str(s@, pos as int) is None,
            },
            pos <= cur < s@.len(),
            s@[cur as int] == '"',
        decreases s@.len() - cur,
    {
        if cur >= s.len() {
            return None;
        }
        let c = s[cur];
        if c == '"' {
            break ;
        }
        if c == '\\' {
            if s.len() - cur < 2 {
                return None;
            }
            let e = s[cur + 1];
            let ghost pre = acc@;
            if e == '"' || e == '\\' {
                acc.push(e);
                proof {
                    if let Some((rest, j)) = spec_parse_str(s@, cur + 2 as int) {
                        assert(spec_parse_str(s@, cur as int) == Some((seq![e] + rest, j)));
                        assert(pre + (seq![e] + rest) =~= acc@ + rest);
                    }
                }
                cur = cur + 2;
            } else if e == 'n' {
                acc.push('\n');
                proof {
                    if let Some((rest, j)) = spec_parse_str(s@, cur + 2 as int) {
                        assert(spec_parse_str(s@, cur as int) == Some((seq!['\n'] + rest, j)));
                        assert(pre + (seq!['\n'] + rest) =~= acc@ + rest);
                    }
                }
                cur = cur + 2;
            } else if e == 'r' {
                acc.push('\r');
                proof {
                    if let Some((rest, j)) = spec_parse_str(s@, cur + 2 as int) {
                        assert(spec_parse_str(s@, cur as int) == Some((seq!['\r'] + rest, j)));
                        assert(pre + (seq!['\r'] + rest) =~= acc@ + rest);
                    }
                }
                cur = cur + 2;
            } else if e == 't' {
                acc.push('\t');
                proof {
                    if let Some((rest, j)) = spec_parse_str(s@, cur + 2 as int) {
                        assert(spec_parse_str(s@, cur as int) == Some((seq!['\t'] + rest, j)));
                        assert(pre + (seq!['\t'] + rest) =~= acc@ + rest);
                    }
                }
                cur = cur + 2;
            } else if e == 'u' {
                if s.len() - cur < 6 {
                    return None;
                }
                if !(s[cur + 2] == '0' && s[cur + 3] == '0') {
                    return None;
                }
                let h1 = s[cur + 4];
                let h2 = s[cur + 5];
                let hex_ok = ('0' <= h1 && h1 <= '9') || ('a' <= h1 && h1 <= 'f');
                let hex_ok = hex_ok && (('0' <= h2 && h2 <= '9') || ('a' <= h2 && h2 <= 'f'));
                if !hex_ok {
                    return None;
                }
                let v1: u32 = if '0' <= h1 && h1 <= '9' {
                    (h1 as u32) - 48
                } else {
                    (h1 as u32) - 87
                };
                let v2: u32 = if '0' <= h2 && h2 <= '9' {
                    (h2 as u32) - 48
                } else {
                    (h2 as u32) - 87
                };
                let v = v1 * 16 + v2;
                if v >= 32 {
                    return None;
                }
                let decoded = (v as u8) as char;
                acc.push(decoded);
                proof {
                    assert(v1 == spec_hex_val(h1));
                    assert(v2 == spec_hex_val(h2));
                    assert(decoded == (v as u32) as char);
                    if let Some((rest, j)) = spec_parse_str(s@, cur + 6 as int) {
                        assert(spec_parse_str(s@, cur as int) == Some((seq![(v as u32) as char]
                            + rest, j)));
                        assert(pre + (seq![decoded] + rest) =~= acc@ + rest);
                    }
                }
                cur = cur + 6;
            } else {
                return None;
            }
        } else {
            let ghost pre = acc@;
            acc.push(c);
            proof {
                if let Some((rest, j)) = spec_parse_str(s@, cur + 1 as int) {
                    assert(spec_parse_str(s@, cur as int) == Some((seq![c] + rest, j)));
                    assert(pre + (seq![c] + rest) =~= acc@ + rest);
                }
            }
            cur = cur + 1;
        }
    }
    proof {
        assert(spec_parse_str(s@, cur as int) == Some((Seq::<char>::empty(), cur + 1)));
        assert(acc@ + Seq::<char>::empty() =~= acc@);
    }
    Some((crate::text::string_of(&acc), cur + 1))
}

/// Parse a number.  Whatever is returned is what the reference parser
/// yields there; a number too large for the in-memory type is given
/// up on.
#[verifier::loop_isolation(false)]
fn parse_number(s: &Vec<char>, pos: usize) -> (r: Option<(Json, usize)>)
    ensures
        r matches Some((v, j)) ==> (spec_parse_num(s@, pos as int) matches Some((g, jj)) && jview(
            v,
        ) == g && j == jj && pos < j <= s@.len()),
{
    let mut cur: usize = pos;
    let negative = if cur < s.len() && s[cur] == '-' {
        cur = cur + 1;
        true
    } else {
        false
    };
    if cur >= s.len() || !crate::text::is_digit(s[cur]) {
        return None;
    }
    let start = cur;
    let mut acc: u128 = 0;
    while cur < s.len() && crate::text::is_digit(s[cur])
        invariant
            start <= cur <= s@.len(),
            spec_parse_digits(s@, start as int, 0) == spec_parse_digits(
                s@,
                cur as int,
                acc as int,
            ),
        decreases s@.len() - cur,
    {
        let d = (s[cur] as u32) - 48;
        if acc > (u128::MAX - 9) / 10 {
            return None;
        }
        proof {
            assert(spec_digit_val(s@[cur as int]) == d as int);
        }
        acc = acc * 10 + (d as u128);
        cur = cur + 1;
    }
    proof {
        assert(spec_parse_digits(s@, cur as int, acc as int) == (acc as int, cur as int));
    }
    if negative {
        if acc > 0x8000_0000_0000_0000_0000_0000_0000_0000u128 {
            return None;
        }
        let n: i128 = if acc == 0x8000_0000_0000_0000_0000_0000_0000_0000u128 {
            i128::MIN
        } else {
            -(acc as i128)
        };
        proof {
            assert(n as int == -(acc as int));
            assert(s@[pos as int] == '-');
        }
        Some((Json::Num(n), cur))
    } else {
        if acc > 0x7fff_ffff_ffff_ffff_ffff_ffff_ffff_ffffu128 {
            return None;
        }
        proof {
            assert(s@[pos as int] != '-');
        }
        Some((Json::Num(acc as i128), cur))
    }
}

/// Parse one value.  Whatever is returned is what the reference parser
/// yields there.
#[verifier::loop_isolation(false)]
pub fn parse_json(s: &Vec<char>, pos: usize) -> (r: Option<(Json, usize)>)
    ensures
        r matches Some((v, j)) ==> (spec_parse(s@, pos as int) matches Some((g, jj)) && jview(v)
            == g && j == jj && pos < j <= s@.len()),
    decreases s@.len() - pos, 0int,
{
    if pos >= s.len() {
        return None;
    }
    let c = s[pos];
    if c == 'n' {
        if s.len() - pos >= 4 && s[pos + 1] == 'u' && s[pos + 2] == 'l' && s[pos + 3] == 'l' {
            proof {
                reveal_strlit("null");
                assert(s@.subrange(pos as int, pos + 4) =~= "null"@);
            }
            Some((Json::Null, pos + 4))
        } else {
            None
        }
    } else if c == 't' {
        if s.len() - pos >= 4 && s[pos + 1] == 'r' && s[pos + 2] == 'u' && s[pos + 3] == 'e' {
            proof {
                reveal_strlit("true");
                assert(s@.subrange(pos as int, pos + 4) =~= "true"@);
            }
            Some((Json::Bool(true), pos + 4))
        } else {
            None
        }
    } else if c == 'f' {
        if s.len() - pos >= 5 && s[pos + 1] == 'a' && s[pos + 2] == 'l' && s[pos + 3] == 's' && s[pos
            + 4] == 'e' {
            proof {
                reveal_strlit("false");
                assert(s@.subrange(pos as int, pos + 5) =~= "false"@);
            }
            Some((Json::Bool(false), pos + 5))
        } else {
            None
        }
    } else if c == '"' {
        match parse_string_body(s, pos + 1) {
            Some((cs, j)) => Some((Json::Str(cs), j)),
            None => None,
        }
    } else if c == '[' {
        if pos + 1 < s.len() && s[pos + 1] == ']' {
            proof {
                lemma_jview_items_len(Seq::<Json>::empty(), 0);
                assert(jview_items(Seq::<Json>::empty(), 0) =~= Seq::<GJson>::empty());
            }
            Some((Json::Arr(Vec::new()), pos + 2))
        } else {
            match parse_items(s, pos + 1) {
                Some((items, j)) => Some((Json::Arr(items), j)),
                None => None,
            }
        }
    } else if c == '{' {
        if pos + 1 < s.len() && s[pos + 1] == '}' {
            proof {
                lemma_jview_fields_len(Seq::<(String, Json)>::empty(), 0);
                assert(jview_fields(Seq::<(String, Json)>::empty(), 0) =~= Seq::<
                    (Seq<char>, GJson),
                >::empty());
            }
            Some((Json::Obj(Vec::new()), pos + 2))
        } else {
            match parse_fields(s, pos + 1) {
                Some((fields, j)) => Some((Json::Obj(fields), j)),
                None => None,
            }
        }
    } else if c == '-' || crate::text::is_digit(c) {
        parse_number(s, pos)
    } else {
        None
    }
}

/// Parse array items up to and including the closing bracket.
#[verifier::loop_isolation(false)]
fn parse_items(s: &Vec<char>, pos: usize) -> (r: Option<(Vec<Json>, usize)>)
    ensures
        r matches Some((items, j)) ==> (spec_parse_items(s@, pos as int) matches Some((gs, jj))
            && jview_items(items@, 0) == gs && j == jj && pos < j <= s@.len()),
    decreases s@.len() - pos, 1int,
{
    if pos > s.len() {
        return None;
    }
    let mut acc: Vec<Json> = Vec::new();
    let mut cur: usize = pos;
    proof {
        lemma_jview_items_len(Seq::<Json>::empty(), 0);
        assert(jview_items(acc@, 0) =~= Seq::<GJson>::empty());
    }
    loop
        invariant
            pos <= cur <= s@.len(),
            match spec_parse_items(s@, cur as int) {
                Some((rest, j)) => spec_parse_items(s@, pos as int) == Some(
                    (jview_items(acc@, 0) + rest, j),
                ),
                None => spec_parse_items(s@, pos as int) is None,
            },
        decreases s@.len() - cur,
    {
        let (v, j) = match parse_json(s, cur) {
            Some(x) => x,
            None => {
                return None;
            },
        };
        if j >= s.len() {
            return None;
        }
        let ghost preacc = acc@;
        acc.push(v);
        proof {
            lemma_jview_items_snoc(preacc, v);
        }
        if s[j] == ']' {
            proof {
                assert(spec_parse_items(s@, cur as int) == Some(
                    (seq![jview(v)], j + 1 as int),
                ));
                assert(jview_items(preacc, 0) + seq![jview(v)] =~= jview_items(acc@, 0));
            }
            return Some((acc, j + 1));
        }
        if s[j] != ',' {
            return None;
        }
        proof {
            if let Some((rest, k)) = spec_parse_items(s@, j + 1 as int) {
                assert(spec_parse_items(s@, cur as int) == Some((seq![jview(v)] + rest, k)));
                assert(jview_items(preacc, 0) + (seq![jview(v)] + rest) =~= jview_items(acc@, 0)
                    + rest);
            }
        }
        cur = j + 1;
    }
}

/// Parse object fields up to and including the closing brace.
#[verifier::loop_isolation(false)]
fn parse_fields(s: &Vec<char>, pos: usize) -> (r: Option<(Vec<(String, Json)>, usize)>)
    ensures
        r matches Some((fields, j)) ==> (spec_parse_fields(s@, pos as int) matches Some((gs, jj))
            && jview_fields(fields@, 0) == gs && j == jj && pos < j <= s@.len()),
    decreases s@.len() - pos, 1int,
{
    if pos > s.len() {
        return None;
    }
    let mut acc: Vec<(String, Json)> = Vec::new();
    let mut cur: usize = pos;
    proof {
        lemma_jview_fields_len(Seq::<(String, Json)>::empty(), 0);
        assert(jview_fields(acc@, 0) =~= Seq::<(Seq<char>, GJson)>::empty());
    }
    loop
        invariant
            pos <= cur <= s@.len(),
            match spec_parse_fields(s@, cur as int) {
                Some((rest, j)) => spec_parse_fields(s@, pos as int) == Some(
                    (jview_fields(acc@, 0) + rest, j),
                ),
                None => spec_parse_fields(s@, pos as int) is None,
            },
        decreases s@.len() - cur,
    {
        if cur >= s.len() || s[cur] != '"' {
            return None;
        }
        let (key, kj) = match parse_string_body(s, cur + 1) {
            Some(x) => x,
            None => {
                return None;
            },
        };
        if kj >= s.len() || s[kj] != ':' {
            return None;
        }
        let (v, j) = match parse_json(s, kj + 1) {
            Some(x) => x,
            None => {
                return None;
            },
        };
        if j >= s.len() {
            return None;
        }
        let ghost preacc = acc@;
        let ghost gkey = key@;
        acc.push((key, v));
        proof {
            lemma_jview_fields_snoc(preacc, acc@[acc@.len() - 1].0, v);
            assert(acc@[acc@.len() - 1].0@ == gkey);
        }
        if s[j] == '}' {
            proof {
                assert(spec_parse_fields(s@, cur as int) == Some(
                    (seq![(gkey, jview(v))], j + 1 as int),
                ));
                assert(jview_fields(preacc, 0) + seq![(gkey, jview(v))] =~= jview_fields(acc@, 0));
            }
            return Some((acc, j + 1));
        }
        if s[j] != ',' {
            return None;
        }
        proof {
            if let Some((rest, k)) = spec_parse_fields(s@, j + 1 as int) {
                assert(spec_parse_fields(s@, cur as int) == Some((seq![(gkey, jview(v))] + rest, k)));
                assert(jview_fields(preacc, 0) + (seq![(gkey, jview(v))] + rest) =~= jview_fields(
                    acc@,
                    0,
                ) + rest);
            }
        }
        cur = j + 1;
    }
}

/// Parse a complete document: one value spanning the whole input.
pub fn parse_document(s: &str) -> (r: Option<Json>)
    ensures
        r matches Some(v) ==> spec_parse(s@, 0) == Some((jview(v), s@.len() as int)),
{
    let cs = chars_of(s);
    match parse_json(&cs, 0) {
        Some((v, j)) => {
            if j == cs.len() {
                Some(v)
            } else {
                None
            }
        },
        None => None,
    }
}

} // verus!
