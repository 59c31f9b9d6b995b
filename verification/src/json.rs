//! A small JSON codec: a strict recursive-descent parser and a
//! serializer, both specified by recursive spec functions over a
//! mathematical JSON tree.
//!
//! Strings accept the single-character escapes of JSON
//! (`\" \\ \/ \n \t \r \b \f`) and unicode escapes (`\uXXXX`),
//! surrogate pairs included. The serializer escapes only `"` and `\`.
use vstd::prelude::*;

verus! {

broadcast use vstd::std_specs::vec::group_vec_axioms, vstd::seq::axiom_seq_index_decreases, vstd::utf8::char_u32_cast;

/// An executable JSON document. Numbers keep their exact source
/// token, so no precision is ever lost by decoding.
pub enum Json {
    Null,
    Bool(bool),
    Num(String),
    Str(String),
    Arr(Vec<Json>),
    Obj(Vec<(String, Json)>),
}

/// The mathematical model of a JSON document.
#[verifier::ext_equal]
pub ghost enum JsonV {
    Null,
    Bool(bool),
    Num(Seq<char>),
    Str(Seq<char>),
    Arr(Seq<JsonV>),
    Obj(Seq<(Seq<char>, JsonV)>),
}

/// The model of an executable JSON tree.
pub open spec fn jv(j: Json) -> JsonV
    decreases j,
{
    match j {
        Json::Null => JsonV::Null,
        Json::Bool(b) => JsonV::Bool(b),
        Json::Num(t) => JsonV::Num(t@),
        Json::Str(t) => JsonV::Str(t@),
        Json::Arr(es) => JsonV::Arr(jvs(es@)),
        Json::Obj(ms) => JsonV::Obj(jvm(ms@)),
    }
}

/// The models of a sequence of JSON trees.
pub open spec fn jvs(es: Seq<Json>) -> Seq<JsonV>
    decreases es,
{
    Seq::new(
        es.len(),
        |k: int|
            if 0 <= k && k < es.len() {
                jv(es[k])
            } else {
                JsonV::Null
            },
    )
}

/// The models of a sequence of JSON object members.
pub open spec fn jvm(ms: Seq<(String, Json)>) -> Seq<(Seq<char>, JsonV)>
    decreases ms,
{
    Seq::new(
        ms.len(),
        |k: int|
            if 0 <= k && k < ms.len() {
                (ms[k].0@, jv(ms[k].1))
            } else {
                (Seq::empty(), JsonV::Null)
            },
    )
}

pub open spec fn is_ws(c: char) -> bool {
    c == ' ' || c == '\n' || c == '\t' || c == '\r'
}

pub open spec fn is_digit(c: char) -> bool {
    '0' <= c && c <= '9'
}

/// Characters that may occur in a number token.
pub open spec fn is_numch(c: char) -> bool {
    is_digit(c) || c == '-' || c == '+' || c == '.' || c == 'e' || c == 'E'
}

/// Index of the first non-whitespace character at or after `i`.
pub open spec fn skip_ws(s: Seq<char>, i: int) -> int
    decreases s.len() - i,
{
    if 0 <= i && i < s.len() && is_ws(s[i]) {
        skip_ws(s, i + 1)
    } else {
        i
    }
}

/// Index of the first non-digit character at or after `i`.
pub open spec fn digits_end(s: Seq<char>, i: int) -> int
    decreases s.len() - i,
{
    if 0 <= i && i < s.len() && is_digit(s[i]) {
        digits_end(s, i + 1)
    } else {
        i
    }
}

/// Index of the first character at or after `i` that cannot be part
/// of a number token.
pub open spec fn scan_num(s: Seq<char>, i: int) -> int
    decreases s.len() - i,
{
    if 0 <= i && i < s.len() && is_numch(s[i]) {
        scan_num(s, i + 1)
    } else {
        i
    }
}

/// The JSON number grammar: an optional minus sign, an integer part
/// without a superfluous leading zero, an optional fraction, and an
/// optional exponent.
pub open spec fn is_num_token(t: Seq<char>) -> bool {
    let i0: int = if t.len() > 0 && t[0] == '-' {
        1
    } else {
        0
    };
    let i1 = digits_end(t, i0);
    let has_frac = i1 < t.len() && t[i1] == '.';
    let i2 = if has_frac {
        digits_end(t, i1 + 1)
    } else {
        i1
    };
    let has_exp = i2 < t.len() && (t[i2] == 'e' || t[i2] == 'E');
    let i3: int = if has_exp {
        if i2 + 1 < t.len() && (t[i2 + 1] == '+' || t[i2 + 1] == '-') {
            i2 + 2
        } else {
            i2 + 1
        }
    } else {
        i2
    };
    let i4 = digits_end(t, i3);
    &&& i1 > i0
    &&& (t[i0] == '0' ==> i1 == i0 + 1)
    &&& (has_frac ==> i2 > i1 + 1)
    &&& (has_exp ==> i4 > i3)
    &&& (if has_exp {
        i4 == t.len()
    } else {
        i2 == t.len()
    })
}

/// What a single-character escape stands for, if it is one.
pub open spec fn unescape1(c: char) -> Option<char> {
    if c == '"' {
        Some('"')
    } else if c == '\\' {
        Some('\\')
    } else if c == '/' {
        Some('/')
    } else if c == 'n' {
        Some('\n')
    } else if c == 't' {
        Some('\t')
    } else if c == 'r' {
        Some('\r')
    } else if c == 'b' {
        Some('\u{0008}')
    } else if c == 'f' {
        Some('\u{000C}')
    } else {
        None
    }
}

pub open spec fn is_hex(c: char) -> bool {
    is_digit(c) || ('a' <= c && c <= 'f') || ('A' <= c && c <= 'F')
}

/// The value of one hexadecimal digit.
pub open spec fn hex_val(c: char) -> int {
    if is_digit(c) {
        c as u32 - '0' as u32
    } else if 'a' <= c && c <= 'f' {
        c as u32 - 'a' as u32 + 10
    } else {
        c as u32 - 'A' as u32 + 10
    }
}

/// The value of the four hexadecimal digits at `i`, if they are such.
pub open spec fn hex4(s: Seq<char>, i: int) -> Option<int> {
    if 0 <= i && i + 4 <= s.len() && is_hex(s[i]) && is_hex(s[i + 1]) && is_hex(s[i + 2]) && is_hex(
        s[i + 3],
    ) {
        Some(hex_val(s[i]) * 4096 + hex_val(s[i + 1]) * 256 + hex_val(s[i + 2]) * 16 + hex_val(
            s[i + 3],
        ))
    } else {
        None
    }
}

/// Decodes a unicode escape whose four digits start at `i` (just
/// after the `\u`): a plain scalar value, or a surrogate pair read
/// as one character. A lone surrogate is malformed. Returns the
/// character and the index just after the escape.
pub open spec fn uescape(s: Seq<char>, i: int) -> Option<(char, int)> {
    match hex4(s, i) {
        Some(h) => if 0xD800 <= h && h <= 0xDBFF {
            if i + 6 <= s.len() && s[i + 4] == '\\' && s[i + 5] == 'u' {
                match hex4(s, i + 6) {
                    Some(l) => if 0xDC00 <= l && l <= 0xDFFF {
                        Some((((0x10000 + (h - 0xD800) * 0x400 + (l - 0xDC00)) as u32) as char, i
                            + 10))
                    } else {
                        None
                    },
                    None => None,
                }
            } else {
                None
            }
        } else if 0xDC00 <= h && h <= 0xDFFF {
            None
        } else {
            Some(((h as u32) as char, i + 4))
        },
        None => None,
    }
}

/// Parses a string body starting just after the opening quote;
/// returns the content and the index just after the closing quote.
pub open spec fn parse_str_body(s: Seq<char>, i: int) -> Option<(Seq<char>, int)>
    decreases s.len() - i,
{
    if !(0 <= i && i < s.len()) {
        None
    } else if s[i] == '"' {
        Some((Seq::empty(), i + 1))
    } else if s[i] == '\\' {
        if i + 1 < s.len() && unescape1(s[i + 1]) is Some {
            match parse_str_body(s, i + 2) {
                Some((t, j)) => Some((seq![unescape1(s[i + 1])->Some_0] + t, j)),
                None => None,
            }
        } else if i + 1 < s.len() && s[i + 1] == 'u' {
            match uescape(s, i + 2) {
                Some((c, j)) => if i + 2 < j && j <= s.len() {
                    match parse_str_body(s, j) {
                        Some((t, e)) => Some((seq![c] + t, e)),
                        None => None,
                    }
                } else {
                    None
                },
                None => None,
            }
        } else {
            None
        }
    } else {
        match parse_str_body(s, i + 1) {
            Some((t, j)) => Some((seq![s[i]] + t, j)),
            None => None,
        }
    }
}

/// Parses one JSON value whose first character is at `i` (no leading
/// whitespace); returns the value and the index just after it.
pub open spec fn parse_value(s: Seq<char>, i: int) -> Option<(JsonV, int)>
    decreases s.len() - i, 0int,
{
    if !(0 <= i && i < s.len()) {
        None
    } else if s[i] == 'n' {
        if i + 4 <= s.len() && s[i + 1] == 'u' && s[i + 2] == 'l' && s[i + 3] == 'l' {
            Some((JsonV::Null, i + 4))
        } else {
            None
        }
    } else if s[i] == 't' {
        if i + 4 <= s.len() && s[i + 1] == 'r' && s[i + 2] == 'u' && s[i + 3] == 'e' {
            Some((JsonV::Bool(true), i + 4))
        } else {
            None
        }
    } else if s[i] == 'f' {
        if i + 5 <= s.len() && s[i + 1] == 'a' && s[i + 2] == 'l' && s[i + 3] == 's' && s[i + 4]
            == 'e' {
            Some((JsonV::Bool(false), i + 5))
        } else {
            None
        }
    } else if s[i] == '"' {
        match parse_str_body(s, i + 1) {
            Some((t, j)) => Some((JsonV::Str(t), j)),
            None => None,
        }
    } else if s[i] == '-' || is_digit(s[i]) {
        let j = scan_num(s, i);
        if i <= j && j <= s.len() && is_num_token(s.subrange(i, j)) {
            Some((JsonV::Num(s.subrange(i, j)), j))
        } else {
            None
        }
    } else if s[i] == '[' {
        let j = skip_ws(s, i + 1);
        if j < s.len() && s[j] == ']' {
            Some((JsonV::Arr(Seq::empty()), j + 1))
        } else {
            match parse_elems(s, i + 1) {
                Some((es, k)) => Some((JsonV::Arr(es), k)),
                None => None,
            }
        }
    } else if s[i] == '{' {
        let j = skip_ws(s, i + 1);
        if j < s.len() && s[j] == '}' {
            Some((JsonV::Obj(Seq::empty()), j + 1))
        } else {
            match parse_members(s, i + 1) {
                Some((ms, k)) => Some((JsonV::Obj(ms), k)),
                None => None,
            }
        }
    } else {
        None
    }
}

/// Parses a non-empty comma-separated list of values followed by `]`;
/// returns the values and the index just after the bracket.
pub open spec fn parse_elems(s: Seq<char>, i: int) -> Option<(Seq<JsonV>, int)>
    decreases s.len() - i, 1int,
{
    let j = skip_ws(s, i);
    if !(i <= j && j <= s.len()) {
        None
    } else {
        match parse_value(s, j) {
            None => None,
            Some((v, k)) => {
                let m = skip_ws(s, k);
                if m < s.len() && s[m] == ',' {
                    if i < m + 1 && m + 1 <= s.len() {
                        match parse_elems(s, m + 1) {
                            Some((es, e)) => Some((seq![v] + es, e)),
                            None => None,
                        }
                    } else {
                        None
                    }
                } else if m < s.len() && s[m] == ']' {
                    Some((seq![v], m + 1))
                } else {
                    None
                }
            },
        }
    }
}

/// Parses a non-empty comma-separated list of `"key": value` members
/// followed by `}`; returns the members and the index just after the
/// brace.
pub open spec fn parse_members(s: Seq<char>, i: int) -> Option<(Seq<(Seq<char>, JsonV)>, int)>
    decreases s.len() - i, 1int,
{
    let j = skip_ws(s, i);
    if !(i <= j && j < s.len() && s[j] == '"') {
        None
    } else {
        match parse_str_body(s, j + 1) {
            None => None,
            Some((key, k)) => {
                let m = skip_ws(s, k);
                if !(m < s.len() && s[m] == ':') {
                    None
                } else {
                    let vs = skip_ws(s, m + 1);
                    if !(i <= vs && vs <= s.len()) {
                        None
                    } else {
                        match parse_value(s, vs) {
                            None => None,
                            Some((v, k2)) => {
                                let m2 = skip_ws(s, k2);
                                if m2 < s.len() && s[m2] == ',' {
                                    if i < m2 + 1 && m2 + 1 <= s.len() {
                                        match parse_members(s, m2 + 1) {
                                            Some((ms, e)) => Some((seq![(key, v)] + ms, e)),
                                            None => None,
                                        }
                                    } else {
                                        None
                                    }
                                } else if m2 < s.len() && s[m2] == '}' {
                                    Some((seq![(key, v)], m2 + 1))
                                } else {
                                    None
                                }
                            },
                        }
                    }
                }
            },
        }
    }
}

/// Parses a whole document: one value, with whitespace allowed around
/// it and nothing else.
pub open spec fn parse_doc(s: Seq<char>) -> Option<JsonV> {
    let i = skip_ws(s, 0);
    match parse_value(s, i) {
        Some((v, j)) => if skip_ws(s, j) == s.len() {
            Some(v)
        } else {
            None
        },
        None => None,
    }
}

/// The serialization of one string character: `"` and `\` are
/// escaped, every other character stands for itself.
pub open spec fn esc1(c: char) -> Seq<char> {
    if c == '"' {
        seq!['\\', '"']
    } else if c == '\\' {
        seq!['\\', '\\']
    } else {
        seq![c]
    }
}

/// The serialization of a string body.
pub open spec fn esc(t: Seq<char>) -> Seq<char>
    decreases t.len(),
{
    if t.len() == 0 {
        Seq::empty()
    } else {
        esc1(t[0]) + esc(t.subrange(1, t.len() as int))
    }
}

/// The serialization of a JSON value.
pub open spec fn ser(v: JsonV) -> Seq<char>
    decreases v, 0int,
{
    match v {
        JsonV::Null => seq!['n', 'u', 'l', 'l'],
        JsonV::Bool(b) => if b {
            seq!['t', 'r', 'u', 'e']
        } else {
            seq!['f', 'a', 'l', 's', 'e']
        },
        JsonV::Num(t) => t,
        JsonV::Str(t) => seq!['"'] + esc(t) + seq!['"'],
        JsonV::Arr(es) => seq!['['] + ser_elems(es, 0) + seq![']'],
        JsonV::Obj(ms) => seq!['{'] + ser_members(ms, 0) + seq!['}'],
    }
}

/// The serialization of the array elements from index `i` on,
/// separated by commas.
pub open spec fn ser_elems(es: Seq<JsonV>, i: int) -> Seq<char>
    decreases es, es.len() - i,
{
    if 0 <= i && i < es.len() {
        if i + 1 < es.len() {
            ser(es[i]) + seq![','] + ser_elems(es, i + 1)
        } else {
            ser(es[i])
        }
    } else {
        Seq::empty()
    }
}

/// The serialization of the object members from index `i` on,
/// separated by commas.
pub open spec fn ser_members(ms: Seq<(Seq<char>, JsonV)>, i: int) -> Seq<char>
    decreases ms, ms.len() - i,
{
    if 0 <= i && i < ms.len() {
        let one = seq!['"'] + esc(ms[i].0) + seq!['"', ':'] + ser(ms[i].1);
        if i + 1 < ms.len() {
            one + seq![','] + ser_members(ms, i + 1)
        } else {
            one
        }
    } else {
        Seq::empty()
    }
}

/// Relies on String::push: appends the given character to the end of
/// the string.
#[verifier::external_body]
pub(crate) fn push_char(s: &mut String, c: char)
    ensures
        final(s)@ == old(s)@.push(c),
{
    s.push(c);
}

/// Builds a String holding exactly the given characters.
pub fn vec_to_string(v: &Vec<char>) -> (r: String)
    ensures
        r@ == v@,
{
    let mut r = String::new();
    let mut k: usize = 0;
    proof {
        assert(v@.subrange(0, 0) =~= Seq::<char>::empty());
    }
    while k < v.len()
        invariant
            k <= v@.len(),
            r@ == v@.subrange(0, k as int),
        decreases v@.len() - k,
    {
        push_char(&mut r, v[k]);
        proof {
            assert(v@.subrange(0, k + 1 as int) =~= v@.subrange(0, k as int).push(v@[k as int]));
        }
        k = k + 1;
    }
    proof {
        assert(v@.subrange(0, v@.len() as int) =~= v@);
    }
    r
}

/// The characters of a string slice, as a vector.
pub fn string_chars(s: &str) -> (v: Vec<char>)
    ensures
        v@ == s@,
{
    let n = s.unicode_len();
    let mut v: Vec<char> = Vec::new();
    let mut k: usize = 0;
    while k < n
        invariant
            n == s@.len(),
            k <= n,
            v@ == s@.subrange(0, k as int),
        decreases n - k,
    {
        v.push(s.get_char(k));
        proof {
            assert(s@.subrange(0, k + 1 as int) =~= s@.subrange(0, k as int).push(s@[k as int]));
        }
        k = k + 1;
    }
    proof {
        assert(s@.subrange(0, s@.len() as int) =~= s@);
    }
    v
}

fn is_ws_e(c: char) -> (b: bool)
    ensures
        b == is_ws(c),
{
    c == ' ' || c == '\n' || c == '\t' || c == '\r'
}

fn is_digit_e(c: char) -> (b: bool)
    ensures
        b == is_digit(c),
{
    '0' <= c && c <= '9'
}

fn is_numch_e(c: char) -> (b: bool)
    ensures
        b == is_numch(c),
{
    is_digit_e(c) || c == '-' || c == '+' || c == '.' || c == 'e' || c == 'E'
}

fn skip_ws_e(s: &Vec<char>, i: usize) -> (r: usize)
    requires
        i <= s@.len(),
    ensures
        r as int == skip_ws(s@, i as int),
        i <= r <= s@.len(),
    decreases s@.len() - i,
{
    if i < s.len() && is_ws_e(s[i]) {
        skip_ws_e(s, i + 1)
    } else {
        i
    }
}

fn digits_end_e(t: &Vec<char>, i: usize) -> (r: usize)
    requires
        i <= t@.len(),
    ensures
        r as int == digits_end(t@, i as int),
        i <= r <= t@.len(),
    decreases t@.len() - i,
{
    if i < t.len() && is_digit_e(t[i]) {
        digits_end_e(t, i + 1)
    } else {
        i
    }
}

fn scan_num_e(s: &Vec<char>, i: usize) -> (r: usize)
    requires
        i <= s@.len(),
    ensures
        r as int == scan_num(s@, i as int),
        i <= r <= s@.len(),
    decreases s@.len() - i,
{
    if i < s.len() && is_numch_e(s[i]) {
        scan_num_e(s, i + 1)
    } else {
        i
    }
}

/// Checks a token against the JSON number grammar.
pub fn num_ok(t: &Vec<char>) -> (b: bool)
    ensures
        b == is_num_token(t@),
{
    let n = t.len();
    let i0: usize = if n > 0 && t[0] == '-' {
        1
    } else {
        0
    };
    let i1 = digits_end_e(t, i0);
    if i1 <= i0 {
        return false;
    }
    if t[i0] == '0' && i1 != i0 + 1 {
        return false;
    }
    let has_frac = i1 < n && t[i1] == '.';
    let i2 = if has_frac {
        digits_end_e(t, i1 + 1)
    } else {
        i1
    };
    if has_frac && i2 <= i1 + 1 {
        return false;
    }
    let has_exp = i2 < n && (t[i2] == 'e' || t[i2] == 'E');
    let i3 = if has_exp {
        if i2 + 1 < n && (t[i2 + 1] == '+' || t[i2 + 1] == '-') {
            i2 + 2
        } else {
            i2 + 1
        }
    } else {
        i2
    };
    let i4 = digits_end_e(t, i3);
    if has_exp && i4 <= i3 {
        return false;
    }
    if has_exp {
        i4 == n
    } else {
        i2 == n
    }
}

fn unescape1_e(c: char) -> (r: Option<char>)
    ensures
        r == unescape1(c),
{
    if c == '"' {
        Some('"')
    } else if c == '\\' {
        Some('\\')
    } else if c == '/' {
        Some('/')
    } else if c == 'n' {
        Some('\n')
    } else if c == 't' {
        Some('\t')
    } else if c == 'r' {
        Some('\r')
    } else if c == 'b' {
        Some('\u{0008}')
    } else if c == 'f' {
        Some('\u{000C}')
    } else {
        None
    }
}

/// Relies on char::from_u32: the result is the character with the
/// given code point, and it exists exactly for unicode scalar values
/// (code points outside the surrogate range and at most 0x10FFFF).
#[verifier::external_body]
fn char_from_u32(c: u32) -> (r: Option<char>)
    ensures
        r matches Some(ch) ==> ch as u32 == c,
        r is Some <==> (c <= 0xD7FF || (0xE000 <= c && c <= 0x10FFFF)),
{
    char::from_u32(c)
}

fn hex_val_e(c: char) -> (r: Option<u32>)
    ensures
        r is Some <==> is_hex(c),
        r matches Some(v) ==> v == hex_val(c) && v < 16,
{
    if '0' <= c && c <= '9' {
        Some(c as u32 - 48)
    } else if 'a' <= c && c <= 'f' {
        Some(c as u32 - 97 + 10)
    } else if 'A' <= c && c <= 'F' {
        Some(c as u32 - 65 + 10)
    } else {
        None
    }
}

fn hex4_e(s: &Vec<char>, i: usize) -> (r: Option<u32>)
    requires
        i <= s@.len(),
    ensures
        r is None ==> hex4(s@, i as int) is None,
        r matches Some(v) ==> hex4(s@, i as int) == Some(v as int) && v < 0x10000,
{
    if s.len() - i < 4 {
        return None;
    }
    let a = match hex_val_e(s[i]) {
        Some(v) => v,
        None => {
            return None;
        },
    };
    let b = match hex_val_e(s[i + 1]) {
        Some(v) => v,
        None => {
            return None;
        },
    };
    let c = match hex_val_e(s[i + 2]) {
        Some(v) => v,
        None => {
            return None;
        },
    };
    let d = match hex_val_e(s[i + 3]) {
        Some(v) => v,
        None => {
            return None;
        },
    };
    Some(a * 4096 + b * 256 + c * 16 + d)
}

fn uescape_e(s: &Vec<char>, i: usize) -> (r: Option<(char, usize)>)
    requires
        i <= s@.len(),
    ensures
        r is None ==> uescape(s@, i as int) is None,
        r matches Some(p) ==> uescape(s@, i as int) == Some((p.0, p.1 as int)) && i < p.1 <= s@.len(),
{
    let n = s.len();
    let h = match hex4_e(s, i) {
        Some(v) => v,
        None => {
            return None;
        },
    };
    proof {
        assert(i + 4 <= n);
    }
    if 0xD800 <= h && h <= 0xDBFF {
        if n - i >= 6 && s[i + 4] == '\\' && s[i + 5] == 'u' {
            let l = match hex4_e(s, i + 6) {
                Some(v) => v,
                None => {
                    return None;
                },
            };
            proof {
                assert(i + 10 <= n);
            }
            if 0xDC00 <= l && l <= 0xDFFF {
                let code: u32 = 0x10000 + (h - 0xD800) * 0x400 + (l - 0xDC00);
                match char_from_u32(code) {
                    Some(c) => {
                        proof {
                            vstd::utf8::char_u32_cast(c, code);
                        }
                        Some((c, i + 10))
                    },
                    None => {
                        proof {
                            assert(0x10000 <= code <= 0x10FFFF);
                            assert(false);
                        }
                        None
                    },
                }
            } else {
                None
            }
        } else {
            None
        }
    } else if 0xDC00 <= h && h <= 0xDFFF {
        None
    } else {
        match char_from_u32(h) {
            Some(c) => {
                proof {
                    vstd::utf8::char_u32_cast(c, h);
                }
                Some((c, i + 4))
            },
            None => {
                proof {
                    assert(h <= 0xD7FF || (0xE000 <= h && h < 0x10000));
                    assert(false);
                }
                None
            },
        }
    }
}

fn parse_str_body_e(s: &Vec<char>, i: usize) -> (r: Option<(Vec<char>, usize)>)
    requires
        i <= s@.len(),
    ensures
        r is None ==> parse_str_body(s@, i as int) is None,
        r matches Some(p) ==> parse_str_body(s@, i as int) == Some((p.0@, p.1 as int)) && p.1
            <= s@.len(),
{
    let mut cur = i;
    let mut acc: Vec<char> = Vec::new();
    proof {
        match parse_str_body(s@, i as int) {
            Some(p) => {
                assert(Seq::<char>::empty() + p.0 =~= p.0);
            },
            None => {},
        }
    }
    loop
        invariant
            i <= cur <= s@.len(),
            ({
                let full = parse_str_body(s@, i as int);
                match parse_str_body(s@, cur as int) {
                    Some(p) => full == Some((acc@ + p.0, p.1)),
                    None => full is None,
                }
            }),
        decreases s@.len() - cur,
    {
        if cur >= s.len() {
            return None;
        }
        let c = s[cur];
        if c == '"' {
            proof {
                assert(acc@ + Seq::<char>::empty() =~= acc@);
            }
            return Some((acc, cur + 1));
        } else if c == '\\' {
            if cur + 1 < s.len() {
                match unescape1_e(s[cur + 1]) {
                    Some(d) => {
                        let ghost acc0 = acc@;
                        acc.push(d);
                        proof {
                            match parse_str_body(s@, cur + 2 as int) {
                                Some(p) => {
                                    assert(acc@ + p.0 =~= acc0 + (seq![d] + p.0));
                                },
                                None => {},
                            }
                        }
                        cur = cur + 2;
                    },
                    None => {
                        if s[cur + 1] == 'u' {
                            match uescape_e(s, cur + 2) {
                                Some((d, j)) => {
                                    if cur + 2 < j {
                                        let ghost acc0 = acc@;
                                        acc.push(d);
                                        proof {
                                            match parse_str_body(s@, j as int) {
                                                Some(p) => {
                                                    assert(acc@ + p.0 =~= acc0 + (seq![d] + p.0));
                                                },
                                                None => {},
                                            }
                                        }
                                        cur = j;
                                    } else {
                                        return None;
                                    }
                                },
                                None => {
                                    return None;
                                },
                            }
                        } else {
                            return None;
                        }
                    },
                }
            } else {
                return None;
            }
        } else {
            let ghost acc0 = acc@;
            acc.push(c);
            proof {
                match parse_str_body(s@, cur + 1 as int) {
                    Some(p) => {
                        assert(acc@ + p.0 =~= acc0 + (seq![c] + p.0));
                    },
                    None => {},
                }
            }
            cur = cur + 1;
        }
    }
}

fn parse_value_e(s: &Vec<char>, i: usize) -> (r: Option<(Json, usize)>)
    requires
        i <= s@.len(),
    ensures
        r is None ==> parse_value(s@, i as int) is None,
        r matches Some(p) ==> parse_value(s@, i as int) == Some((jv(p.0), p.1 as int)) && p.1
            <= s@.len(),
    decreases s@.len() - i, 0int,
{
    if i >= s.len() {
        return None;
    }
    let c = s[i];
    if c == 'n' {
        if s.len() - i >= 4 && s[i + 1] == 'u' && s[i + 2] == 'l' && s[i + 3] == 'l' {
            Some((Json::Null, i + 4))
        } else {
            None
        }
    } else if c == 't' {
        if s.len() - i >= 4 && s[i + 1] == 'r' && s[i + 2] == 'u' && s[i + 3] == 'e' {
            Some((Json::Bool(true), i + 4))
        } else {
            None
        }
    } else if c == 'f' {
        if s.len() - i >= 5 && s[i + 1] == 'a' && s[i + 2] == 'l' && s[i + 3] == 's' && s[i + 4]
            == 'e' {
            Some((Json::Bool(false), i + 5))
        } else {
            None
        }
    } else if c == '"' {
        match parse_str_body_e(s, i + 1) {
            Some((content, k)) => {
                let st = vec_to_string(&content);
                Some((Json::Str(st), k))
            },
            None => None,
        }
    } else if c == '-' || is_digit_e(c) {
        let j = scan_num_e(s, i);
        let mut tok: Vec<char> = Vec::new();
        let mut k = i;
        proof {
            assert(s@.subrange(i as int, i as int) =~= Seq::<char>::empty());
        }
        while k < j
            invariant
                i <= k <= j <= s@.len(),
                tok@ == s@.subrange(i as int, k as int),
            decreases j - k,
        {
            tok.push(s[k]);
            proof {
                assert(s@.subrange(i as int, k + 1 as int) =~= s@.subrange(i as int, k as int).push(
                    s@[k as int],
                ));
            }
            k = k + 1;
        }
        if num_ok(&tok) {
            let st = vec_to_string(&tok);
            Some((Json::Num(st), j))
        } else {
            None
        }
    } else if c == '[' {
        let j = skip_ws_e(s, i + 1);
        if j < s.len() && s[j] == ']' {
            let es: Vec<Json> = Vec::new();
            proof {
                assert(jvs(es@) =~= Seq::<JsonV>::empty());
            }
            Some((Json::Arr(es), j + 1))
        } else {
            match parse_elems_e(s, i + 1) {
                Some((es, k)) => Some((Json::Arr(es), k)),
                None => None,
            }
        }
    } else if c == '{' {
        let j = skip_ws_e(s, i + 1);
        if j < s.len() && s[j] == '}' {
            let ms: Vec<(String, Json)> = Vec::new();
            proof {
                assert(jvm(ms@) =~= Seq::<(Seq<char>, JsonV)>::empty());
            }
            Some((Json::Obj(ms), j + 1))
        } else {
            match parse_members_e(s, i + 1) {
                Some((ms, k)) => Some((Json::Obj(ms), k)),
                None => None,
            }
        }
    } else {
        None
    }
}

fn parse_elems_e(s: &Vec<char>, i: usize) -> (r: Option<(Vec<Json>, usize)>)
    requires
        i <= s@.len(),
    ensures
        r is None ==> parse_elems(s@, i as int) is None,
        r matches Some(p) ==> parse_elems(s@, i as int) == Some((jvs(p.0@), p.1 as int)) && p.1
            <= s@.len(),
    decreases s@.len() - i, 1int,
{
    let j = skip_ws_e(s, i);
    match parse_value_e(s, j) {
        None => None,
        Some((v, k)) => {
            let m = skip_ws_e(s, k);
            if m < s.len() && s[m] == ',' {
                if i < m + 1 {
                    match parse_elems_e(s, m + 1) {
                        Some((mut es, e)) => {
                            let ghost es0 = es@;
                            let ghost v0 = v;
                            es.insert(0, v);
                            proof {
                                assert(jvs(es@) =~= seq![jv(v0)] + jvs(es0));
                            }
                            Some((es, e))
                        },
                        None => None,
                    }
                } else {
                    None
                }
            } else if m < s.len() && s[m] == ']' {
                let ghost v0 = v;
                let mut es: Vec<Json> = Vec::new();
                es.push(v);
                proof {
                    assert(jvs(es@) =~= seq![jv(v0)]);
                }
                Some((es, m + 1))
            } else {
                None
            }
        },
    }
}

fn parse_members_e(s: &Vec<char>, i: usize) -> (r: Option<(Vec<(String, Json)>, usize)>)
    requires
        i <= s@.len(),
    ensures
        r is None ==> parse_members(s@, i as int) is None,
        r matches Some(p) ==> parse_members(s@, i as int) == Some((jvm(p.0@), p.1 as int)) && p.1
            <= s@.len(),
    decreases s@.len() - i, 1int,
{
    let j = skip_ws_e(s, i);
    if !(j < s.len() && s[j] == '"') {
        return None;
    }
    match parse_str_body_e(s, j + 1) {
        None => None,
        Some((keyc, k)) => {
            let key = vec_to_string(&keyc);
            let m = skip_ws_e(s, k);
            if !(m < s.len() && s[m] == ':') {
                return None;
            }
            let vs = skip_ws_e(s, m + 1);
            if !(i <= vs) {
                return None;
            }
            match parse_value_e(s, vs) {
                None => None,
                Some((v, k2)) => {
                    let m2 = skip_ws_e(s, k2);
                    if m2 < s.len() && s[m2] == ',' {
                        if i < m2 + 1 {
                            match parse_members_e(s, m2 + 1) {
                                Some((mut ms, e)) => {
                                    let ghost ms0 = ms@;
                                    let ghost key0 = key@;
                                    let ghost v0 = v;
                                    ms.insert(0, (key, v));
                                    proof {
                                        assert(jvm(ms@) =~= seq![(key0, jv(v0))] + jvm(ms0));
                                    }
                                    Some((ms, e))
                                },
                                None => None,
                            }
                        } else {
                            None
                        }
                    } else if m2 < s.len() && s[m2] == '}' {
                        let ghost key0 = key@;
                        let ghost v0 = v;
                        let mut ms: Vec<(String, Json)> = Vec::new();
                        ms.push((key, v));
                        proof {
                            assert(jvm(ms@) =~= seq![(key0, jv(v0))]);
                        }
                        Some((ms, m2 + 1))
                    } else {
                        None
                    }
                },
            }
        },
    }
}

/// Parses a whole JSON document held in a character vector.
pub fn parse_doc_chars(s: &Vec<char>) -> (r: Option<Json>)
    ensures
        r is None ==> parse_doc(s@) is None,
        r matches Some(j) ==> parse_doc(s@) == Some(jv(j)),
{
    let i = skip_ws_e(s, 0);
    match parse_value_e(s, i) {
        Some((v, j)) => {
            if skip_ws_e(s, j) == s.len() {
                Some(v)
            } else {
                None
            }
        },
        None => None,
    }
}

/// Parses a whole JSON document.
pub fn parse_json(s: &str) -> (r: Option<Json>)
    ensures
        r is None ==> parse_doc(s@) is None,
        r matches Some(j) ==> parse_doc(s@) == Some(jv(j)),
{
    let v = string_chars(s);
    parse_doc_chars(&v)
}

fn ser_chars(j: &Json) -> (r: Vec<char>)
    ensures
        r@ == ser(jv(*j)),
    decreases *j, 0int,
{
    match j {
        Json::Null => {
            let r = vec!['n', 'u', 'l', 'l'];
            proof {
                assert(r@ =~= seq!['n', 'u', 'l', 'l']);
            }
            r
        },
        Json::Bool(b) => {
            if *b {
                let r = vec!['t', 'r', 'u', 'e'];
                proof {
                    assert(r@ =~= seq!['t', 'r', 'u', 'e']);
                }
                r
            } else {
                let r = vec!['f', 'a', 'l', 's', 'e'];
                proof {
                    assert(r@ =~= seq!['f', 'a', 'l', 's', 'e']);
                }
                r
            }
        },
        Json::Num(t) => string_chars(t.as_str()),
        Json::Str(t) => {
            let mut r: Vec<char> = Vec::new();
            r.push('"');
            let tc = string_chars(t.as_str());
            push_escaped(&mut r, &tc);
            r.push('"');
            proof {
                assert(r@ =~= seq!['"'] + esc(t@) + seq!['"']);
            }
            r
        },
        Json::Arr(es) => ser_arr(es),
        Json::Obj(ms) => ser_obj(ms),
    }
}

/// Appends the escaped form of `t` to `out`.
fn push_escaped(out: &mut Vec<char>, t: &Vec<char>)
    ensures
        final(out)@ == old(out)@ + esc(t@),
{
    let mut k: usize = 0;
    proof {
        assert(t@.subrange(0, t@.len() as int) =~= t@);
    }
    while k < t.len()
        invariant
            k <= t@.len(),
            out@ + esc(t@.subrange(k as int, t@.len() as int)) == old(out)@ + esc(t@),
        decreases t@.len() - k,
    {
        let ghost pre = out@;
        let c = t[k];
        if c == '"' {
            out.push('\\');
            out.push('"');
        } else if c == '\\' {
            out.push('\\');
            out.push('\\');
        } else {
            out.push(c);
        }
        proof {
            let rest = t@.subrange(k as int, t@.len() as int);
            let rest2 = t@.subrange(k + 1 as int, t@.len() as int);
            assert(rest[0] == t@[k as int]);
            assert(rest.subrange(1, rest.len() as int) =~= rest2);
            assert(out@ =~= pre + esc1(t@[k as int]));
            assert(pre + esc(rest) =~= (pre + esc1(t@[k as int])) + esc(rest2));
        }
        k = k + 1;
    }
    proof {
        assert(t@.subrange(t@.len() as int, t@.len() as int) =~= Seq::<char>::empty());
        assert(out@ + Seq::<char>::empty() =~= out@);
    }
}

fn ser_arr(es: &Vec<Json>) -> (r: Vec<char>)
    ensures
        r@ == ser(JsonV::Arr(jvs(es@))),
    decreases es@, 1int,
{
    let mut out: Vec<char> = Vec::new();
    out.push('[');
    proof {
        assert(out@ =~= seq!['[']);
    }
    let mut k: usize = 0;
    while k < es.len()
        invariant
            k <= es@.len(),
            out@ + ser_elems(jvs(es@), k as int) == seq!['['] + ser_elems(jvs(es@), 0),
        decreases es@.len() - k,
    {
        let ghost pre = out@;
        let mut piece = ser_chars(&es[k]);
        out.append(&mut piece);
        if k + 1 < es.len() {
            out.push(',');
        }
        proof {
            assert(jvs(es@)[k as int] == jv(es@[k as int]));
            if k + 1 < es@.len() {
                assert(out@ =~= pre + ser(jv(es@[k as int])) + seq![',']);
            } else {
                assert(out@ =~= pre + ser(jv(es@[k as int])));
            }
            assert(out@ + ser_elems(jvs(es@), k + 1 as int) =~= seq!['['] + ser_elems(
                jvs(es@),
                0,
            ));
        }
        k = k + 1;
    }
    out.push(']');
    proof {
        if es@.len() == 0 {
            assert(ser_elems(jvs(es@), 0) =~= Seq::<char>::empty());
            assert(out@ =~= seq!['['] + ser_elems(jvs(es@), 0) + seq![']']);
        } else {
            assert(ser_elems(jvs(es@), es@.len() as int) =~= Seq::<char>::empty());
            assert(out@ =~= seq!['['] + ser_elems(jvs(es@), 0) + seq![']']);
        }
    }
    out
}

fn ser_obj(ms: &Vec<(String, Json)>) -> (r: Vec<char>)
    ensures
        r@ == ser(JsonV::Obj(jvm(ms@))),
    decreases ms@, 1int,
{
    let mut out: Vec<char> = Vec::new();
    out.push('{');
    proof {
        assert(out@ =~= seq!['{']);
    }
    let mut k: usize = 0;
    while k < ms.len()
        invariant
            k <= ms@.len(),
            out@ + ser_members(jvm(ms@), k as int) == seq!['{'] + ser_members(jvm(ms@), 0),
        decreases ms@.len() - k,
    {
        let ghost pre = out@;
        out.push('"');
        let keyc = string_chars(ms[k].0.as_str());
        push_escaped(&mut out, &keyc);
        out.push('"');
        out.push(':');
        let mut piece = ser_chars(&ms[k].1);
        out.append(&mut piece);
        if k + 1 < ms.len() {
            out.push(',');
        }
        proof {
            assert(jvm(ms@)[k as int] == (ms@[k as int].0@, jv(ms@[k as int].1)));
            let one = seq!['"'] + esc(ms@[k as int].0@) + seq!['"', ':'] + ser(jv(ms@[k as int].1));
            if k + 1 < ms@.len() {
                assert(out@ =~= pre + one + seq![',']);
            } else {
                assert(out@ =~= pre + one);
            }
            assert(out@ + ser_members(jvm(ms@), k + 1 as int) =~= seq!['{'] + ser_members(
                jvm(ms@),
                0,
            ));
        }
        k = k + 1;
    }
    out.push('}');
    proof {
        if ms@.len() == 0 {
            assert(ser_members(jvm(ms@), 0) =~= Seq::<char>::empty());
        } else {
            assert(ser_members(jvm(ms@), ms@.len() as int) =~= Seq::<char>::empty());
        }
        assert(out@ =~= seq!['{'] + ser_members(jvm(ms@), 0) + seq!['}']);
    }
    out
}

/// Serializes a JSON document to text.
pub fn to_text(j: &Json) -> (r: String)
    ensures
        r@ == ser(jv(*j)),
{
    let v = ser_chars(j);
    vec_to_string(&v)
}

} // verus!
