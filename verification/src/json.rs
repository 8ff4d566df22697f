//! The JSON wire format: a document tree, an emitter and a parser, with a
//! proof that parsing an emitted document gives the tree back.
//!
//! Numbers are carried as their lexemes, uninterpreted; the callers that
//! need a numeric field decode the lexeme themselves.

use vstd::prelude::*;

verus! {

use crate::num::digit_char;
use crate::text::str_to_chars;
use crate::text::chars_range;
use crate::text::push_chars;
use crate::text::chars_to_string;

/// One JSON value.
pub enum Json {
    Null,
    Bool(bool),
    /// A number, as its undecoded lexeme.
    Num(String),
    Str(String),
    Arr(Vec<Json>),
    Obj(Vec<(String, Json)>),
}

/// The mathematical shape of a JSON value.
pub enum JsonV {
    Null,
    Bool(bool),
    Num(Seq<char>),
    Str(Seq<char>),
    Arr(Seq<JsonV>),
    Obj(Seq<(Seq<char>, JsonV)>),
}

impl Json {
    /// The abstract tree this value holds.
    pub open spec fn jview(self) -> JsonV
        decreases self,
    {
        match self {
            Json::Null => JsonV::Null,
            Json::Bool(b) => JsonV::Bool(b),
            Json::Num(s) => JsonV::Num(s@),
            Json::Str(s) => JsonV::Str(s@),
            Json::Arr(items) => JsonV::Arr(jviews(items@)),
            Json::Obj(fields) => JsonV::Obj(jview_fields(fields@)),
        }
    }
}

/// The abstract trees of a sequence of values.
pub open spec fn jviews(items: Seq<Json>) -> Seq<JsonV>
    decreases items,
{
    if items.len() == 0 {
        Seq::empty()
    } else {
        seq![items[0].jview()] + jviews(items.subrange(1, items.len() as int))
    }
}

/// The abstract trees of a sequence of fields.
pub open spec fn jview_fields(fields: Seq<(String, Json)>) -> Seq<(Seq<char>, JsonV)>
    decreases fields,
{
    if fields.len() == 0 {
        Seq::empty()
    } else {
        seq![(fields[0].0@, fields[0].1.jview())] + jview_fields(
            fields.subrange(1, fields.len() as int),
        )
    }
}

pub proof fn lemma_jviews_props(items: Seq<Json>)
    ensures
        jviews(items).len() == items.len(),
        forall|i: int| 0 <= i < items.len() ==> jviews(items)[i] == items[i].jview(),
    decreases items.len(),
{
    if items.len() > 0 {
        let rest = items.subrange(1, items.len() as int);
        lemma_jviews_props(rest);
        assert forall|i: int| 0 <= i < items.len() implies jviews(items)[i] == items[i].jview() by {
            if i > 0 {
                assert(rest[i - 1] == items[i]);
            }
        }
    }
}

pub proof fn lemma_jview_fields_props(fields: Seq<(String, Json)>)
    ensures
        jview_fields(fields).len() == fields.len(),
        forall|i: int|
            0 <= i < fields.len() ==> jview_fields(fields)[i] == (
                fields[i].0@,
                fields[i].1.jview(),
            ),
    decreases fields.len(),
{
    if fields.len() > 0 {
        let rest = fields.subrange(1, fields.len() as int);
        lemma_jview_fields_props(rest);
        assert forall|i: int|
            0 <= i < fields.len() implies jview_fields(fields)[i] == (
            fields[i].0@,
            fields[i].1.jview(),
        ) by {
            if i > 0 {
                assert(rest[i - 1] == fields[i]);
            }
        }
    }
}

/// A hexadecimal digit, lower case.
pub open spec fn hex_digit(d: int) -> char {
    if d < 10 {
        digit_char(d)
    } else {
        ((87 + d) as u8) as char
    }
}

/// How one character of a string is written: the two-character escapes for
/// quote, backslash and the common controls, a `\u00XX` escape for the
/// remaining controls, the character itself otherwise.
pub open spec fn esc_char(c: char) -> Seq<char> {
    if c == '"' {
        seq!['\\', '"']
    } else if c == '\\' {
        seq!['\\', '\\']
    } else if c == '\n' {
        seq!['\\', 'n']
    } else if c == '\r' {
        seq!['\\', 'r']
    } else if c == '\t' {
        seq!['\\', 't']
    } else if (c as u32) < 0x20 {
        seq!['\\', 'u', '0', '0', hex_digit((c as u32) as int / 16), hex_digit(
            (c as u32) as int % 16,
        )]
    } else {
        seq![c]
    }
}

/// A string body, escaped.
pub open spec fn esc_str(s: Seq<char>) -> Seq<char>
    decreases s.len(),
{
    if s.len() == 0 {
        Seq::empty()
    } else {
        esc_char(s[0]) + esc_str(s.drop_first())
    }
}

pub proof fn lemma_esc_str_push(s: Seq<char>, c: char)
    ensures
        esc_str(s.push(c)) == esc_str(s) + esc_char(c),
    decreases s.len(),
{
    if s.len() == 0 {
        assert(s.push(c)[0] == c);
        assert(s.push(c).drop_first() =~= Seq::<char>::empty());
        assert(esc_str(Seq::<char>::empty()) == Seq::<char>::empty());
        assert(esc_str(s.push(c)) =~= esc_str(s) + esc_char(c));
    } else {
        let t = s.drop_first();
        assert(s.push(c)[0] == s[0]);
        assert(s.push(c).drop_first() =~= t.push(c));
        lemma_esc_str_push(t, c);
        assert(esc_str(s.push(c)) == esc_char(s[0]) + esc_str(t.push(c)));
        assert(esc_str(s) == esc_char(s[0]) + esc_str(t));
        assert(esc_char(s[0]) + (esc_str(t) + esc_char(c)) =~= (esc_char(s[0]) + esc_str(t))
            + esc_char(c));
    }
}

/// The canonical text of a JSON value: no whitespace, object fields in
/// their held order.
pub open spec fn spec_emit(v: JsonV) -> Seq<char>
    decreases v, 0int,
{
    match v {
        JsonV::Null => "null"@,
        JsonV::Bool(b) => if b {
            "true"@
        } else {
            "false"@
        },
        JsonV::Num(s) => s,
        JsonV::Str(s) => seq!['"'] + esc_str(s) + seq!['"'],
        JsonV::Arr(items) => seq!['['] + spec_emit_items(items, 0) + seq![']'],
        JsonV::Obj(fields) => seq!['{'] + spec_emit_fields(fields, 0) + seq!['}'],
    }
}

/// The comma-separated texts of the array elements from `i` on.
pub open spec fn spec_emit_items(items: Seq<JsonV>, i: int) -> Seq<char>
    decreases items, items.len() - i,
    when 0 <= i
{
    if i >= items.len() {
        Seq::empty()
    } else {
        spec_emit(items[i]) + (if i + 1 < items.len() {
            seq![','] + spec_emit_items(items, i + 1)
        } else {
            Seq::empty()
        })
    }
}

/// The comma-separated `"key":value` texts of the object fields from `i` on.
pub open spec fn spec_emit_fields(fields: Seq<(Seq<char>, JsonV)>, i: int) -> Seq<char>
    decreases fields, fields.len() - i,
    when 0 <= i
{
    if i >= fields.len() {
        Seq::empty()
    } else {
        seq!['"'] + esc_str(fields[i].0) + seq!['"', ':'] + spec_emit(fields[i].1) + (if i + 1
            < fields.len() {
            seq![','] + spec_emit_fields(fields, i + 1)
        } else {
            Seq::empty()
        })
    }
}

/// Appends the escape of one character.
fn push_esc_char(c: char, out: &mut Vec<char>)
    ensures
        final(out)@ == old(out)@ + esc_char(c),
{
    if c == '"' {
        out.push('\\');
        out.push('"');
        proof {
            assert(out@ =~= old(out)@ + esc_char(c));
        }
    } else if c == '\\' {
        out.push('\\');
        out.push('\\');
        proof {
            assert(out@ =~= old(out)@ + esc_char(c));
        }
    } else if c == '\n' {
        out.push('\\');
        out.push('n');
        proof {
            assert(out@ =~= old(out)@ + esc_char(c));
        }
    } else if c == '\r' {
        out.push('\\');
        out.push('r');
        proof {
            assert(out@ =~= old(out)@ + esc_char(c));
        }
    } else if c == '\t' {
        out.push('\\');
        out.push('t');
        proof {
            assert(out@ =~= old(out)@ + esc_char(c));
        }
    } else {
        let u = c as u32;
        if u < 0x20 {
            out.push('\\');
            out.push('u');
            out.push('0');
            out.push('0');
            let d1 = (u / 16) as u8;
            let d2 = (u % 16) as u8;
            out.push((if d1 < 10 {
                48u8 + d1
            } else {
                87u8 + d1
            }) as char);
            out.push((if d2 < 10 {
                48u8 + d2
            } else {
                87u8 + d2
            }) as char);
            proof {
                assert(out@ =~= old(out)@ + esc_char(c));
            }
        } else {
            out.push(c);
            proof {
                assert(out@ =~= old(out)@ + esc_char(c));
            }
        }
    }
}

/// Appends the escaped body of a string.
fn push_esc_str(s: &str, out: &mut Vec<char>)
    ensures
        final(out)@ == old(out)@ + esc_str(s@),
{
    let cs = str_to_chars(s);
    let n = cs.len();
    let mut k: usize = 0;
    while k < n
        invariant
            0 <= k <= n == cs@.len(),
            cs@ == s@,
            out@ == old(out)@ + esc_str(s@.subrange(0, k as int)),
        decreases n - k,
    {
        push_esc_char(cs[k], out);
        proof {
            assert(s@.subrange(0, k + 1 as int).drop_last() =~= s@.subrange(0, k as int));
            lemma_esc_str_push(s@.subrange(0, k as int), s@[k as int]);
            assert(s@.subrange(0, k + 1 as int) =~= s@.subrange(0, k as int).push(s@[k as int]));
        }
        k += 1;
    }
    proof {
        assert(s@.subrange(0, n as int) =~= s@);
    }
}

/// Appends the canonical text of a value.
#[verifier::loop_isolation(false)]
pub fn write_json(j: &Json, out: &mut Vec<char>)
    ensures
        final(out)@ == old(out)@ + spec_emit(j.jview()),
    decreases *j,
{
    match j {
        Json::Null => {
            out.push('n');
            out.push('u');
            out.push('l');
            out.push('l');
            proof {
                reveal_strlit("null");
                assert(out@ =~= old(out)@ + "null"@);
            }
        },
        Json::Bool(b) => {
            if *b {
                out.push('t');
                out.push('r');
                out.push('u');
                out.push('e');
                proof {
                    reveal_strlit("true");
                    assert(out@ =~= old(out)@ + "true"@);
                }
            } else {
                out.push('f');
                out.push('a');
                out.push('l');
                out.push('s');
                out.push('e');
                proof {
                    reveal_strlit("false");
                    assert(out@ =~= old(out)@ + "false"@);
                }
            }
        },
        Json::Num(s) => {
            let cs = str_to_chars(s.as_str());
            push_chars(out, &cs);
        },
        Json::Str(s) => {
            out.push('"');
            push_esc_str(s.as_str(), out);
            out.push('"');
            proof {
                assert(out@ =~= old(out)@ + spec_emit(j.jview()));
            }
        },
        Json::Arr(items) => {
            let ghost itemsv = j.jview()->Arr_0;
            proof {
                lemma_jviews_props(items@);
            }
            out.push('[');
            let ghost base = out@;
            let n = items.len();
            let mut i: usize = 0;
            while i < n
                invariant
                    0 <= i <= n == items@.len(),
                    out@ + spec_emit_items(itemsv, i as int) == base + spec_emit_items(itemsv, 0),
                decreases n - i,
            {
                write_json(&items[i], out);
                if i + 1 < n {
                    out.push(',');
                }
                proof {
                    assert(out@ + spec_emit_items(itemsv, i + 1) =~= base + spec_emit_items(
                        itemsv,
                        0,
                    ));
                }
                i += 1;
            }
            out.push(']');
            proof {
                assert(out@ =~= old(out)@ + spec_emit(j.jview()));
            }
        },
        Json::Obj(fields) => {
            let ghost fieldsv = j.jview()->Obj_0;
            proof {
                lemma_jview_fields_props(fields@);
            }
            out.push('{');
            let ghost base = out@;
            let n = fields.len();
            let mut i: usize = 0;
            while i < n
                invariant
                    0 <= i <= n == fields@.len(),
                    out@ + spec_emit_fields(fieldsv, i as int) == base + spec_emit_fields(
                        fieldsv,
                        0,
                    ),
                decreases n - i,
            {
                out.push('"');
                push_esc_str(fields[i].0.as_str(), out);
                out.push('"');
                out.push(':');
                write_json(&fields[i].1, out);
                if i + 1 < n {
                    out.push(',');
                }
                proof {
                    assert(out@ + spec_emit_fields(fieldsv, i + 1) =~= base + spec_emit_fields(
                        fieldsv,
                        0,
                    ));
                }
                i += 1;
            }
            out.push('}');
            proof {
                assert(out@ =~= old(out)@ + spec_emit(j.jview()));
            }
        },
    }
}

/// JSON insignificant whitespace.
pub open spec fn is_json_ws(c: char) -> bool {
    c == ' ' || c == '\t' || c == '\n' || c == '\r'
}

/// The characters a number lexeme is drawn from.
pub open spec fn is_num_char(c: char) -> bool {
    crate::num::is_digit(c) || c == '-' || c == '+' || c == '.' || c == 'e' || c == 'E'
}

/// The first position at or after `i` whose character fails `p`.
pub open spec fn scan_while(s: Seq<char>, i: int, p: spec_fn(char) -> bool) -> int
    decreases s.len() - i,
    when 0 <= i <= s.len()
{
    if i < s.len() && p(s[i]) {
        scan_while(s, i + 1, p)
    } else {
        i
    }
}

/// `scan_while`, clamped into range so that every caller can rely on the
/// bounds without a proof.
pub open spec fn scan_from(s: Seq<char>, i: int, p: spec_fn(char) -> bool) -> int {
    let k = scan_while(s, i, p);
    if i <= k <= s.len() {
        k
    } else {
        i
    }
}

pub proof fn lemma_scan_props(s: Seq<char>, i: int, p: spec_fn(char) -> bool)
    requires
        0 <= i <= s.len(),
    ensures
        i <= scan_while(s, i, p) <= s.len(),
        scan_from(s, i, p) == scan_while(s, i, p),
        forall|t: int| i <= t < scan_while(s, i, p) ==> p(s[t]),
        scan_while(s, i, p) < s.len() ==> !p(s[scan_while(s, i, p)]),
    decreases s.len() - i,
{
    if i < s.len() && p(s[i]) {
        lemma_scan_props(s, i + 1, p);
    }
}

pub proof fn lemma_scan_eq(s: Seq<char>, i: int, p: spec_fn(char) -> bool, k: int)
    requires
        0 <= i <= k <= s.len(),
        forall|t: int| i <= t < k ==> p(s[t]),
        k < s.len() ==> !p(s[k]),
    ensures
        scan_while(s, i, p) == k,
    decreases s.len() - i,
{
    if i < s.len() && p(s[i]) {
        lemma_scan_eq(s, i + 1, p, k);
    }
}

/// The whitespace predicate, shared so that every use is the same term.
pub open spec fn ws_pred() -> spec_fn(char) -> bool {
    |c: char| is_json_ws(c)
}

/// The number-character predicate.
pub open spec fn num_pred() -> spec_fn(char) -> bool {
    |c: char| is_num_char(c)
}

/// The position after any whitespace run at `i`.
pub open spec fn ws_from(s: Seq<char>, i: int) -> int {
    scan_from(s, i, ws_pred())
}

/// The position after the number lexeme at `i`.
pub open spec fn num_from(s: Seq<char>, i: int) -> int {
    scan_from(s, i, num_pred())
}

/// The value of one hexadecimal digit, or -1.
pub open spec fn hex_val(c: char) -> int {
    let u = (c as u32) as int;
    if 48 <= u <= 57 {
        u - 48
    } else if 97 <= u <= 102 {
        u - 87
    } else if 65 <= u <= 70 {
        u - 55
    } else {
        -1
    }
}

/// The value of the four hexadecimal digits at `i`, or -1.
pub open spec fn hex4(s: Seq<char>, i: int) -> int {
    if 0 <= i && i + 4 <= s.len() {
        let a = hex_val(s[i]);
        let b = hex_val(s[i + 1]);
        let c = hex_val(s[i + 2]);
        let d = hex_val(s[i + 3]);
        if a >= 0 && b >= 0 && c >= 0 && d >= 0 {
            ((a * 16 + b) * 16 + c) * 16 + d
        } else {
            -1
        }
    } else {
        -1
    }
}

/// What the escape whose introducing character stands at `i` (just after
/// the backslash) denotes, and the position after it.  `\uXXXX` escapes
/// cover the basic plane directly and astral characters as a surrogate
/// pair; a lone surrogate is an error.
pub open spec fn spec_parse_esc(s: Seq<char>, i: int) -> Option<(char, int)> {
    if 0 <= i < s.len() {
        let c = s[i];
        if c == '"' {
            Some(('"', i + 1))
        } else if c == '\\' {
            Some(('\\', i + 1))
        } else if c == '/' {
            Some(('/', i + 1))
        } else if c == 'b' {
            Some(('\u{8}', i + 1))
        } else if c == 'f' {
            Some(('\u{c}', i + 1))
        } else if c == 'n' {
            Some(('\n', i + 1))
        } else if c == 'r' {
            Some(('\r', i + 1))
        } else if c == 't' {
            Some(('\t', i + 1))
        } else if c == 'u' {
            let u = hex4(s, i + 1);
            if u < 0 {
                None
            } else if 0xD800 <= u < 0xDC00 {
                if i + 7 <= s.len() && s[i + 5] == '\\' && s[i + 6] == 'u' {
                    let lo = hex4(s, i + 7);
                    if 0xDC00 <= lo < 0xE000 {
                        let scalar = 0x10000 + (u - 0xD800) * 0x400 + (lo - 0xDC00);
                        Some(((scalar as u32) as char, i + 11))
                    } else {
                        None
                    }
                } else {
                    None
                }
            } else if 0xDC00 <= u < 0xE000 {
                None
            } else {
                Some(((u as u32) as char, i + 5))
            }
        } else {
            None
        }
    } else {
        None
    }
}

/// The decoded body of a string from `i` up to its closing quote, and the
/// position after that quote.
pub open spec fn spec_parse_strbody(s: Seq<char>, i: int) -> Option<(Seq<char>, int)>
    decreases s.len() - i, 0int,
    when 0 <= i <= s.len()
{
    if i >= s.len() {
        None
    } else if s[i] == '"' {
        Some((Seq::empty(), i + 1))
    } else if s[i] == '\\' {
        match spec_parse_esc(s, i + 1) {
            None => None,
            Some((c, n)) => if i < n <= s.len() {
                match spec_parse_strbody(s, n) {
                    None => None,
                    Some((rest, e)) => Some((seq![c] + rest, e)),
                }
            } else {
                None
            },
        }
    } else {
        match spec_parse_strbody(s, i + 1) {
            None => None,
            Some((rest, e)) => Some((seq![s[i]] + rest, e)),
        }
    }
}

/// The value whose text begins (after whitespace) at `i`, and the position
/// just after it.
pub open spec fn spec_parse_value(s: Seq<char>, i: int) -> Option<(JsonV, int)>
    decreases s.len() - i, 2int,
    when 0 <= i <= s.len()
{
    let j = ws_from(s, i);
    if j >= s.len() {
        None
    } else {
        let c = s[j];
        if c == 'n' {
            if j + 4 <= s.len() && s[j + 1] == 'u' && s[j + 2] == 'l' && s[j + 3] == 'l' {
                Some((JsonV::Null, j + 4))
            } else {
                None
            }
        } else if c == 't' {
            if j + 4 <= s.len() && s[j + 1] == 'r' && s[j + 2] == 'u' && s[j + 3] == 'e' {
                Some((JsonV::Bool(true), j + 4))
            } else {
                None
            }
        } else if c == 'f' {
            if j + 5 <= s.len() && s[j + 1] == 'a' && s[j + 2] == 'l' && s[j + 3] == 's' && s[j + 4]
                == 'e' {
                Some((JsonV::Bool(false), j + 5))
            } else {
                None
            }
        } else if c == '"' {
            match spec_parse_strbody(s, j + 1) {
                None => None,
                Some((cs, e)) => Some((JsonV::Str(cs), e)),
            }
        } else if c == '[' {
            let j2 = ws_from(s, j + 1);
            if j2 < s.len() && s[j2] == ']' {
                Some((JsonV::Arr(Seq::empty()), j2 + 1))
            } else {
                match spec_parse_elems(s, j + 1) {
                    None => None,
                    Some((vs, e)) => Some((JsonV::Arr(vs), e)),
                }
            }
        } else if c == '{' {
            let j2 = ws_from(s, j + 1);
            if j2 < s.len() && s[j2] == '}' {
                Some((JsonV::Obj(Seq::empty()), j2 + 1))
            } else {
                match spec_parse_fields(s, j + 1) {
                    None => None,
                    Some((fs, e)) => Some((JsonV::Obj(fs), e)),
                }
            }
        } else if c == '-' || crate::num::is_digit(c) {
            let e = num_from(s, j);
            Some((JsonV::Num(s.subrange(j, e)), e))
        } else {
            None
        }
    }
}

/// One or more comma-separated array elements from `i` on, up to and
/// including the closing bracket.
pub open spec fn spec_parse_elems(s: Seq<char>, i: int) -> Option<(Seq<JsonV>, int)>
    decreases s.len() - i, 3int,
    when 0 <= i <= s.len()
{
    match spec_parse_value(s, i) {
        None => None,
        Some((v, a)) => if i < a <= s.len() {
            let j2 = ws_from(s, a);
            if j2 < s.len() && s[j2] == ',' {
                match spec_parse_elems(s, j2 + 1) {
                    None => None,
                    Some((vs, e)) => Some((seq![v] + vs, e)),
                }
            } else if j2 < s.len() && s[j2] == ']' {
                Some((seq![v], j2 + 1))
            } else {
                None
            }
        } else {
            None
        },
    }
}

/// One or more comma-separated object fields from `i` on, up to and
/// including the closing brace.
pub open spec fn spec_parse_fields(s: Seq<char>, i: int) -> Option<
    (Seq<(Seq<char>, JsonV)>, int),
>
    decreases s.len() - i, 3int,
    when 0 <= i <= s.len()
{
    let j = ws_from(s, i);
    if j < s.len() && s[j] == '"' {
        match spec_parse_strbody(s, j + 1) {
            None => None,
            Some((key, a)) => if j < a <= s.len() {
                let j2 = ws_from(s, a);
                if j2 < s.len() && s[j2] == ':' {
                    match spec_parse_value(s, j2 + 1) {
                        None => None,
                        Some((v, b)) => if i < b <= s.len() {
                            let j3 = ws_from(s, b);
                            if j3 < s.len() && s[j3] == ',' {
                                match spec_parse_fields(s, j3 + 1) {
                                    None => None,
                                    Some((fs, e)) => Some((seq![(key, v)] + fs, e)),
                                }
                            } else if j3 < s.len() && s[j3] == '}' {
                                Some((seq![(key, v)], j3 + 1))
                            } else {
                                None
                            }
                        } else {
                            None
                        },
                    }
                } else {
                    None
                }
            } else {
                None
            },
        }
    } else {
        None
    }
}

/// What a whole document denotes: one value with nothing but whitespace
/// around it.
pub open spec fn spec_parse_doc(s: Seq<char>) -> Option<JsonV> {
    match spec_parse_value(s, 0) {
        None => None,
        Some((v, e)) => if 0 <= e <= s.len() && ws_from(s, e) == s.len() {
            Some(v)
        } else {
            None
        },
    }
}

pub proof fn lemma_jviews_push(items: Seq<Json>, x: Json)
    ensures
        jviews(items.push(x)) == jviews(items) + seq![x.jview()],
    decreases items.len(),
{
    let p = items.push(x);
    if items.len() == 0 {
        assert(p[0] == x);
        assert(p.subrange(1, p.len() as int) =~= Seq::<Json>::empty());
        assert(jviews(Seq::<Json>::empty()) == Seq::<JsonV>::empty());
        assert(jviews(p) =~= jviews(items) + seq![x.jview()]);
    } else {
        assert(p[0] == items[0]);
        assert(p.subrange(1, p.len() as int) =~= items.subrange(1, items.len() as int).push(x));
        lemma_jviews_push(items.subrange(1, items.len() as int), x);
        assert(jviews(p) =~= jviews(items) + seq![x.jview()]);
    }
}

pub proof fn lemma_jview_fields_push(fields: Seq<(String, Json)>, x: (String, Json))
    ensures
        jview_fields(fields.push(x)) == jview_fields(fields) + seq![(x.0@, x.1.jview())],
    decreases fields.len(),
{
    let p = fields.push(x);
    if fields.len() == 0 {
        assert(p[0] == x);
        assert(p.subrange(1, p.len() as int) =~= Seq::<(String, Json)>::empty());
        assert(jview_fields(Seq::<(String, Json)>::empty()) == Seq::<(Seq<char>, JsonV)>::empty());
        assert(jview_fields(p) =~= jview_fields(fields) + seq![(x.0@, x.1.jview())]);
    } else {
        assert(p[0] == fields[0]);
        assert(p.subrange(1, p.len() as int) =~= fields.subrange(
            1,
            fields.len() as int,
        ).push(x));
        lemma_jview_fields_push(fields.subrange(1, fields.len() as int), x);
        assert(jview_fields(p) =~= jview_fields(fields) + seq![(x.0@, x.1.jview())]);
    }
}

/// Relies on `char::from_u32`: a Unicode scalar value converts to the
/// character with that code; surrogate-range and too-large values do not.
#[verifier::external_body]
fn char_from_u32(u: u32) -> (r: Option<char>)
    ensures
        r == (if vstd::utf8::is_scalar(u) {
            Some(u as char)
        } else {
            None::<char>
        }),
{
    char::from_u32(u)
}

/// Skips the characters satisfying `p` exactly as `scan_from` does; the
/// predicate argument pairs the runtime test with its spec meaning.
#[verifier::loop_isolation(false)]
fn skip_matching(v: &Vec<char>, i: usize, ws: bool) -> (r: usize)
    requires
        i <= v@.len(),
    ensures
        ws ==> r == ws_from(v@, i as int),
        !ws ==> r == num_from(v@, i as int),
        i <= r <= v@.len(),
{
    let ghost p = if ws {
        ws_pred()
    } else {
        num_pred()
    };
    let n = v.len();
    let mut k: usize = i;
    while k < n
        invariant
            i <= k <= n == v@.len(),
            forall|t: int| i <= t < k ==> p(v@[t]),
        decreases n - k,
    {
        let c = v[k];
        let hit = if ws {
            c == ' ' || c == '\t' || c == '\n' || c == '\r'
        } else {
            let u = c as u32;
            (48 <= u && u <= 57) || c == '-' || c == '+' || c == '.' || c == 'e' || c == 'E'
        };
        if !hit {
            proof {
                lemma_scan_eq(v@, i as int, p, k as int);
            }
            return k;
        }
        k += 1;
    }
    proof {
        lemma_scan_eq(v@, i as int, p, n as int);
    }
    n
}

/// The value of one hexadecimal digit, or -1.
fn hex_digit_val(c: char) -> (r: i32)
    ensures
        r as int == hex_val(c),
        -1 <= r <= 15,
{
    let u = c as u32;
    if 48 <= u && u <= 57 {
        (u - 48) as i32
    } else if 97 <= u && u <= 102 {
        (u - 87) as i32
    } else if 65 <= u && u <= 70 {
        (u - 55) as i32
    } else {
        -1
    }
}

/// Reads four hexadecimal digits.
fn hex4_exec(v: &Vec<char>, i: usize) -> (r: i32)
    ensures
        r as int == hex4(v@, i as int),
        -1 <= r as int <= 0xFFFF,
        r >= 0 ==> i + 4 <= v@.len(),
{
    if !(i <= v.len() && v.len() - i >= 4) {
        return -1;
    }
    let a = hex_digit_val(v[i]);
    let b = hex_digit_val(v[i + 1]);
    let c = hex_digit_val(v[i + 2]);
    let d = hex_digit_val(v[i + 3]);
    if a >= 0 && b >= 0 && c >= 0 && d >= 0 {
        ((a * 16 + b) * 16 + c) * 16 + d
    } else {
        -1
    }
}

/// Decodes the escape beginning (after the backslash) at `i`.
fn parse_esc(v: &Vec<char>, i: usize) -> (r: Option<(char, usize)>)
    requires
        i <= v@.len(),
    ensures
        match r {
            Some((c, n)) => spec_parse_esc(v@, i as int) == Some((c, n as int)) && i < n
                <= v@.len(),
            None => spec_parse_esc(v@, i as int) is None,
        },
{
    if i >= v.len() {
        return None;
    }
    let c = v[i];
    if c == '"' {
        Some(('"', i + 1))
    } else if c == '\\' {
        Some(('\\', i + 1))
    } else if c == '/' {
        Some(('/', i + 1))
    } else if c == 'b' {
        Some(('\u{8}', i + 1))
    } else if c == 'f' {
        Some(('\u{c}', i + 1))
    } else if c == 'n' {
        Some(('\n', i + 1))
    } else if c == 'r' {
        Some(('\r', i + 1))
    } else if c == 't' {
        Some(('\t', i + 1))
    } else if c == 'u' {
        let u = hex4_exec(v, i + 1);
        if u < 0 {
            None
        } else if 0xD800 <= u && u < 0xDC00 {
            if v.len() - i >= 7 && v[i + 5] == '\\' && v[i + 6] == 'u' {
                let lo = hex4_exec(v, i + 7);
                if 0xDC00 <= lo && lo < 0xE000 {
                    let scalar: u32 = (0x10000 + (u - 0xD800) * 0x400 + (lo - 0xDC00)) as u32;
                    match char_from_u32(scalar) {
                        Some(ch) => Some((ch, i + 11)),
                        None => {
                            proof {
                                assert(vstd::utf8::is_scalar(scalar));
                                assert(false);
                            }
                            None
                        },
                    }
                } else {
                    None
                }
            } else {
                None
            }
        } else if 0xDC00 <= u && u < 0xE000 {
            None
        } else {
            match char_from_u32(u as u32) {
                Some(ch) => Some((ch, i + 5)),
                None => {
                    proof {
                        assert(vstd::utf8::is_scalar(u as u32));
                        assert(false);
                    }
                    None
                },
            }
        }
    } else {
        None
    }
}

/// Decodes a string body up to its closing quote.
#[verifier::loop_isolation(false)]
fn parse_strbody(v: &Vec<char>, i: usize) -> (r: Option<(Vec<char>, usize)>)
    requires
        i <= v@.len(),
    ensures
        match r {
            Some((cs, e)) => spec_parse_strbody(v@, i as int) == Some((cs@, e as int)) && i < e
                <= v@.len(),
            None => spec_parse_strbody(v@, i as int) is None,
        },
{
    let mut acc: Vec<char> = Vec::new();
    let mut cur: usize = i;
    loop
        invariant
            i <= cur <= v@.len(),
            match spec_parse_strbody(v@, cur as int) {
                Some((rest, e)) => spec_parse_strbody(v@, i as int) == Some((acc@ + rest, e)),
                None => spec_parse_strbody(v@, i as int) is None,
            },
        decreases v@.len() - cur,
    {
        if cur >= v.len() {
            return None;
        }
        let c = v[cur];
        if c == '"' {
            proof {
                assert(spec_parse_strbody(v@, cur as int) == Some(
                    (Seq::<char>::empty(), cur + 1 as int),
                ));
                assert(acc@ + Seq::<char>::empty() =~= acc@);
            }
            return Some((acc, cur + 1));
        } else if c == '\\' {
            match parse_esc(v, cur + 1) {
                None => {
                    return None;
                },
                Some((d, n)) => {
                    if cur < n && n <= v.len() {
                        let ghost acc0 = acc@;
                        acc.push(d);
                        proof {
                            match spec_parse_strbody(v@, n as int) {
                                Some((rest, e)) => {
                                    assert(spec_parse_strbody(v@, cur as int) == Some(
                                        (seq![d] + rest, e),
                                    ));
                                    assert(acc0 + (seq![d] + rest) =~= acc@ + rest);
                                },
                                None => {},
                            }
                        }
                        cur = n;
                    } else {
                        return None;
                    }
                },
            }
        } else {
            let ghost acc0 = acc@;
            acc.push(c);
            proof {
                match spec_parse_strbody(v@, cur + 1 as int) {
                    Some((rest, e)) => {
                        assert(spec_parse_strbody(v@, cur as int) == Some((seq![c] + rest, e)));
                        assert(acc0 + (seq![c] + rest) =~= acc@ + rest);
                    },
                    None => {},
                }
            }
            cur = cur + 1;
        }
    }
}

/// Parses the value beginning (after whitespace) at `i`.
#[verifier::loop_isolation(false)]
pub fn parse_value(v: &Vec<char>, i: usize) -> (r: Option<(Json, usize)>)
    requires
        i <= v@.len(),
    ensures
        match r {
            Some((j, e)) => spec_parse_value(v@, i as int) == Some((j.jview(), e as int)) && i < e
                <= v@.len(),
            None => spec_parse_value(v@, i as int) is None,
        },
    decreases v@.len() - i,
{
    let j = skip_matching(v, i, true);
    if j >= v.len() {
        return None;
    }
    let c = v[j];
    if c == 'n' {
        if v.len() - j >= 4 && v[j + 1] == 'u' && v[j + 2] == 'l' && v[j + 3] == 'l' {
            Some((Json::Null, j + 4))
        } else {
            None
        }
    } else if c == 't' {
        if v.len() - j >= 4 && v[j + 1] == 'r' && v[j + 2] == 'u' && v[j + 3] == 'e' {
            Some((Json::Bool(true), j + 4))
        } else {
            None
        }
    } else if c == 'f' {
        if v.len() - j >= 5 && v[j + 1] == 'a' && v[j + 2] == 'l' && v[j + 3] == 's' && v[j + 4]
            == 'e' {
            Some((Json::Bool(false), j + 5))
        } else {
            None
        }
    } else if c == '"' {
        match parse_strbody(v, j + 1) {
            None => None,
            Some((cs, e)) => Some((Json::Str(chars_to_string(&cs)), e)),
        }
    } else if c == '[' {
        let j2 = skip_matching(v, j + 1, true);
        if j2 < v.len() && v[j2] == ']' {
            proof {
                lemma_jviews_props(Seq::<Json>::empty());
                assert(jviews(Seq::<Json>::empty()) =~= Seq::<JsonV>::empty());
            }
            return Some((Json::Arr(Vec::new()), j2 + 1));
        }
        let ghost start = (j + 1) as int;
        let mut items: Vec<Json> = Vec::new();
        let mut cur: usize = j + 1;
        proof {
            assert(jviews(items@) =~= Seq::<JsonV>::empty());
        }
        loop
            invariant
                start <= cur <= v@.len(),
                i < cur,
                match spec_parse_elems(v@, cur as int) {
                    Some((vs, e)) => spec_parse_elems(v@, start) == Some((jviews(items@) + vs, e)),
                    None => spec_parse_elems(v@, start) is None,
                },
            decreases v@.len() - cur,
        {
            match parse_value(v, cur) {
                None => {
                    return None;
                },
                Some((item, a)) => {
                    let ghost items0 = items@;
                    let ghost itemv = item.jview();
                    items.push(item);
                    proof {
                        lemma_jviews_push(items0, items@[items0.len() as int]);
                    }
                    let j2 = skip_matching(v, a, true);
                    if j2 < v.len() && v[j2] == ',' {
                        proof {
                            match spec_parse_elems(v@, j2 + 1 as int) {
                                Some((vs2, e2)) => {
                                    assert(spec_parse_elems(v@, cur as int) == Some(
                                        (seq![itemv] + vs2, e2),
                                    ));
                                    assert(jviews(items0) + (seq![itemv] + vs2) =~= jviews(items@)
                                        + vs2);
                                },
                                None => {},
                            }
                        }
                        cur = j2 + 1;
                    } else if j2 < v.len() && v[j2] == ']' {
                        proof {
                            assert(spec_parse_elems(v@, cur as int) == Some(
                                (seq![itemv], j2 + 1 as int),
                            ));
                            assert(jviews(items0) + seq![itemv] =~= jviews(items@));
                        }
                        return Some((Json::Arr(items), j2 + 1));
                    } else {
                        return None;
                    }
                },
            }
        }
    } else if c == '{' {
        let j2 = skip_matching(v, j + 1, true);
        if j2 < v.len() && v[j2] == '}' {
            proof {
                assert(jview_fields(Seq::<(String, Json)>::empty()) =~= Seq::<
                    (Seq<char>, JsonV),
                >::empty());
            }
            return Some((Json::Obj(Vec::new()), j2 + 1));
        }
        let ghost start = (j + 1) as int;
        let mut fields: Vec<(String, Json)> = Vec::new();
        let mut cur: usize = j + 1;
        proof {
            assert(jview_fields(fields@) =~= Seq::<(Seq<char>, JsonV)>::empty());
        }
        loop
            invariant
                start <= cur <= v@.len(),
                i < cur,
                match spec_parse_fields(v@, cur as int) {
                    Some((fs, e)) => spec_parse_fields(v@, start) == Some(
                        (jview_fields(fields@) + fs, e),
                    ),
                    None => spec_parse_fields(v@, start) is None,
                },
            decreases v@.len() - cur,
        {
            let jk = skip_matching(v, cur, true);
            if !(jk < v.len() && v[jk] == '"') {
                return None;
            }
            match parse_strbody(v, jk + 1) {
                None => {
                    return None;
                },
                Some((keycs, a)) => {
                    let jc = skip_matching(v, a, true);
                    if !(jc < v.len() && v[jc] == ':') {
                        return None;
                    }
                    match parse_value(v, jc + 1) {
                        None => {
                            return None;
                        },
                        Some((val, b)) => {
                            let ghost fields0 = fields@;
                            let ghost keyv = keycs@;
                            let ghost valv = val.jview();
                            let key = chars_to_string(&keycs);
                            fields.push((key, val));
                            proof {
                                lemma_jview_fields_push(
                                    fields0,
                                    fields@[fields0.len() as int],
                                );
                            }
                            let j3 = skip_matching(v, b, true);
                            if j3 < v.len() && v[j3] == ',' {
                                proof {
                                    match spec_parse_fields(v@, j3 + 1 as int) {
                                        Some((fs2, e2)) => {
                                            assert(spec_parse_fields(v@, cur as int) == Some(
                                                (seq![(keyv, valv)] + fs2, e2),
                                            ));
                                            assert(jview_fields(fields0) + (seq![(keyv, valv)]
                                                + fs2) =~= jview_fields(fields@) + fs2);
                                        },
                                        None => {},
                                    }
                                }
                                cur = j3 + 1;
                            } else if j3 < v.len() && v[j3] == '}' {
                                proof {
                                    assert(spec_parse_fields(v@, cur as int) == Some(
                                        (seq![(keyv, valv)], j3 + 1 as int),
                                    ));
                                    assert(jview_fields(fields0) + seq![(keyv, valv)]
                                        =~= jview_fields(fields@));
                                }
                                return Some((Json::Obj(fields), j3 + 1));
                            } else {
                                return None;
                            }
                        },
                    }
                },
            }
        }
    } else {
        let u = c as u32;
        if c == '-' || (48 <= u && u <= 57) {
            let e = skip_matching(v, j, false);
            proof {
                lemma_scan_props(v@, j as int, num_pred());
            }
            let lex = chars_range(v, j, e);
            Some((Json::Num(chars_to_string(&lex)), e))
        } else {
            None
        }
    }
}

/// Parses a whole document: one value with only whitespace around it.
pub fn parse_json_text(s: &str) -> (r: Option<Json>)
    ensures
        match r {
            Some(j) => spec_parse_doc(s@) == Some(j.jview()),
            None => spec_parse_doc(s@) is None,
        },
{
    let v = str_to_chars(s);
    match parse_value(&v, 0) {
        None => None,
        Some((j, e)) => {
            let t = skip_matching(&v, e, true);
            if t == v.len() {
                Some(j)
            } else {
                None
            }
        },
    }
}

/// A value whose canonical text parses back: everything but numbers,
/// whose lexemes the emitter does not inspect.
pub open spec fn emit_safe(v: JsonV) -> bool
    decreases v, 0int,
{
    match v {
        JsonV::Null => true,
        JsonV::Bool(_) => true,
        JsonV::Num(_) => false,
        JsonV::Str(_) => true,
        JsonV::Arr(items) => emit_safe_seq(items),
        JsonV::Obj(fields) => emit_safe_fields(fields),
    }
}

/// Every element safe.
pub open spec fn emit_safe_seq(items: Seq<JsonV>) -> bool
    decreases items, items.len(),
{
    if items.len() == 0 {
        true
    } else {
        emit_safe(items[0]) && emit_safe_seq(items.subrange(1, items.len() as int))
    }
}

/// Every field value safe.
pub open spec fn emit_safe_fields(fields: Seq<(Seq<char>, JsonV)>) -> bool
    decreases fields, fields.len(),
{
    if fields.len() == 0 {
        true
    } else {
        emit_safe(fields[0].1) && emit_safe_fields(fields.subrange(1, fields.len() as int))
    }
}

pub proof fn lemma_emit_safe_seq_index(items: Seq<JsonV>, t: int)
    requires
        emit_safe_seq(items),
        0 <= t < items.len(),
    ensures
        emit_safe(items[t]),
    decreases t,
{
    if t > 0 {
        assert(items.subrange(1, items.len() as int)[t - 1] == items[t]);
        lemma_emit_safe_seq_index(items.subrange(1, items.len() as int), t - 1);
    }
}

pub proof fn lemma_emit_safe_fields_index(fields: Seq<(Seq<char>, JsonV)>, t: int)
    requires
        emit_safe_fields(fields),
        0 <= t < fields.len(),
    ensures
        emit_safe(fields[t].1),
    decreases t,
{
    if t > 0 {
        assert(fields.subrange(1, fields.len() as int)[t - 1] == fields[t]);
        lemma_emit_safe_fields_index(fields.subrange(1, fields.len() as int), t - 1);
    }
}

/// What a subrange equality says of each character.
pub proof fn lemma_subrange_index(s: Seq<char>, i: int, e: Seq<char>)
    requires
        0 <= i,
        i + e.len() <= s.len(),
        s.subrange(i, i + e.len()) == e,
    ensures
        forall|j: int| i <= j < i + e.len() ==> s[j] == e[j - i],
{
    assert forall|j: int| i <= j < i + e.len() implies s[j] == e[j - i] by {
        assert(e[j - i] == s.subrange(i, i + e.len())[j - i]);
    }
}

/// Scanning stops at once on a non-matching position, and stops at the
/// end of the text.
pub proof fn lemma_ws_at(s: Seq<char>, j: int)
    requires
        0 <= j <= s.len(),
        j < s.len() ==> !is_json_ws(s[j]),
    ensures
        ws_from(s, j) == j,
{
    lemma_scan_props(s, j, ws_pred());
    if j < s.len() {
        assert(!ws_pred()(s[j]));
    }
}

/// The first character of a safe value's text: never whitespace and never
/// a closing delimiter or separator.
pub proof fn lemma_emit_first(v: JsonV)
    requires
        emit_safe(v),
    ensures
        spec_emit(v).len() >= 1,
        !is_json_ws(spec_emit(v)[0]),
        spec_emit(v)[0] != ']',
        spec_emit(v)[0] != '}',
        spec_emit(v)[0] != ',',
        spec_emit(v)[0] != ':',
{
    match v {
        JsonV::Null => {
            reveal_strlit("null");
        },
        JsonV::Bool(b) => {
            reveal_strlit("true");
            reveal_strlit("false");
        },
        JsonV::Num(_) => {},
        JsonV::Str(_) => {},
        JsonV::Arr(_) => {},
        JsonV::Obj(_) => {},
    }
}

/// The value of an emitted hexadecimal digit.
pub proof fn lemma_hex_digit_val(d: int)
    requires
        0 <= d < 16,
    ensures
        hex_val(hex_digit(d)) == d,
{
}

/// Parsing an escaped string body at the position just after its opening
/// quote yields the original content and stops just after the closing
/// quote.
#[verifier::spinoff_prover]
#[verifier::rlimit(100)]
pub proof fn lemma_parse_strbody_emit(cs: Seq<char>, s: Seq<char>, i: int)
    requires
        0 <= i,
        i + esc_str(cs).len() + 1 <= s.len(),
        s.subrange(i, i + esc_str(cs).len() + 1) == esc_str(cs) + seq!['"'],
    ensures
        spec_parse_strbody(s, i) == Some((cs, i + esc_str(cs).len() + 1)),
    decreases cs.len(),
{
    let e = esc_str(cs) + seq!['"'];
    lemma_subrange_index(s, i, e);
    if cs.len() == 0 {
        assert(s[i] == '"');
    } else {
        let c = cs[0];
        let rest = cs.drop_first();
        let w = esc_char(c).len();
        assert(esc_str(cs) == esc_char(c) + esc_str(rest));
        assert(forall|k: int| 0 <= k < w ==> e[k] == esc_char(c)[k]);
        let e2 = esc_str(rest) + seq!['"'];
        assert(s.subrange(i + w, i + w + e2.len()) =~= e2) by {
            assert forall|k: int| 0 <= k < e2.len() implies s.subrange(
                i + w,
                i + w + e2.len(),
            )[k] == e2[k] by {
                assert(s[i + w + k] == e[(i + w + k) - i]);
                assert(e[w + k] == e2[k]);
            }
        }
        lemma_parse_strbody_emit(rest, s, i + w);
        assert(seq![c] + rest =~= cs);
        if c == '"' {
            assert(s[i] == '\\' && s[i + 1] == '"');
            assert(spec_parse_esc(s, i + 1) == Some((c, i + 2)));
        } else if c == '\\' {
            assert(s[i] == '\\' && s[i + 1] == '\\');
            assert(spec_parse_esc(s, i + 1) == Some((c, i + 2)));
        } else if c == '\n' {
            assert(s[i] == '\\' && s[i + 1] == 'n');
            assert(spec_parse_esc(s, i + 1) == Some((c, i + 2)));
        } else if c == '\r' {
            assert(s[i] == '\\' && s[i + 1] == 'r');
            assert(spec_parse_esc(s, i + 1) == Some((c, i + 2)));
        } else if c == '\t' {
            assert(s[i] == '\\' && s[i + 1] == 't');
            assert(spec_parse_esc(s, i + 1) == Some((c, i + 2)));
        } else if (c as u32) < 0x20 {
            let u = (c as u32) as int;
            assert(s[i] == '\\' && s[i + 1] == 'u' && s[i + 2] == '0' && s[i + 3] == '0');
            assert(s[i + 4] == hex_digit(u / 16) && s[i + 5] == hex_digit(u % 16));
            lemma_hex_digit_val(u / 16);
            lemma_hex_digit_val(u % 16);
            assert(hex_val(s[i + 2]) == 0 && hex_val(s[i + 3]) == 0);
            assert(hex4(s, i + 2) == ((0 * 16 + 0) * 16 + u / 16) * 16 + u % 16);
            assert(hex4(s, i + 2) == u);
            vstd::utf8::char_u32_cast(c, c as u32);
            assert(spec_parse_esc(s, i + 1) == Some((c, i + 6)));
        } else {
            assert(s[i] == c);
        }
    }
}

/// Parsing the canonical text of a safe value, wherever it stands, yields
/// the value back and stops just after it.
#[verifier::spinoff_prover]
#[verifier::rlimit(100)]
pub proof fn lemma_parse_emit(v: JsonV, s: Seq<char>, i: int)
    requires
        emit_safe(v),
        0 <= i,
        i + spec_emit(v).len() <= s.len(),
        s.subrange(i, i + spec_emit(v).len()) == spec_emit(v),
    ensures
        spec_parse_value(s, i) == Some((v, i + spec_emit(v).len())),
    decreases v, 0int, 0int,
{
    let e = spec_emit(v);
    lemma_subrange_index(s, i, e);
    lemma_emit_first(v);
    lemma_ws_at(s, i);
    match v {
        JsonV::Null => {
            reveal_strlit("null");
            assert(e.len() == 4);
            assert(ws_from(s, i) == i);
            assert(s[i] == 'n');
            assert(s[i + 1] == 'u');
            assert(s[i + 2] == 'l');
            assert(s[i + 3] == 'l');
            assert(spec_parse_value(s, i) == Some((JsonV::Null, i + 4)));
        },
        JsonV::Bool(b) => {
            if b {
                reveal_strlit("true");
                assert(s[i] == 't' && s[i + 1] == 'r' && s[i + 2] == 'u' && s[i + 3] == 'e');
            } else {
                reveal_strlit("false");
                assert(s[i] == 'f' && s[i + 1] == 'a' && s[i + 2] == 'l' && s[i + 3] == 's' && s[i
                    + 4] == 'e');
            }
            assert(spec_parse_value(s, i) == Some((v, i + e.len())));
        },
        JsonV::Num(_) => {},
        JsonV::Str(cs) => {
            assert(s[i] == '"');
            let e2 = esc_str(cs) + seq!['"'];
            assert(s.subrange(i + 1, i + 1 + e2.len()) =~= e2) by {
                assert forall|k: int| 0 <= k < e2.len() implies s.subrange(
                    i + 1,
                    i + 1 + e2.len(),
                )[k] == e2[k] by {
                    assert(s[i + 1 + k] == e[(i + 1 + k) - i]);
                }
            }
            lemma_parse_strbody_emit(cs, s, i + 1);
            assert(spec_parse_value(s, i) == Some((v, i + e.len())));
        },
        JsonV::Arr(items) => {
            assert(s[i] == '[');
            if items.len() == 0 {
                assert(s[i + 1] == ']');
                lemma_ws_at(s, i + 1);
                assert(items =~= Seq::<JsonV>::empty());
                assert(spec_parse_value(s, i) == Some((v, i + e.len())));
            } else {
                let e2 = spec_emit_items(items, 0) + seq![']'];
                assert(s.subrange(i + 1, i + 1 + e2.len()) =~= e2) by {
                    assert forall|k: int| 0 <= k < e2.len() implies s.subrange(
                        i + 1,
                        i + 1 + e2.len(),
                    )[k] == e2[k] by {
                        assert(s[i + 1 + k] == e[(i + 1 + k) - i]);
                    }
                }
                lemma_emit_safe_seq_index(items, 0);
                lemma_emit_first(items[0]);
                assert(e2[0] == spec_emit(items[0])[0]);
                assert(s[i + 1] == spec_emit(items[0])[0]);
                lemma_ws_at(s, i + 1);
                lemma_parse_elems_emit(items, 0, s, i + 1);
                assert(items.subrange(0, items.len() as int) =~= items);
                assert(spec_parse_value(s, i) == Some((v, i + e.len())));
            }
        },
        JsonV::Obj(fields) => {
            assert(s[i] == '{');
            if fields.len() == 0 {
                assert(s[i + 1] == '}');
                lemma_ws_at(s, i + 1);
                assert(fields =~= Seq::<(Seq<char>, JsonV)>::empty());
                assert(spec_parse_value(s, i) == Some((v, i + e.len())));
            } else {
                let e2 = spec_emit_fields(fields, 0) + seq!['}'];
                assert(s.subrange(i + 1, i + 1 + e2.len()) =~= e2) by {
                    assert forall|k: int| 0 <= k < e2.len() implies s.subrange(
                        i + 1,
                        i + 1 + e2.len(),
                    )[k] == e2[k] by {
                        assert(s[i + 1 + k] == e[(i + 1 + k) - i]);
                    }
                }
                assert(e2[0] == '"');
                assert(s[i + 1] == '"');
                lemma_ws_at(s, i + 1);
                lemma_parse_fields_emit(fields, 0, s, i + 1);
                assert(fields.subrange(0, fields.len() as int) =~= fields);
                assert(spec_parse_value(s, i) == Some((v, i + e.len())));
            }
        },
    }
}

/// Parsing the comma-separated texts of the elements from `k` on, followed
/// by the closing bracket, yields those elements.
#[verifier::spinoff_prover]
#[verifier::rlimit(100)]
pub proof fn lemma_parse_elems_emit(items: Seq<JsonV>, k: int, s: Seq<char>, i: int)
    requires
        emit_safe_seq(items),
        0 <= k < items.len(),
        0 <= i,
        i + spec_emit_items(items, k).len() + 1 <= s.len(),
        s.subrange(i, i + spec_emit_items(items, k).len() + 1) == spec_emit_items(items, k)
            + seq![']'],
    ensures
        spec_parse_elems(s, i) == Some(
            (items.subrange(k, items.len() as int), i + spec_emit_items(items, k).len() + 1),
        ),
    decreases items, items.len() - k, 1int,
{
    let e = spec_emit_items(items, k) + seq![']'];
    lemma_subrange_index(s, i, e);
    lemma_emit_safe_seq_index(items, k);
    let ev = spec_emit(items[k]);
    let w = ev.len();
    assert(s.subrange(i, i + w) =~= ev) by {
        assert forall|k2: int| 0 <= k2 < w implies s.subrange(i, i + w)[k2] == ev[k2] by {
            assert(s[i + k2] == e[(i + k2) - i]);
            assert(e[k2] == ev[k2]);
        }
    }
    lemma_parse_emit(items[k], s, i);
    let a = i + w;
    lemma_emit_first(items[k]);
    if k + 1 < items.len() {
        assert(s[a] == ',');
        lemma_ws_at(s, a);
        let e2 = spec_emit_items(items, k + 1) + seq![']'];
        assert(s.subrange(a + 1, a + 1 + e2.len()) =~= e2) by {
            assert forall|k2: int| 0 <= k2 < e2.len() implies s.subrange(
                a + 1,
                a + 1 + e2.len(),
            )[k2] == e2[k2] by {
                assert(s[a + 1 + k2] == e[(a + 1 + k2) - i]);
            }
        }
        lemma_parse_elems_emit(items, k + 1, s, a + 1);
        assert(seq![items[k]] + items.subrange(k + 1, items.len() as int) =~= items.subrange(
            k,
            items.len() as int,
        ));
    } else {
        assert(s[a] == ']');
        lemma_ws_at(s, a);
        assert(seq![items[k]] =~= items.subrange(k, items.len() as int));
    }
}

/// What stands at each position of one emitted field: the quoted key,
/// the colon, the value, and the following separator or closing brace.
#[verifier::spinoff_prover]
#[verifier::rlimit(100)]
pub proof fn lemma_parse_field_head(fields: Seq<(Seq<char>, JsonV)>, k: int, s: Seq<char>, i: int)
    requires
        emit_safe_fields(fields),
        0 <= k < fields.len(),
        0 <= i,
        i + spec_emit_fields(fields, k).len() + 1 <= s.len(),
        s.subrange(i, i + spec_emit_fields(fields, k).len() + 1) == spec_emit_fields(fields, k)
            + seq!['}'],
    ensures
        ({
            let key = fields[k].0;
            let kw = esc_str(key).len();
            let a = i + 2 + kw;
            let b = a + 1 + spec_emit(fields[k].1).len();
            &&& ws_from(s, i) == i
            &&& s[i] == '"'
            &&& spec_parse_strbody(s, i + 1) == Some((key, a))
            &&& s[a] == ':'
            &&& ws_from(s, a) == a
            &&& spec_parse_value(s, a + 1) == Some((fields[k].1, b))
            &&& b <= s.len()
            &&& (k + 1 < fields.len() ==> b + 1 <= s.len() && s[b] == ',' && s.subrange(
                b + 1,
                i + spec_emit_fields(fields, k).len() + 1,
            ) == spec_emit_fields(fields, k + 1) + seq!['}'])
            &&& (k + 1 >= fields.len() ==> s[b] == '}' && b + 1 == i + spec_emit_fields(
                fields,
                k,
            ).len() + 1)
        }),
    decreases fields, fields.len() - k, 0int,
{
    let e = spec_emit_fields(fields, k) + seq!['}'];
    lemma_subrange_index(s, i, e);
    lemma_emit_safe_fields_index(fields, k);
    let key = fields[k].0;
    let kw = esc_str(key).len();
    assert(s[i] == '"');
    lemma_ws_at(s, i);
    let ekey = esc_str(key) + seq!['"'];
    assert(s.subrange(i + 1, i + 1 + ekey.len()) =~= ekey) by {
        assert forall|k2: int| 0 <= k2 < ekey.len() implies s.subrange(
            i + 1,
            i + 1 + ekey.len(),
        )[k2] == ekey[k2] by {
            assert(s[i + 1 + k2] == e[(i + 1 + k2) - i]);
        }
    }
    lemma_parse_strbody_emit(key, s, i + 1);
    let a = i + 1 + kw + 1;
    assert(s[a] == ':');
    lemma_ws_at(s, a);
    let ev = spec_emit(fields[k].1);
    let w = ev.len();
    assert(s.subrange(a + 1, a + 1 + w) =~= ev) by {
        assert forall|k2: int| 0 <= k2 < w implies s.subrange(a + 1, a + 1 + w)[k2] == ev[k2] by {
            assert(s[a + 1 + k2] == e[(a + 1 + k2) - i]);
        }
    }
    lemma_parse_emit(fields[k].1, s, a + 1);
    let b = a + 1 + w;
    if k + 1 < fields.len() {
        assert(s[b] == ',');
        let e2 = spec_emit_fields(fields, k + 1) + seq!['}'];
        assert(s.subrange(b + 1, b + 1 + e2.len()) =~= e2) by {
            assert forall|k2: int| 0 <= k2 < e2.len() implies s.subrange(
                b + 1,
                b + 1 + e2.len(),
            )[k2] == e2[k2] by {
                assert(s[b + 1 + k2] == e[(b + 1 + k2) - i]);
            }
        }
    } else {
        assert(s[b] == '}');
    }
}

/// Parsing the comma-separated texts of the fields from `k` on, followed
/// by the closing brace, yields those fields.
#[verifier::spinoff_prover]
#[verifier::rlimit(100)]
pub proof fn lemma_parse_fields_emit(fields: Seq<(Seq<char>, JsonV)>, k: int, s: Seq<char>, i: int)
    requires
        emit_safe_fields(fields),
        0 <= k < fields.len(),
        0 <= i,
        i + spec_emit_fields(fields, k).len() + 1 <= s.len(),
        s.subrange(i, i + spec_emit_fields(fields, k).len() + 1) == spec_emit_fields(fields, k)
            + seq!['}'],
    ensures
        spec_parse_fields(s, i) == Some(
            (fields.subrange(k, fields.len() as int), i + spec_emit_fields(fields, k).len() + 1),
        ),
    decreases fields, fields.len() - k, 1int,
{
    lemma_parse_field_head(fields, k, s, i);
    let key = fields[k].0;
    let kw = esc_str(key).len();
    let a = i + 2 + kw;
    let b = a + 1 + spec_emit(fields[k].1).len();
    if k + 1 < fields.len() {
        lemma_ws_at(s, b);
        lemma_parse_fields_emit(fields, k + 1, s, b + 1);
        assert(seq![fields[k]] + fields.subrange(k + 1, fields.len() as int) =~= fields.subrange(
            k,
            fields.len() as int,
        ));
    } else {
        lemma_ws_at(s, b);
        assert(seq![fields[k]] =~= fields.subrange(k, fields.len() as int));
    }
}

/// Parsing the canonical text of a safe value as a whole document yields
/// the value back.
pub proof fn lemma_parse_doc_emit(v: JsonV)
    requires
        emit_safe(v),
    ensures
        spec_parse_doc(spec_emit(v)) == Some(v),
{
    let s = spec_emit(v);
    assert(s.subrange(0, s.len() as int) =~= s);
    lemma_parse_emit(v, s, 0);
    lemma_ws_at(s, s.len() as int);
}

/// The canonical text of a value, as a string.
pub fn json_to_string(j: &Json) -> (r: String)
    ensures
        r@ == spec_emit(j.jview()),
{
    let mut out: Vec<char> = Vec::new();
    write_json(j, &mut out);
    proof {
        assert(Seq::<char>::empty() + spec_emit(j.jview()) =~= spec_emit(j.jview()));
    }
    chars_to_string(&out)
}

} // verus!
