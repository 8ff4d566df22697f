//! Character-level text utilities shared by the interpreter and the codec.
//!
//! All reasoning is done over `Seq<char>`, the view of `String` and `&str`.

use vstd::prelude::*;

verus! {

use vstd::string::StringSliceAdditionalSpecFns;
use vstd::std_specs::iter::IteratorSpec;

broadcast use vstd::string::axiom_spec_iter, vstd::string::next_postcondition;

/// Collects the characters of a string slice into a vector.
pub fn str_to_chars(s: &str) -> (r: Vec<char>)
    ensures
        r@ == s@,
{
    let mut it = s.chars();
    let mut out: Vec<char> = Vec::new();
    loop
        invariant
            it.obeys_prophetic_iter_laws(),
            it.decrease() is Some,
            out@ + it.remaining() == s@,
        ensures
            out@ == s@,
        decreases it.decrease()->0,
    {
        match it.next() {
            Some(c) => {
                out.push(c);
            },
            None => {
                proof {
                    assert(out@ =~= s@);
                }
                break ;
            },
        }
    }
    out
}

/// Relies on `<String as FromIterator<&char>>::from_iter` (reached
/// through `Iterator::collect`): the resulting string holds exactly the
/// given characters, in order.
#[verifier::external_body]
pub fn chars_to_string(v: &Vec<char>) -> (r: String)
    ensures
        r@ == v@,
{
    v.iter().collect()
}

/// Compares two string slices character for character.
pub fn str_eq(a: &str, b: &str) -> (r: bool)
    ensures
        r == (a@ == b@),
{
    broadcast use vstd::utf8::encode_utf8_decode_utf8;

    let ab = a.as_bytes();
    let bb = b.as_bytes();
    if ab.len() != bb.len() {
        proof {
            assert(a@ != b@) by {
                if a@ == b@ {
                    assert(ab@ == bb@);
                }
            }
        }
        return false;
    }
    let n = ab.len();
    let mut i: usize = 0;
    while i < n
        invariant
            n == ab@.len(),
            n == bb@.len(),
            i <= n,
            ab@ == a.spec_bytes(),
            bb@ == b.spec_bytes(),
            forall|k: int| 0 <= k < i ==> ab@[k] == bb@[k],
        decreases n - i,
    {
        if ab[i] != bb[i] {
            proof {
                assert(a@ != b@) by {
                    if a@ == b@ {
                        assert(ab@ == bb@);
                    }
                }
            }
            return false;
        }
        i += 1;
    }
    proof {
        assert(ab@ =~= bb@);
        assert(vstd::utf8::decode_utf8(vstd::utf8::encode_utf8(a@)) == a@);
        assert(vstd::utf8::decode_utf8(vstd::utf8::encode_utf8(b@)) == b@);
    }
    true
}

/// Copies the characters of `v` between `a` (inclusive) and `b` (exclusive).
pub fn chars_range(v: &Vec<char>, a: usize, b: usize) -> (r: Vec<char>)
    requires
        a <= b <= v@.len(),
    ensures
        r@ == v@.subrange(a as int, b as int),
{
    let mut out: Vec<char> = Vec::new();
    let mut i: usize = a;
    while i < b
        invariant
            a <= i <= b <= v@.len(),
            out@ == v@.subrange(a as int, i as int),
        decreases b - i,
    {
        out.push(v[i]);
        proof {
            assert(out@ =~= v@.subrange(a as int, i + 1 as int));
        }
        i += 1;
    }
    out
}

/// The smallest index at or after `i` holding `c`, if any.
pub open spec fn find_from(s: Seq<char>, c: char, i: int) -> Option<int>
    decreases s.len() - i,
    when 0 <= i <= s.len()
{
    if i >= s.len() {
        None
    } else if s[i] == c {
        Some(i)
    } else {
        find_from(s, c, i + 1)
    }
}

pub proof fn lemma_find_from_none(s: Seq<char>, c: char, i: int)
    requires
        0 <= i <= s.len(),
        forall|k: int| i <= k < s.len() ==> s[k] != c,
    ensures
        find_from(s, c, i) is None,
    decreases s.len() - i,
{
    if i < s.len() {
        lemma_find_from_none(s, c, i + 1);
    }
}

pub proof fn lemma_find_from_some(s: Seq<char>, c: char, i: int, j: int)
    requires
        0 <= i <= j < s.len(),
        s[j] == c,
        forall|k: int| i <= k < j ==> s[k] != c,
    ensures
        find_from(s, c, i) == Some(j),
    decreases s.len() - i,
{
    if i < j {
        lemma_find_from_some(s, c, i + 1, j);
    }
}

/// What the found position means: it holds `c` and nothing before it does.
pub proof fn lemma_find_from_props(s: Seq<char>, c: char, i: int)
    requires
        0 <= i <= s.len(),
    ensures
        match find_from(s, c, i) {
            Some(j) => i <= j < s.len() && s[j] == c && (forall|k: int| i <= k < j ==> s[k] != c),
            None => forall|k: int| i <= k < s.len() ==> s[k] != c,
        },
    decreases s.len() - i,
{
    if i < s.len() {
        if s[i] != c {
            lemma_find_from_props(s, c, i + 1);
        }
    }
}

/// Scans forward for a character, reporting the first position holding it.
pub fn find_char_from(v: &Vec<char>, c: char, from: usize) -> (r: Option<usize>)
    requires
        from <= v@.len(),
    ensures
        match r {
            Some(j) => find_from(v@, c, from as int) == Some(j as int) && from <= j < v@.len()
                && v@[j as int] == c,
            None => find_from(v@, c, from as int) is None,
        },
{
    let n = v.len();
    let mut i: usize = from;
    while i < n
        invariant
            from <= i <= n == v@.len(),
            forall|k: int| from <= k < i ==> v@[k] != c,
        decreases n - i,
    {
        if v[i] == c {
            proof {
                lemma_find_from_some(v@, c, from as int, i as int);
            }
            return Some(i);
        }
        i += 1;
    }
    proof {
        lemma_find_from_none(v@, c, from as int);
    }
    None
}

/// A piece of a split line with a trailing carriage return removed.
pub open spec fn strip_cr(p: Seq<char>) -> Seq<char> {
    if p.len() > 0 && p[p.len() - 1] == '\r' {
        p.drop_last()
    } else {
        p
    }
}

/// The lines of `s` from position `i` on: pieces split at `'\n'`, each with
/// a trailing `'\r'` removed, the empty piece after a final newline dropped.
pub open spec fn spec_lines_from(s: Seq<char>, i: int) -> Seq<Seq<char>>
    decreases s.len() - i,
    when 0 <= i <= s.len()
{
    if i >= s.len() {
        Seq::empty()
    } else {
        match find_from(s, '\n', i) {
            None => seq![strip_cr(s.subrange(i, s.len() as int))],
            Some(j) => if i <= j < s.len() {
                seq![strip_cr(s.subrange(i, j))] + spec_lines_from(s, j + 1)
            } else {
                Seq::empty()
            },
        }
    }
}

/// The lines of a text, as `str::lines` yields them.
pub open spec fn spec_lines(s: Seq<char>) -> Seq<Seq<char>> {
    spec_lines_from(s, 0)
}

/// Removes a trailing carriage return from one split piece.
fn strip_cr_exec(p: Vec<char>) -> (r: Vec<char>)
    ensures
        r@ == strip_cr(p@),
{
    let ghost p0 = p@;
    let mut p = p;
    let n = p.len();
    if n > 0 && p[n - 1] == '\r' {
        let _ = p.pop();
        proof {
            assert(p@ =~= strip_cr(p0));
        }
    }
    p
}

/// Splits a text into its lines.
pub fn split_lines(v: &Vec<char>) -> (r: Vec<Vec<char>>)
    ensures
        r@.len() == spec_lines(v@).len(),
        forall|k: int| 0 <= k < r@.len() ==> r@[k]@ == spec_lines(v@)[k],
{
    let mut out: Vec<Vec<char>> = Vec::new();
    let n = v.len();
    let mut i: usize = 0;
    while i < n
        invariant
            0 <= i <= n == v@.len(),
            spec_lines(v@) =~= Seq::new(out@.len(), |k: int| out@[k]@) + spec_lines_from(
                v@,
                i as int,
            ),
        decreases n - i,
    {
        match find_char_from(v, '\n', i) {
            Some(j) => {
                let piece = strip_cr_exec(chars_range(v, i, j));
                out.push(piece);
                proof {
                    assert(spec_lines(v@) =~= Seq::new(out@.len(), |k: int| out@[k]@)
                        + spec_lines_from(v@, j + 1));
                }
                i = j + 1;
            },
            None => {
                let piece = strip_cr_exec(chars_range(v, i, n));
                out.push(piece);
                proof {
                    assert(spec_lines(v@) =~= Seq::new(out@.len(), |k: int| out@[k]@));
                }
                i = n;
            },
        }
    }
    proof {
        if i == n && spec_lines_from(v@, n as int) =~= Seq::<Seq<char>>::empty() {
            assert(spec_lines(v@) =~= Seq::new(out@.len(), |k: int| out@[k]@));
        }
    }
    out
}

/// Compares two character vectors.
pub fn chars_eq(a: &Vec<char>, b: &Vec<char>) -> (r: bool)
    ensures
        r == (a@ == b@),
{
    if a.len() != b.len() {
        proof {
            assert(a@ != b@);
        }
        return false;
    }
    let n = a.len();
    let mut i: usize = 0;
    while i < n
        invariant
            0 <= i <= n == a@.len(),
            n == b@.len(),
            forall|k: int| 0 <= k < i ==> a@[k] == b@[k],
        decreases n - i,
    {
        if a[i] != b[i] {
            proof {
                assert(a@[i as int] != b@[i as int]);
            }
            return false;
        }
        i += 1;
    }
    proof {
        assert(a@ =~= b@);
    }
    true
}

/// Compares a character vector with a string slice.
pub fn chars_eq_str(v: &Vec<char>, s: &str) -> (r: bool)
    ensures
        r == (v@ == s@),
{
    let sv = str_to_chars(s);
    chars_eq(v, &sv)
}

/// ASCII whitespace; the only whitespace the library recognises.
pub open spec fn is_ws_char(c: char) -> bool {
    (c as u32) == 32 || (9 <= (c as u32) <= 13)
}

/// A line holding nothing but whitespace.
pub open spec fn is_blank_line(s: Seq<char>) -> bool {
    forall|k: int| 0 <= k < s.len() ==> is_ws_char(s[k])
}

/// Tests whether a line is blank.
pub fn is_blank(v: &Vec<char>) -> (r: bool)
    ensures
        r == is_blank_line(v@),
{
    let n = v.len();
    let mut i: usize = 0;
    while i < n
        invariant
            0 <= i <= n == v@.len(),
            forall|k: int| 0 <= k < i ==> is_ws_char(v@[k]),
        decreases n - i,
    {
        let c = v[i];
        let u = c as u32;
        if !(u == 32 || (9 <= u && u <= 13)) {
            return false;
        }
        i += 1;
    }
    true
}

/// The sequence without the characters satisfying `p` at its front.
pub open spec fn drop_start(s: Seq<char>, p: spec_fn(char) -> bool) -> Seq<char>
    decreases s.len(),
{
    if s.len() > 0 && p(s[0]) {
        drop_start(s.drop_first(), p)
    } else {
        s
    }
}

/// The sequence without the characters satisfying `p` at its back.
pub open spec fn drop_end(s: Seq<char>, p: spec_fn(char) -> bool) -> Seq<char>
    decreases s.len(),
{
    if s.len() > 0 && p(s.last()) {
        drop_end(s.drop_last(), p)
    } else {
        s
    }
}

/// The sequence without such characters at either end.
pub open spec fn trim_by(s: Seq<char>, p: spec_fn(char) -> bool) -> Seq<char> {
    drop_end(drop_start(s, p), p)
}

/// The whitespace predicate, shared so that every use is the same term.
pub open spec fn ws_char_pred() -> spec_fn(char) -> bool {
    |c: char| is_ws_char(c)
}

/// The double-quote predicate.
pub open spec fn quote_pred() -> spec_fn(char) -> bool {
    |c: char| c == '"'
}

/// A line with surrounding whitespace removed, as `str::trim` leaves it
/// for ASCII text.
pub open spec fn spec_trim(s: Seq<char>) -> Seq<char> {
    trim_by(s, ws_char_pred())
}

/// An argument with every surrounding double quote removed, as
/// `str::trim_matches('"')` leaves it.
pub open spec fn spec_trim_quotes(s: Seq<char>) -> Seq<char> {
    trim_by(s, quote_pred())
}

pub proof fn lemma_drop_start_eq(s: Seq<char>, p: spec_fn(char) -> bool, a: int)
    requires
        0 <= a <= s.len(),
        forall|k: int| 0 <= k < a ==> p(s[k]),
        a < s.len() ==> !p(s[a]),
    ensures
        drop_start(s, p) == s.subrange(a, s.len() as int),
    decreases a,
{
    if a == 0 {
        assert(s.subrange(0, s.len() as int) =~= s);
    } else {
        let t = s.drop_first();
        assert(forall|k: int| 0 <= k < a - 1 ==> t[k] == s[k + 1]);
        lemma_drop_start_eq(t, p, a - 1);
        assert(t.subrange(a - 1, t.len() as int) =~= s.subrange(a, s.len() as int));
    }
}

pub proof fn lemma_drop_end_eq(s: Seq<char>, p: spec_fn(char) -> bool, b: int)
    requires
        0 <= b <= s.len(),
        forall|k: int| b <= k < s.len() ==> p(s[k]),
        b > 0 ==> !p(s[b - 1]),
    ensures
        drop_end(s, p) == s.subrange(0, b),
    decreases s.len(),
{
    if b == s.len() {
        if s.len() > 0 && p(s.last()) {
            assert(false);
        }
        assert(s.subrange(0, s.len() as int) =~= s);
    } else {
        let t = s.drop_last();
        assert(p(s.last()));
        assert(forall|k: int| 0 <= k < t.len() ==> t[k] == s[k]);
        lemma_drop_end_eq(t, p, b);
        assert(t.subrange(0, b) =~= s.subrange(0, b));
    }
}

/// Removes leading and trailing characters: whitespace when `ws`, double
/// quotes otherwise.
pub fn trim_chars(v: &Vec<char>, ws: bool) -> (r: Vec<char>)
    ensures
        ws ==> r@ == spec_trim(v@),
        !ws ==> r@ == spec_trim_quotes(v@),
{
    let ghost p = if ws {
        ws_char_pred()
    } else {
        quote_pred()
    };
    let n = v.len();
    let mut a: usize = 0;
    while a < n
        invariant
            0 <= a <= n == v@.len(),
            p == (if ws { ws_char_pred() } else { quote_pred() }),
            forall|k: int| 0 <= k < a ==> p(v@[k]),
        ensures
            0 <= a <= n == v@.len(),
            forall|k: int| 0 <= k < a ==> p(v@[k]),
            a < n ==> !p(v@[a as int]),
        decreases n - a,
    {
        let c = v[a];
        let hit = if ws {
            let u = c as u32;
            u == 32 || (9 <= u && u <= 13)
        } else {
            c == '"'
        };
        if !hit {
            break ;
        }
        a += 1;
    }
    let mut b: usize = n;
    while b > a
        invariant
            a <= b <= n == v@.len(),
            p == (if ws { ws_char_pred() } else { quote_pred() }),
            forall|k: int| b <= k < n ==> p(v@[k]),
        ensures
            a <= b <= n == v@.len(),
            forall|k: int| b <= k < n ==> p(v@[k]),
            b > a ==> !p(v@[b - 1]),
        decreases b,
    {
        let c = v[b - 1];
        let hit = if ws {
            let u = c as u32;
            u == 32 || (9 <= u && u <= 13)
        } else {
            c == '"'
        };
        if !hit {
            break ;
        }
        b -= 1;
    }
    let r = chars_range(v, a, b);
    proof {
        lemma_drop_start_eq(v@, p, a as int);
        let t = v@.subrange(a as int, n as int);
        assert(forall|k: int| b - a <= k < t.len() ==> p(t[k]));
        if b > a {
            assert(t[b - a - 1] == v@[b - 1]);
        }
        lemma_drop_end_eq(t, p, b - a);
        assert(t.subrange(0, b - a) =~= v@.subrange(a as int, b as int));
    }
    r
}

/// Whether the line with 0-based index `i` falls in the 1-based inclusive
/// range `[start, end]`; a missing bound does not restrict.
pub open spec fn line_selected(i: int, start: Option<int>, end: Option<int>) -> bool {
    (match start {
        Some(a) => i + 1 >= a,
        None => true,
    }) && (match end {
        Some(b) => i + 1 <= b,
        None => true,
    })
}

/// The selected lines from index `i` on, each newline-terminated.
pub open spec fn spec_file_text_from(
    lines: Seq<Seq<char>>,
    start: Option<int>,
    end: Option<int>,
    i: int,
) -> Seq<char>
    decreases lines.len() - i,
    when 0 <= i <= lines.len()
{
    if i >= lines.len() {
        Seq::empty()
    } else {
        (if line_selected(i, start, end) {
            lines[i] + seq!['\n']
        } else {
            Seq::empty()
        }) + spec_file_text_from(lines, start, end, i + 1)
    }
}

pub open spec fn opt_int(o: Option<usize>) -> Option<int> {
    match o {
        Some(x) => Some(x as int),
        None => None,
    }
}

/// The text that loading a file into the prompt buffer contributes: the
/// lines of `s` whose 1-based number lies in `[start, end]`, in order, each
/// newline-terminated.
pub open spec fn spec_file_text(s: Seq<char>, start: Option<int>, end: Option<int>) -> Seq<char> {
    spec_file_text_from(spec_lines(s), start, end, 0)
}

/// Selects the lines of `contents` in the given 1-based inclusive range and
/// joins them, each newline-terminated.
pub fn select_file_text(contents: &str, start: Option<usize>, end: Option<usize>) -> (r: String)
    ensures
        r@ == spec_file_text(contents@, opt_int(start), opt_int(end)),
{
    let chars = str_to_chars(contents);
    let lines = split_lines(&chars);
    let ghost slines = spec_lines(contents@);
    let ghost gstart = opt_int(start);
    let ghost gend = opt_int(end);
    let mut acc: Vec<char> = Vec::new();
    let n = lines.len();
    let mut i: usize = 0;
    while i < n
        invariant
            0 <= i <= n == slines.len(),
            n == lines@.len(),
            forall|k: int| 0 <= k < n ==> lines@[k]@ == slines[k],
            gstart == opt_int(start),
            gend == opt_int(end),
            spec_file_text(contents@, gstart, gend) =~= acc@ + spec_file_text_from(
                slines,
                gstart,
                gend,
                i as int,
            ),
        decreases n - i,
    {
        let in_range = (match start {
            Some(a) => i + 1 >= a,
            None => true,
        }) && (match end {
            Some(b) => i + 1 <= b,
            None => true,
        });
        let ghost acc0 = acc@;
        if in_range {
            push_chars(&mut acc, &lines[i]);
            acc.push('\n');
            proof {
                assert(acc0 + (slines[i as int] + seq!['\n']) =~= acc@);
            }
        }
        proof {
            assert(spec_file_text(contents@, gstart, gend) =~= acc@ + spec_file_text_from(
                slines,
                gstart,
                gend,
                i + 1,
            ));
        }
        i += 1;
    }
    chars_to_string(&acc)
}

/// The display lines of a file listing from index `i` on: each selected
/// non-blank line, prefixed with its 0-based index and a colon.
pub open spec fn spec_cat_from(
    lines: Seq<Seq<char>>,
    start: Option<int>,
    end: Option<int>,
    i: int,
) -> Seq<Seq<char>>
    decreases lines.len() - i,
    when 0 <= i <= lines.len()
{
    if i >= lines.len() {
        Seq::empty()
    } else {
        (if line_selected(i, start, end) && !is_blank_line(lines[i]) {
            seq![crate::num::spec_udigits(i as nat) + ": "@ + lines[i]]
        } else {
            Seq::empty()
        }) + spec_cat_from(lines, start, end, i + 1)
    }
}

/// The display lines of a file listing restricted to a 1-based inclusive
/// line range.
pub open spec fn spec_cat_lines(s: Seq<char>, start: Option<int>, end: Option<int>) -> Seq<
    Seq<char>,
> {
    spec_cat_from(spec_lines(s), start, end, 0)
}

/// Lists the selected non-blank lines of a file, each prefixed with its
/// 0-based index.
pub fn cat_display(contents: &str, start: Option<usize>, end: Option<usize>) -> (r: Vec<String>)
    ensures
        r@.len() == spec_cat_lines(contents@, opt_int(start), opt_int(end)).len(),
        forall|k: int|
            0 <= k < r@.len() ==> r@[k]@ == spec_cat_lines(contents@, opt_int(start), opt_int(end))[k],
{
    let chars = str_to_chars(contents);
    let lines = split_lines(&chars);
    let ghost slines = spec_lines(contents@);
    let ghost gstart = opt_int(start);
    let ghost gend = opt_int(end);
    let mut out: Vec<String> = Vec::new();
    let n = lines.len();
    let mut i: usize = 0;
    while i < n
        invariant
            0 <= i <= n == slines.len(),
            n == lines@.len(),
            forall|k: int| 0 <= k < n ==> lines@[k]@ == slines[k],
            gstart == opt_int(start),
            gend == opt_int(end),
            spec_cat_lines(contents@, gstart, gend) =~= Seq::new(out@.len(), |k: int| out@[k]@)
                + spec_cat_from(slines, gstart, gend, i as int),
        decreases n - i,
    {
        let in_range = (match start {
            Some(a) => i + 1 >= a,
            None => true,
        }) && (match end {
            Some(b) => i + 1 <= b,
            None => true,
        });
        if in_range && !is_blank(&lines[i]) {
            let mut acc: Vec<char> = crate::num::usize_to_chars(i);
            acc.push(':');
            acc.push(' ');
            push_chars(&mut acc, &lines[i]);
            proof {
                reveal_strlit(": ");
                assert(acc@ =~= crate::num::spec_udigits(i as nat) + ": "@ + slines[i as int]);
            }
            out.push(chars_to_string(&acc));
            proof {
                assert(spec_cat_lines(contents@, gstart, gend) =~= Seq::new(
                    out@.len(),
                    |k: int| out@[k]@,
                ) + spec_cat_from(slines, gstart, gend, i + 1));
            }
        } else {
            proof {
                assert(spec_cat_lines(contents@, gstart, gend) =~= Seq::new(
                    out@.len(),
                    |k: int| out@[k]@,
                ) + spec_cat_from(slines, gstart, gend, i + 1));
            }
        }
        i += 1;
    }
    out
}

/// The non-blank lines from index `i` on, each newline-terminated.
pub open spec fn spec_output_from(lines: Seq<Seq<char>>, i: int) -> Seq<char>
    decreases lines.len() - i,
    when 0 <= i <= lines.len()
{
    if i >= lines.len() {
        Seq::empty()
    } else {
        (if !is_blank_line(lines[i]) {
            lines[i] + seq!['\n']
        } else {
            Seq::empty()
        }) + spec_output_from(lines, i + 1)
    }
}

/// A reply prepared for display: its lines with blank and whitespace-only
/// ones dropped, each remaining line newline-terminated.
pub open spec fn spec_output_text(s: Seq<char>) -> Seq<char> {
    spec_output_from(spec_lines(s), 0)
}

/// Drops blank lines from a reply and joins the rest, each
/// newline-terminated.
pub fn output_text(content: &str) -> (r: String)
    ensures
        r@ == spec_output_text(content@),
{
    let chars = str_to_chars(content);
    let lines = split_lines(&chars);
    let ghost slines = spec_lines(content@);
    let mut acc: Vec<char> = Vec::new();
    let n = lines.len();
    let mut i: usize = 0;
    while i < n
        invariant
            0 <= i <= n == slines.len(),
            n == lines@.len(),
            forall|k: int| 0 <= k < n ==> lines@[k]@ == slines[k],
            spec_output_text(content@) =~= acc@ + spec_output_from(slines, i as int),
        decreases n - i,
    {
        let ghost acc0 = acc@;
        if !is_blank(&lines[i]) {
            push_chars(&mut acc, &lines[i]);
            acc.push('\n');
            proof {
                assert(acc0 + (slines[i as int] + seq!['\n']) =~= acc@);
            }
        }
        proof {
            assert(spec_output_text(content@) =~= acc@ + spec_output_from(slines, i + 1));
        }
        i += 1;
    }
    chars_to_string(&acc)
}

/// Appends the characters of `more` to `acc`.
pub fn push_chars(acc: &mut Vec<char>, more: &Vec<char>)
    ensures
        final(acc)@ == old(acc)@ + more@,
{
    let m = more.len();
    let mut k: usize = 0;
    while k < m
        invariant
            0 <= k <= m == more@.len(),
            acc@ == old(acc)@ + more@.subrange(0, k as int),
        decreases m - k,
    {
        acc.push(more[k]);
        proof {
            assert(acc@ =~= old(acc)@ + more@.subrange(0, k + 1 as int));
        }
        k += 1;
    }
    proof {
        assert(old(acc)@ + more@.subrange(0, m as int) =~= old(acc)@ + more@);
    }
}

/// The pieces of `s` from position `i` on, split at every comma; empty
/// pieces are kept, as `str::split(",")` keeps them.
pub open spec fn split_commas_from(s: Seq<char>, i: int) -> Seq<Seq<char>>
    decreases s.len() - i,
    when 0 <= i <= s.len()
{
    match find_from(s, ',', i) {
        None => seq![s.subrange(i, s.len() as int)],
        Some(j) => if i <= j < s.len() {
            seq![s.subrange(i, j)] + split_commas_from(s, j + 1)
        } else {
            Seq::empty()
        },
    }
}

/// The comma-separated pieces of a text.
pub open spec fn split_commas(s: Seq<char>) -> Seq<Seq<char>> {
    split_commas_from(s, 0)
}

/// Splits a text at its commas.
pub fn split_commas_exec(v: &Vec<char>) -> (r: Vec<Vec<char>>)
    ensures
        r@.len() == split_commas(v@).len(),
        r@.len() >= 1,
        forall|k: int| 0 <= k < r@.len() ==> r@[k]@ == split_commas(v@)[k],
{
    let mut out: Vec<Vec<char>> = Vec::new();
    let n = v.len();
    let mut i: usize = 0;
    loop
        invariant_except_break
            split_commas(v@) =~= Seq::new(out@.len(), |k: int| out@[k]@) + split_commas_from(
                v@,
                i as int,
            ),
        invariant
            0 <= i <= n == v@.len(),
        ensures
            out@.len() == split_commas(v@).len(),
            out@.len() >= 1,
            forall|k: int| 0 <= k < out@.len() ==> out@[k]@ == split_commas(v@)[k],
        decreases n - i,
    {
        match find_char_from(v, ',', i) {
            Some(j) => {
                let piece = chars_range(v, i, j);
                out.push(piece);
                proof {
                    assert(split_commas(v@) =~= Seq::new(out@.len(), |k: int| out@[k]@)
                        + split_commas_from(v@, j + 1));
                }
                i = j + 1;
            },
            None => {
                let piece = chars_range(v, i, n);
                out.push(piece);
                proof {
                    assert(split_commas(v@) =~= Seq::new(out@.len(), |k: int| out@[k]@));
                    assert(out@[out@.len() - 1]@ == split_commas(v@)[out@.len() - 1]);
                }
                break ;
            },
        }
    }
    out
}

/// Prefixes a file's contents with the prompt as a comment line, the
/// shape the command-line completion path sends.
pub fn compose_prompt(prompt: &str, contents: &str) -> (r: String)
    ensures
        r@ == seq!['\\', '\\', ' '] + prompt@ + seq![' ', '\n'] + contents@,
{
    let mut acc: Vec<char> = Vec::new();
    acc.push('\\');
    acc.push('\\');
    acc.push(' ');
    push_chars(&mut acc, &str_to_chars(prompt));
    acc.push(' ');
    acc.push('\n');
    push_chars(&mut acc, &str_to_chars(contents));
    proof {
        assert(acc@ =~= seq!['\\', '\\', ' '] + prompt@ + seq![' ', '\n'] + contents@);
    }
    chars_to_string(&acc)
}

/// Wraps one string into a one-element vector, the shape the completion
/// endpoint expects its prompt in.
pub fn string_to_vec(s: &str) -> (r: Vec<String>)
    ensures
        r@.len() == 1,
        r@[0]@ == s@,
{
    let mut out: Vec<String> = Vec::new();
    out.push(s.to_owned());
    out
}

} // verus!
