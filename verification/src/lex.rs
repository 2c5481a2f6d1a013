//! The character-level grammar of the metadata language: whitespace
//! trimming, decimal digits, identifiers, string literals with escapes, and
//! scanners that split text at top-level commas or find a top-level `=`,
//! respecting brackets and string literals.

use vstd::prelude::*;

use crate::text::push_char;

verus! {

pub open spec fn is_ws(c: char) -> bool {
    c == ' ' || c == '\t' || c == '\n' || c == '\r'
}

pub open spec fn is_digit(c: char) -> bool {
    '0' <= c && c <= '9'
}

pub open spec fn digit_val(c: char) -> int {
    c as int - '0' as int
}

pub open spec fn is_ident_start(c: char) -> bool {
    c == '_' || ('a' <= c && c <= 'z') || ('A' <= c && c <= 'Z')
}

pub open spec fn is_ident_cont(c: char) -> bool {
    is_ident_start(c) || is_digit(c)
}

/// A plain identifier: a letter or underscore, then letters, digits and
/// underscores.
pub open spec fn spec_is_ident(s: Seq<char>) -> bool {
    &&& s.len() > 0
    &&& is_ident_start(s[0])
    &&& forall|i: int| 1 <= i < s.len() ==> is_ident_cont(#[trigger] s[i])
}

fn is_ws_char(c: char) -> (r: bool)
    ensures
        r == is_ws(c),
{
    c == ' ' || c == '\t' || c == '\n' || c == '\r'
}

fn is_digit_char(c: char) -> (r: bool)
    ensures
        r == is_digit(c),
{
    '0' <= c && c <= '9'
}

fn is_ident_start_char(c: char) -> (r: bool)
    ensures
        r == is_ident_start(c),
{
    c == '_' || ('a' <= c && c <= 'z') || ('A' <= c && c <= 'Z')
}

/// Decides `spec_is_ident`.
pub fn is_ident(t: &str) -> (r: bool)
    ensures
        r == spec_is_ident(t@),
{
    let len = t.unicode_len();
    if len == 0 {
        return false;
    }
    if !is_ident_start_char(t.get_char(0)) {
        return false;
    }
    let mut i: usize = 1;
    while i < len
        invariant
            1 <= i <= len,
            len == t@.len(),
            is_ident_start(t@[0]),
            forall|j: int| 1 <= j < i ==> is_ident_cont(#[trigger] t@[j]),
        decreases len - i,
    {
        let c = t.get_char(i);
        if !(is_ident_start_char(c) || is_digit_char(c)) {
            return false;
        }
        i += 1;
    }
    true
}

/// Leading whitespace dropped.
pub open spec fn spec_trim_start(s: Seq<char>) -> Seq<char>
    decreases s.len(),
{
    if s.len() > 0 && is_ws(s[0]) {
        spec_trim_start(s.skip(1))
    } else {
        s
    }
}

/// Trailing whitespace dropped.
pub open spec fn spec_trim_end(s: Seq<char>) -> Seq<char>
    decreases s.len(),
{
    if s.len() > 0 && is_ws(s.last()) {
        spec_trim_end(s.drop_last())
    } else {
        s
    }
}

/// Surrounding whitespace dropped.
pub open spec fn spec_trim(s: Seq<char>) -> Seq<char> {
    spec_trim_end(spec_trim_start(s))
}

proof fn lemma_trim_start_at(s: Seq<char>, a: int)
    requires
        0 <= a <= s.len(),
        forall|j: int| 0 <= j < a ==> is_ws(#[trigger] s[j]),
        a < s.len() ==> !is_ws(s[a]),
    ensures
        spec_trim_start(s) == s.skip(a),
    decreases a,
{
    if a == 0 {
        assert(s.skip(0) =~= s);
    } else {
        assert(forall|j: int| 0 <= j < a - 1 ==> is_ws(#[trigger] s.skip(1)[j]));
        lemma_trim_start_at(s.skip(1), a - 1);
        assert(s.skip(1).skip(a - 1) =~= s.skip(a));
    }
}

proof fn lemma_trim_end_at(s: Seq<char>, b: int)
    requires
        0 <= b <= s.len(),
        forall|j: int| b <= j < s.len() ==> is_ws(#[trigger] s[j]),
        b > 0 ==> !is_ws(s[b - 1]),
    ensures
        spec_trim_end(s) == s.take(b),
    decreases s.len(),
{
    if s.len() > b {
        assert(is_ws(s.last()));
        assert(forall|j: int| b <= j < s.drop_last().len() ==> is_ws(#[trigger] s.drop_last()[j]));
        lemma_trim_end_at(s.drop_last(), b);
        assert(s.drop_last().take(b) =~= s.take(b));
    } else {
        assert(s.take(b) =~= s);
    }
}

/// Returns `t` without surrounding whitespace.
pub fn trim<'a>(t: &'a str) -> (r: &'a str)
    ensures
        r@ == spec_trim(t@),
{
    let len = t.unicode_len();
    let mut a: usize = 0;
    while a < len && is_ws_char(t.get_char(a))
        invariant
            a <= len,
            len == t@.len(),
            forall|j: int| 0 <= j < a ==> is_ws(#[trigger] t@[j]),
        decreases len - a,
    {
        a += 1;
    }
    let mut b: usize = len;
    while b > a && is_ws_char(t.get_char(b - 1))
        invariant
            a <= b <= len,
            len == t@.len(),
            forall|j: int| b <= j < len ==> is_ws(#[trigger] t@[j]),
        decreases b,
    {
        b -= 1;
    }
    proof {
        lemma_trim_start_at(t@, a as int);
        let tail = t@.skip(a as int);
        assert(forall|j: int|
            b - a <= j < tail.len() ==> is_ws(#[trigger] tail[j]) && tail[j] == t@[j + a]);
        if b > a {
            assert(tail[b - a - 1] == t@[b - 1]);
        }
        lemma_trim_end_at(tail, b - a);
        assert(tail.take(b - a) =~= t@.subrange(a as int, b as int));
    }
    t.substring_char(a, b)
}

/// All characters are decimal digits (and there is at least one).
pub open spec fn spec_all_digits(s: Seq<char>) -> bool {
    s.len() > 0 && forall|i: int| 0 <= i < s.len() ==> is_digit(#[trigger] s[i])
}

/// The number the digits denote.
pub open spec fn spec_digits_val(s: Seq<char>) -> int
    decreases s.len(),
{
    if s.len() == 0 {
        0
    } else {
        spec_digits_val(s.drop_last()) * 10 + digit_val(s.last())
    }
}

fn digit_of(c: char) -> (d: u64)
    requires
        is_digit(c),
    ensures
        d as int == digit_val(c),
{
    match c {
        '0' => 0,
        '1' => 1,
        '2' => 2,
        '3' => 3,
        '4' => 4,
        '5' => 5,
        '6' => 6,
        '7' => 7,
        '8' => 8,
        _ => 9,
    }
}

proof fn lemma_digits_val_nonneg(s: Seq<char>)
    requires
        forall|i: int| 0 <= i < s.len() ==> is_digit(#[trigger] s[i]),
    ensures
        spec_digits_val(s) >= 0,
    decreases s.len(),
{
    if s.len() > 0 {
        lemma_digits_val_nonneg(s.drop_last());
    }
}

/// Parses an unsigned decimal number: `Some` exactly on digit strings, with
/// values beyond `u64::MAX` clamped to it (callers that bound the value
/// thereby get it exactly).
pub fn parse_digits(t: &str) -> (r: Option<u64>)
    ensures
        r is Some <==> spec_all_digits(t@),
        r matches Some(v) ==> v as int == if spec_digits_val(t@) <= u64::MAX as int {
            spec_digits_val(t@)
        } else {
            u64::MAX as int
        },
{
    let len = t.unicode_len();
    if len == 0 {
        return None;
    }
    let mut acc: u128 = 0;
    let cap: u128 = 0xFFFF_FFFF_FFFF_FFFF;
    let mut i: usize = 0;
    while i < len
        invariant
            i <= len,
            len == t@.len(),
            forall|j: int| 0 <= j < i ==> is_digit(#[trigger] t@[j]),
            acc <= cap,
            cap == 0xFFFF_FFFF_FFFF_FFFF,
            acc as int == if spec_digits_val(t@.take(i as int)) <= cap as int {
                spec_digits_val(t@.take(i as int))
            } else {
                cap as int
            },
        decreases len - i,
    {
        let c = t.get_char(i);
        if !is_digit_char(c) {
            return None;
        }
        let d = digit_of(c) as u128;
        let ghost prefix = t@.take(i as int);
        let ghost v = spec_digits_val(prefix);
        proof {
            lemma_digits_val_nonneg(prefix);
            assert(t@.take(i + 1).drop_last() =~= prefix);
            assert(t@.take(i + 1).last() == t@[i as int]);
            if v > cap as int {
                assert(v * 10 >= v) by (nonlinear_arith)
                    requires
                        v >= 0,
                ;
            }
        }
        acc = acc * 10 + d;
        if acc > cap {
            acc = cap;
        }
        i += 1;
    }
    proof {
        assert(t@.take(len as int) =~= t@);
    }
    Some(acc as u64)
}

/// The characters an escape sequence may name.
pub open spec fn esc_map(c: char) -> Option<char> {
    if c == '\\' {
        Some('\\')
    } else if c == '"' {
        Some('"')
    } else if c == 'n' {
        Some('\n')
    } else if c == 't' {
        Some('\t')
    } else if c == 'r' {
        Some('\r')
    } else {
        None
    }
}

/// The contents of a string literal body: escapes resolved, bare quotes and
/// unknown escapes rejected.
pub open spec fn spec_unescape(s: Seq<char>) -> Option<Seq<char>>
    decreases s.len(),
{
    if s.len() == 0 {
        Some(Seq::empty())
    } else if s[0] == '\\' {
        if s.len() >= 2 {
            match esc_map(s[1]) {
                Some(c) => match spec_unescape(s.skip(2)) {
                    Some(r) => Some(seq![c] + r),
                    None => None,
                },
                None => None,
            }
        } else {
            None
        }
    } else if s[0] == '"' {
        None
    } else {
        match spec_unescape(s.skip(1)) {
            Some(r) => Some(seq![s[0]] + r),
            None => None,
        }
    }
}

/// A quoted string literal with its escapes resolved.
pub open spec fn spec_parse_string_lit(s: Seq<char>) -> Option<Seq<char>> {
    if s.len() >= 2 && s[0] == '"' && s.last() == '"' {
        spec_unescape(s.subrange(1, s.len() - 1))
    } else {
        None
    }
}

/// Parses a quoted string literal.
pub fn parse_string_lit(t: &str) -> (r: Option<String>)
    ensures
        match spec_parse_string_lit(t@) {
            Some(v) => r matches Some(out) && out@ == v,
            None => r is None,
        },
{
    let len = t.unicode_len();
    if len < 2 || t.get_char(0) != '"' || t.get_char(len - 1) != '"' {
        return None;
    }
    let ghost interior = t@.subrange(1, t@.len() - 1);
    let mut out = String::new();
    let mut i: usize = 1;
    proof {
        assert(interior.skip(0) =~= interior);
    }
    while i < len - 1
        invariant
            1 <= i <= len - 1,
            len == t@.len(),
            len >= 2,
            interior == t@.subrange(1, t@.len() - 1),
            match spec_unescape(interior.skip(i - 1)) {
                Some(r) => spec_unescape(interior) == Some(out@ + r),
                None => spec_unescape(interior) is None,
            },
        decreases len - i,
    {
        let ghost rest = interior.skip(i - 1);
        proof {
            assert(rest[0] == t@[i as int]);
        }
        let c = t.get_char(i);
        if c == '\\' {
            if i + 1 >= len - 1 {
                return None;
            }
            proof {
                assert(rest[1] == t@[i + 1]);
                assert(rest.skip(2) =~= interior.skip(i + 1));
            }
            let e = t.get_char(i + 1);
            let decoded: char = if e == '\\' {
                '\\'
            } else if e == '"' {
                '"'
            } else if e == 'n' {
                '\n'
            } else if e == 't' {
                '\t'
            } else if e == 'r' {
                '\r'
            } else {
                return None;
            };
            push_char(&mut out, decoded);
            i += 2;
        } else if c == '"' {
            return None;
        } else {
            proof {
                assert(rest.skip(1) =~= interior.skip(i as int));
            }
            push_char(&mut out, c);
            i += 1;
        }
    }
    proof {
        assert(interior.skip(interior.len() as int) =~= Seq::<char>::empty());
        assert(out@ + Seq::<char>::empty() =~= out@);
    }
    Some(out)
}

// ---------------------------------------------------------------------------
// Bracket- and string-aware scanning.
// ---------------------------------------------------------------------------

/// One step of the scanner: bracket depth, inside-string flag, escape flag.
pub open spec fn scan_step(st: (int, bool, bool), c: char) -> (int, bool, bool) {
    if st.1 {
        if st.2 {
            (st.0, true, false)
        } else if c == '\\' {
            (st.0, true, true)
        } else if c == '"' {
            (st.0, false, false)
        } else {
            (st.0, true, false)
        }
    } else if c == '"' {
        (st.0, true, false)
    } else if c == '(' || c == '[' || c == '{' {
        (st.0 + 1, false, false)
    } else if c == ')' || c == ']' || c == '}' {
        (st.0 - 1, false, false)
    } else {
        (st.0, false, false)
    }
}

/// The index ranges of the comma-separated pieces of `s` from `i` on, given
/// the scanner state and the start of the current piece; `None` when the text
/// ends inside a string or with open brackets.
pub open spec fn split_ranges_from(
    s: Seq<char>,
    i: int,
    st: (int, bool, bool),
    seg_start: int,
) -> Option<Seq<(int, int)>>
    decreases s.len() - i,
{
    if i < 0 || i >= s.len() {
        if st == (0int, false, false) {
            Some(seq![(seg_start, s.len() as int)])
        } else {
            None
        }
    } else if st.0 == 0 && !st.1 && s[i] == ',' {
        match split_ranges_from(s, i + 1, st, i + 1) {
            Some(rest) => Some(seq![(seg_start, i)] + rest),
            None => None,
        }
    } else {
        split_ranges_from(s, i + 1, scan_step(st, s[i]), seg_start)
    }
}

/// Splits the whole text at top-level commas.
pub open spec fn spec_split_ranges(s: Seq<char>) -> Option<Seq<(int, int)>> {
    split_ranges_from(s, 0, (0int, false, false), 0)
}

/// The ranges as plain index pairs.
pub open spec fn ranges_view(v: Seq<(usize, usize)>) -> Seq<(int, int)> {
    v.map_values(|p: (usize, usize)| (p.0 as int, p.1 as int))
}

/// Splits `t` at top-level commas, returning the piece boundaries.
pub fn split_ranges(t: &str) -> (r: Option<Vec<(usize, usize)>>)
    ensures
        match spec_split_ranges(t@) {
            Some(rs) => r matches Some(v) && ranges_view(v@) == rs,
            None => r is None,
        },
{
    let len = t.unicode_len();
    let mut out: Vec<(usize, usize)> = Vec::new();
    let mut depth: i128 = 0;
    let mut in_str: bool = false;
    let mut esc: bool = false;
    let mut seg_start: usize = 0;
    let mut i: usize = 0;
    while i < len
        invariant
            i <= len,
            len == t@.len(),
            seg_start <= i,
            -(i as int) <= depth <= i as int,
            !in_str ==> !esc,
            spec_split_ranges(t@) == match split_ranges_from(
                t@,
                i as int,
                (depth as int, in_str, esc),
                seg_start as int,
            ) {
                Some(rest) => Some(ranges_view(out@) + rest),
                None => None::<Seq<(int, int)>>,
            },
        decreases len - i,
    {
        let c = t.get_char(i);
        if depth == 0 && !in_str && c == ',' {
            out.push((seg_start, i));
            proof {
                assert(ranges_view(out@) =~= ranges_view(out@.drop_last()).push(
                    ((seg_start as int, i as int)),
                ));
                assert(forall|rest: Seq<(int, int)>|
                    ranges_view(out@) + rest =~= ranges_view(out@.drop_last()) + (seq![
                        (seg_start as int, i as int),
                    ] + rest));
            }
            seg_start = i + 1;
        } else {
            if in_str {
                if esc {
                    esc = false;
                } else if c == '\\' {
                    esc = true;
                } else if c == '"' {
                    in_str = false;
                }
            } else if c == '"' {
                in_str = true;
            } else if c == '(' || c == '[' || c == '{' {
                depth = depth + 1;
            } else if c == ')' || c == ']' || c == '}' {
                depth = depth - 1;
            }
        }
        i += 1;
    }
    if depth == 0 && !in_str {
        out.push((seg_start, len));
        proof {
            assert(ranges_view(out@) =~= ranges_view(out@.drop_last()) + seq![
                (seg_start as int, len as int),
            ]);
        }
        Some(out)
    } else {
        None
    }
}

/// Characters that forbid reading the following `=` as an assignment.
pub open spec fn blocks_assign(c: char) -> bool {
    c == '=' || c == '!' || c == '<' || c == '>'
}

/// The first top-level `=` that is neither part of a comparison nor of an
/// arrow, from `i` on.
pub open spec fn find_assign_from(s: Seq<char>, i: int, st: (int, bool, bool)) -> Option<int>
    decreases s.len() - i,
{
    if i < 0 || i >= s.len() {
        None
    } else if st.0 == 0 && !st.1 && s[i] == '=' && (i + 1 >= s.len() || (s[i + 1] != '=' && s[i + 1]
        != '>')) && (i == 0 || !blocks_assign(s[i - 1])) {
        Some(i)
    } else {
        find_assign_from(s, i + 1, scan_step(st, s[i]))
    }
}

/// The first top-level assignment `=` of the whole text.
pub open spec fn spec_find_assign(s: Seq<char>) -> Option<int> {
    find_assign_from(s, 0, (0int, false, false))
}

/// Finds the first top-level assignment `=`.
pub fn find_assign(t: &str) -> (r: Option<usize>)
    ensures
        match spec_find_assign(t@) {
            Some(p) => r matches Some(x) && x as int == p && 0 <= p < t@.len(),
            None => r is None,
        },
{
    let len = t.unicode_len();
    let mut depth: i128 = 0;
    let mut in_str: bool = false;
    let mut esc: bool = false;
    let mut i: usize = 0;
    while i < len
        invariant
            i <= len,
            len == t@.len(),
            -(i as int) <= depth <= i as int,
            !in_str ==> !esc,
            spec_find_assign(t@) == find_assign_from(t@, i as int, (depth as int, in_str, esc)),
        decreases len - i,
    {
        let c = t.get_char(i);
        if depth == 0 && !in_str && c == '=' {
            let next_blocks = if i + 1 < len {
                let n = t.get_char(i + 1);
                n == '=' || n == '>'
            } else {
                false
            };
            let prev_blocks = if i > 0 {
                let p = t.get_char(i - 1);
                p == '=' || p == '!' || p == '<' || p == '>'
            } else {
                false
            };
            if !next_blocks && !prev_blocks {
                return Some(i);
            }
        }
        if in_str {
            if esc {
                esc = false;
            } else if c == '\\' {
                esc = true;
            } else if c == '"' {
                in_str = false;
            }
        } else if c == '"' {
            in_str = true;
        } else if c == '(' || c == '[' || c == '{' {
            depth = depth + 1;
        } else if c == ')' || c == ']' || c == '}' {
            depth = depth - 1;
        }
        i += 1;
    }
    None
}

/// The template rewriting applied to reason and data templates: the internal
/// alias marker is inserted after every opening brace, so placeholders bind
/// to the generator-private field aliases.
pub open spec fn spec_rewrite_template(s: Seq<char>) -> Seq<char>
    decreases s.len(),
{
    if s.len() == 0 {
        Seq::empty()
    } else {
        spec_rewrite_template(s.drop_last()) + (if s.last() == '{' {
            seq!['{'] + "__f_"@
        } else {
            seq![s.last()]
        })
    }
}

/// Rewrites a template, inserting the alias marker after every `{`.
pub fn rewrite_template(t: &str) -> (r: String)
    ensures
        r@ == spec_rewrite_template(t@),
{
    let len = t.unicode_len();
    let mut out = String::new();
    let mut i: usize = 0;
    while i < len
        invariant
            i <= len,
            len == t@.len(),
            out@ == spec_rewrite_template(t@.take(i as int)),
        decreases len - i,
    {
        let c = t.get_char(i);
        push_char(&mut out, c);
        if c == '{' {
            out.append("__f_");
        }
        proof {
            assert(t@.take(i + 1).drop_last() =~= t@.take(i as int));
            assert(t@.take(i + 1).last() == t@[i as int]);
        }
        i += 1;
    }
    proof {
        assert(t@.take(len as int) =~= t@);
    }
    out
}

} // verus!
