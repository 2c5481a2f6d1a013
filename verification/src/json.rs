//! JSON emission for the crate's payload values: the byte-exact framing of
//! response bodies, stated character by character.
//!
//! Strings are escaped the conventional way: `"` and `\` get a backslash,
//! the control characters with short forms use them (`\b`, `\t`, `\n`, `\f`,
//! `\r`), the remaining control characters become `\u00XX` with lowercase hex
//! digits. Objects are emitted in the order their entries are handed over.

use vstd::prelude::*;

use crate::text::{push_char, spec_int_digits, i64_to_string};
use crate::value::{Value, ValueView};

verus! {

/// The lowercase hex digit for `d` (`0 <= d <= 15`); other values map to `'0'`.
pub open spec fn hex_digit_char(d: int) -> char {
    if d == 10 {
        'a'
    } else if d == 11 {
        'b'
    } else if d == 12 {
        'c'
    } else if d == 13 {
        'd'
    } else if d == 14 {
        'e'
    } else if d == 15 {
        'f'
    } else {
        crate::text::digit_char(d)
    }
}

/// How a single character appears inside a JSON string literal.
pub open spec fn json_escape_char(c: char) -> Seq<char> {
    if c == '"' {
        seq!['\\', '"']
    } else if c == '\\' {
        seq!['\\', '\\']
    } else if c == '\u{8}' {
        seq!['\\', 'b']
    } else if c == '\t' {
        seq!['\\', 't']
    } else if c == '\n' {
        seq!['\\', 'n']
    } else if c == '\u{c}' {
        seq!['\\', 'f']
    } else if c == '\r' {
        seq!['\\', 'r']
    } else if (c as u32) < 0x20 {
        seq!['\\', 'u', '0', '0', hex_digit_char(c as int / 16), hex_digit_char(c as int % 16)]
    } else {
        seq![c]
    }
}

/// The escaped form of a whole string, without the surrounding quotes.
pub open spec fn json_escape(s: Seq<char>) -> Seq<char>
    decreases s.len(),
{
    if s.len() == 0 {
        Seq::empty()
    } else {
        json_escape(s.drop_last()) + json_escape_char(s.last())
    }
}

/// A JSON string literal: quotes around the escaped contents.
pub open spec fn json_string(s: Seq<char>) -> Seq<char> {
    seq!['"'] + json_escape(s) + seq!['"']
}

/// The JSON text of one payload value.
pub open spec fn json_of_value(v: ValueView) -> Seq<char> {
    match v {
        ValueView::Null => seq!['n', 'u', 'l', 'l'],
        ValueView::Bool(b) => if b {
            seq!['t', 'r', 'u', 'e']
        } else {
            seq!['f', 'a', 'l', 's', 'e']
        },
        ValueView::Int(n) => spec_int_digits(n as int),
        ValueView::Str(s) => json_string(s),
    }
}

/// The comma-separated members of a JSON object, in entry order.
pub open spec fn json_members(entries: Seq<(Seq<char>, ValueView)>) -> Seq<char>
    decreases entries.len(),
{
    if entries.len() == 0 {
        Seq::empty()
    } else if entries.len() == 1 {
        json_member(entries[0])
    } else {
        json_members(entries.drop_last()) + seq![','] + json_member(entries.last())
    }
}

/// One `"key":value` member.
pub open spec fn json_member(entry: (Seq<char>, ValueView)) -> Seq<char> {
    json_string(entry.0) + seq![':'] + json_of_value(entry.1)
}

/// A JSON object over the given entries, in entry order.
pub open spec fn json_object(entries: Seq<(Seq<char>, ValueView)>) -> Seq<char> {
    seq!['{'] + json_members(entries) + seq!['}']
}

/// The entries as view pairs.
pub open spec fn json_entries_view(s: Seq<(String, Value)>) -> Seq<(Seq<char>, ValueView)> {
    s.map_values(|e: (String, Value)| (e.0@, e.1@))
}

fn hex_digit(d: u32) -> (c: char)
    requires
        d < 16,
    ensures
        c == hex_digit_char(d as int),
{
    match d {
        10 => 'a',
        11 => 'b',
        12 => 'c',
        13 => 'd',
        14 => 'e',
        15 => 'f',
        _ => crate::text::digit_to_char_u32(d),
    }
}

/// Appends the escaped form of `c` to `out`.
fn push_escaped(out: &mut String, c: char)
    ensures
        final(out)@ == old(out)@ + json_escape_char(c),
{
    if c == '"' {
        push_char(out, '\\');
        push_char(out, '"');
    } else if c == '\\' {
        push_char(out, '\\');
        push_char(out, '\\');
    } else if c == '\u{8}' {
        push_char(out, '\\');
        push_char(out, 'b');
    } else if c == '\t' {
        push_char(out, '\\');
        push_char(out, 't');
    } else if c == '\n' {
        push_char(out, '\\');
        push_char(out, 'n');
    } else if c == '\u{c}' {
        push_char(out, '\\');
        push_char(out, 'f');
    } else if c == '\r' {
        push_char(out, '\\');
        push_char(out, 'r');
    } else if (c as u32) < 0x20 {
        push_char(out, '\\');
        push_char(out, 'u');
        push_char(out, '0');
        push_char(out, '0');
        push_char(out, hex_digit((c as u32) / 16));
        push_char(out, hex_digit((c as u32) % 16));
    } else {
        push_char(out, c);
    }
    assert(out@ =~= old(out)@ + json_escape_char(c));
}

/// Appends the JSON string literal for `s` to `out`.
pub fn push_json_string(out: &mut String, s: &str)
    ensures
        final(out)@ == old(out)@ + json_string(s@),
{
    push_char(out, '"');
    let len = s.unicode_len();
    let mut i: usize = 0;
    while i < len
        invariant
            i <= len,
            len == s@.len(),
            out@ == old(out)@ + seq!['"'] + json_escape(s@.take(i as int)),
        decreases len - i,
    {
        let ghost prefix = s@.take(i as int);
        let c = s.get_char(i);
        push_escaped(out, c);
        proof {
            assert(s@.take(i + 1).drop_last() =~= prefix);
            assert(s@.take(i + 1).last() == c);
        }
        i += 1;
    }
    push_char(out, '"');
    proof {
        assert(s@.take(s@.len() as int) =~= s@);
        assert(out@ =~= old(out)@ + json_string(s@));
    }
}

/// Appends the JSON text of `v` to `out`.
fn push_json_value(out: &mut String, v: &Value)
    ensures
        final(out)@ == old(out)@ + json_of_value(v@),
{
    match v {
        Value::Null => {
            push_char(out, 'n');
            push_char(out, 'u');
            push_char(out, 'l');
            push_char(out, 'l');
            assert(out@ =~= old(out)@ + json_of_value(v@));
        },
        Value::Bool(b) => {
            if *b {
                push_char(out, 't');
                push_char(out, 'r');
                push_char(out, 'u');
                push_char(out, 'e');
            } else {
                push_char(out, 'f');
                push_char(out, 'a');
                push_char(out, 'l');
                push_char(out, 's');
                push_char(out, 'e');
            }
            assert(out@ =~= old(out)@ + json_of_value(v@));
        },
        Value::Int(n) => {
            let digits = i64_to_string(*n);
            out.append(digits.as_str());
        },
        Value::Str(s) => {
            push_json_string(out, s.as_str());
        },
    }
}

/// The JSON object over `entries`, emitted in entry order.
pub fn entries_to_json(entries: &Vec<(String, Value)>) -> (r: String)
    ensures
        r@ == json_object(json_entries_view(entries@)),
{
    let mut out = String::new();
    push_char(&mut out, '{');
    let mut i: usize = 0;
    while i < entries.len()
        invariant
            i <= entries@.len(),
            out@ == seq!['{'] + json_members(json_entries_view(entries@).take(i as int)),
        decreases entries@.len() - i,
    {
        if i > 0 {
            push_char(&mut out, ',');
        }
        push_json_string(&mut out, entries[i].0.as_str());
        push_char(&mut out, ':');
        push_json_value(&mut out, &entries[i].1);
        proof {
            let ev = json_entries_view(entries@);
            let t = ev.take(i + 1);
            assert(t.drop_last() =~= ev.take(i as int));
            assert(t.last() == ev[i as int]);
            assert(ev[i as int] == (entries@[i as int].0@, entries@[i as int].1@));
            if i == 0 {
                assert(json_members(t) == json_member(ev[0]));
            }
            assert(out@ =~= seq!['{'] + json_members(t));
        }
        i += 1;
    }
    push_char(&mut out, '}');
    proof {
        let ev = json_entries_view(entries@);
        assert(ev.take(ev.len() as int) =~= ev);
        assert(out@ =~= json_object(ev));
    }
    out
}

} // verus!
