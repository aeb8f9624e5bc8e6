//! JSON text: string literals as `serde_json` writes them, arrays, and the
//! validity tests that `serde_json` decides.
use vstd::prelude::*;
use crate::text::{hex_digit, push_char, push_str};

verus! {

/// How `serde_json` writes one character inside a string literal.
pub open spec fn json_escape_char(c: char) -> Seq<char> {
    let u = c as u32;
    if c == '"' {
        seq!['\\', '"']
    } else if c == '\\' {
        seq!['\\', '\\']
    } else if u == 0x08 {
        seq!['\\', 'b']
    } else if u == 0x09 {
        seq!['\\', 't']
    } else if u == 0x0a {
        seq!['\\', 'n']
    } else if u == 0x0c {
        seq!['\\', 'f']
    } else if u == 0x0d {
        seq!['\\', 'r']
    } else if u < 0x20 {
        seq!['\\', 'u', '0', '0', hex_digit((u / 16) as nat), hex_digit((u % 16) as nat)]
    } else {
        seq![c]
    }
}

/// The escaped contents of a JSON string literal for `s`.
pub open spec fn json_escape(s: Seq<char>) -> Seq<char>
    decreases s.len(),
{
    if s.len() == 0 {
        Seq::empty()
    } else {
        json_escape(s.drop_last()) + json_escape_char(s.last())
    }
}

/// The JSON string literal for `s`, quotes included, as `serde_json` writes it.
pub open spec fn json_quoted(s: Seq<char>) -> Seq<char> {
    seq!['"'] + json_escape(s) + seq!['"']
}

/// The items separated by commas.
pub open spec fn comma_join(items: Seq<Seq<char>>) -> Seq<char>
    decreases items.len(),
{
    if items.len() == 0 {
        Seq::empty()
    } else if items.len() == 1 {
        items[0]
    } else {
        comma_join(items.drop_last()) + seq![','] + items.last()
    }
}

/// A JSON array of already written values.
pub open spec fn json_array(items: Seq<Seq<char>>) -> Seq<char> {
    seq!['['] + comma_join(items) + seq![']']
}

/// The string literals of each of the strings.
pub open spec fn quoted_all(items: Seq<String>) -> Seq<Seq<char>> {
    items.map_values(|s: String| json_quoted(s@))
}

/// Whether `serde_json` parses `text` as a JSON value whose top level is an object.
pub uninterp spec fn json_object_text(text: Seq<char>) -> bool;

/// Whether `serde_json` parses `text` as a JSON value.
pub uninterp spec fn json_text(text: Seq<char>) -> bool;

/// The value that `serde_json` parses `text` into, where it parses.
pub uninterp spec fn json_value_of(text: Seq<char>) -> serde_json::Value;

/// A parsed JSON value of `serde_json`, carried through unread.
#[verifier::external_type_specification]
#[verifier::external_body]
pub struct ExJsonValue(serde_json::Value);

/// `serde_json::to_string` on a string slice. The contract states the escaping
/// that `serde_json`'s compact formatter applies: `"` and `\` are escaped with
/// a backslash, the controls `\b \t \n \f \r` by their short forms, the other
/// characters below U+0020 as `\u00XX` with lowercase hex, everything else as
/// it is. Serialising a `str` into a vector never fails, so the error arm is
/// never taken.
#[verifier::external_body]
fn json_quote(text: &str) -> (r: String)
    ensures
        r@ == json_quoted(text@),
{
    match serde_json::to_string(text) {
        Ok(s) => s,
        Err(_) => String::new(),
    }
}

/// `serde_json::from_str::<serde_json::Value>`, the error dropped, with
/// whether the value is of the `Object` variant. What parses is named
/// (`json_text`, and `json_object_text` for an object at the top level), not
/// stated: the grammar is `serde_json`'s. The parsed value is named too
/// (`json_value_of`): it depends on the text alone, object members being kept
/// in a sorted map.
#[verifier::external_body]
fn parse_json_value(data: &str) -> (r: Option<(serde_json::Value, bool)>)
    ensures
        r is Some <==> json_text(data@),
        r matches Some((v, _)) ==> v == json_value_of(data@),
        r matches Some((_, object)) ==> object == json_object_text(data@),
        r is None ==> !json_object_text(data@),
{
    match serde_json::from_str::<serde_json::Value>(data) {
        Ok(value) => {
            let object = matches!(value, serde_json::Value::Object(_));
            Some((value, object))
        },
        Err(_) => None,
    }
}

/// Whether `data` is a JSON document whose top level is an object.
pub fn is_valid_json(data: &str) -> (r: bool)
    ensures
        r == json_object_text(data@),
{
    match parse_json_value(data) {
        Some((_, object)) => object,
        None => false,
    }
}

/// `data` parsed as JSON, if it parses.
pub fn parse_json(data: &str) -> (r: Option<serde_json::Value>)
    ensures
        r is Some <==> json_text(data@),
        r matches Some(v) ==> v == json_value_of(data@),
{
    match parse_json_value(data) {
        Some((value, _)) => Some(value),
        None => None,
    }
}

/// Appends the JSON string literal for `s`.
pub fn push_json_string(out: &mut String, s: &str)
    ensures
        final(out)@ == old(out)@ + json_quoted(s@),
{
    let q = json_quote(s);
    push_str(out, q.as_str());
}

proof fn lemma_quoted_push(items: Seq<String>, i: int)
    requires
        0 <= i < items.len(),
    ensures
        quoted_all(items.take(i + 1)) == quoted_all(items.take(i)).push(json_quoted(items[i]@)),
{
    assert(quoted_all(items.take(i + 1)) =~= quoted_all(items.take(i)).push(
        json_quoted(items[i]@),
    ));
}

/// Appends a JSON array of the string literals of `items`.
pub fn push_json_string_array(out: &mut String, items: &Vec<String>)
    ensures
        final(out)@ == old(out)@ + json_array(quoted_all(items@)),
{
    push_char(out, '[');
    let ghost start = out@;
    let mut i: usize = 0;
    while i < items.len()
        invariant
            i <= items.len(),
            start == old(out)@.push('['),
            out@ == start + comma_join(quoted_all(items@.take(i as int))),
        decreases items.len() - i,
    {
        let ghost before = out@;
        if i > 0 {
            push_char(out, ',');
        }
        push_json_string(out, items[i].as_str());
        proof {
            lemma_quoted_push(items@, i as int);
            let qs = quoted_all(items@.take(i + 1));
            assert(qs.drop_last() == quoted_all(items@.take(i as int)));
            if i == 0 {
                assert(quoted_all(items@.take(0)).len() == 0);
                assert(comma_join(quoted_all(items@.take(0))) == Seq::<char>::empty());
                assert(out@ == start + comma_join(qs));
            } else {
                assert(out@ == start + comma_join(qs));
            }
        }
        i += 1;
    }
    push_char(out, ']');
    assert(items@.take(items@.len() as int) == items@);
    assert(out@ == old(out)@ + json_array(quoted_all(items@)));
}

/// The value of a lowercase hexadecimal digit, or -1.
pub open spec fn hex_value(c: char) -> int {
    let u = c as u32;
    if 0x30 <= u <= 0x39 {
        u - 0x30
    } else if 0x61 <= u <= 0x66 {
        u - 0x61 + 10
    } else {
        -1
    }
}

/// The character that the escape `\e` stands for, for the one-letter escapes.
pub open spec fn short_escape(e: char) -> Option<char> {
    if e == '"' {
        Some('"')
    } else if e == '\\' {
        Some('\\')
    } else if e == 'b' {
        Some(8u32 as char)
    } else if e == 't' {
        Some(9u32 as char)
    } else if e == 'n' {
        Some(10u32 as char)
    } else if e == 'f' {
        Some(12u32 as char)
    } else if e == 'r' {
        Some(13u32 as char)
    } else {
        None
    }
}

/// Reads the contents of a JSON string literal up to its closing quote, as a
/// JSON reader does: the characters they stand for, and the text after the
/// quote. Escapes read are the one-letter ones and `\u00XX`.
pub open spec fn read_string_body(t: Seq<char>) -> Option<(Seq<char>, Seq<char>)>
    decreases t.len(),
{
    if t.len() == 0 {
        None
    } else if t[0] == '"' {
        Some((Seq::empty(), t.drop_first()))
    } else if t[0] == '\\' {
        if t.len() >= 2 && short_escape(t[1]) is Some {
            match read_string_body(t.skip(2)) {
                Some((d, r)) => Some((seq![short_escape(t[1])->0] + d, r)),
                None => None,
            }
        } else if t.len() >= 6 && t[1] == 'u' && t[2] == '0' && t[3] == '0' && hex_value(t[4]) >= 0
            && hex_value(t[5]) >= 0 {
            match read_string_body(t.skip(6)) {
                Some((d, r)) => Some(
                    (seq![((hex_value(t[4]) * 16 + hex_value(t[5])) as u32) as char] + d, r),
                ),
                None => None,
            }
        } else {
            None
        }
    } else {
        match read_string_body(t.drop_first()) {
            Some((d, r)) => Some((seq![t[0]] + d, r)),
            None => None,
        }
    }
}

/// Reads a JSON string literal at the start of `t`: its value and the text after it.
pub open spec fn read_string(t: Seq<char>) -> Option<(Seq<char>, Seq<char>)> {
    if t.len() > 0 && t[0] == '"' {
        read_string_body(t.drop_first())
    } else {
        None
    }
}

proof fn lemma_escape_front(s: Seq<char>)
    requires
        s.len() > 0,
    ensures
        json_escape(s) == json_escape_char(s[0]) + json_escape(s.drop_first()),
    decreases s.len(),
{
    if s.len() == 1 {
        assert(s.drop_last() =~= Seq::<char>::empty());
        assert(s.drop_first() =~= Seq::<char>::empty());
        assert(json_escape(s) =~= json_escape_char(s[0]) + json_escape(s.drop_first()));
    } else {
        lemma_escape_front(s.drop_last());
        assert(s.drop_last().drop_first() =~= s.drop_first().drop_last());
        assert(s.drop_first().last() == s.last());
        assert(json_escape(s) =~= json_escape_char(s[0]) + json_escape(s.drop_first()));
    }
}

proof fn lemma_read_escaped_char(c: char, t: Seq<char>)
    ensures
        read_string_body(json_escape_char(c) + t) == match read_string_body(t) {
            Some((d, r)) => Some((seq![c] + d, r)),
            None => None::<(Seq<char>, Seq<char>)>,
        },
{
    let u = c as u32;
    let e = json_escape_char(c);
    let x = e + t;
    if c == '"' || c == '\\' || u == 0x08 || u == 0x09 || u == 0x0a || u == 0x0c || u == 0x0d {
        assert(x.skip(2) =~= t);
        assert(x[0] == '\\');
        assert(short_escape(x[1]) == Some(c));
    } else if u < 0x20 {
        assert(x.skip(6) =~= t);
        assert(x[0] == '\\' && x[1] == 'u' && x[2] == '0' && x[3] == '0');
        assert(hex_value(x[4]) == u / 16);
        assert(hex_value(x[5]) == u % 16);
        assert(((hex_value(x[4]) * 16 + hex_value(x[5])) as u32) as char == c);
    } else {
        assert(x.drop_first() =~= t);
    }
}

/// A string literal that `serde_json` writes reads back as the string it was
/// written for, with the text after it untouched.
pub proof fn lemma_read_quoted(s: Seq<char>, rest: Seq<char>)
    ensures
        read_string(json_quoted(s) + rest) == Some((s, rest)),
    decreases s.len(),
{
    lemma_read_escaped_body(s, rest);
    let x = json_quoted(s) + rest;
    assert(x.drop_first() =~= json_escape(s) + seq!['"'] + rest);
}

proof fn lemma_read_escaped_body(s: Seq<char>, rest: Seq<char>)
    ensures
        read_string_body(json_escape(s) + seq!['"'] + rest) == Some((s, rest)),
    decreases s.len(),
{
    if s.len() == 0 {
        assert(json_escape(s) + seq!['"'] + rest =~= seq!['"'] + rest);
        assert((seq!['"'] + rest).drop_first() =~= rest);
    } else {
        lemma_escape_front(s);
        lemma_read_escaped_body(s.drop_first(), rest);
        let t = json_escape(s.drop_first()) + seq!['"'] + rest;
        assert(json_escape(s) + seq!['"'] + rest =~= json_escape_char(s[0]) + t);
        lemma_read_escaped_char(s[0], t);
        assert(seq![s[0]] + s.drop_first() =~= s);
    }
}

/// What is left after reading a string literal is shorter than what was read.
pub proof fn lemma_read_string_shrinks(t: Seq<char>)
    ensures
        read_string_body(t) matches Some((_, r)) ==> r.len() < t.len(),
        read_string(t) matches Some((_, r)) ==> r.len() < t.len(),
    decreases t.len(),
{
    if t.len() > 0 {
        if t[0] != '"' {
            if t[0] == '\\' {
                if t.len() >= 2 {
                    lemma_read_string_shrinks(t.skip(2));
                }
                if t.len() >= 6 {
                    lemma_read_string_shrinks(t.skip(6));
                }
            } else {
                lemma_read_string_shrinks(t.drop_first());
            }
        }
        lemma_read_string_shrinks(t.drop_first());
    }
}

/// Reads the string literals of a JSON array after its `[`, up to and
/// including its `]`: their values and the text after the array.
pub open spec fn read_string_items(t: Seq<char>) -> Option<(Seq<Seq<char>>, Seq<char>)>
    decreases t.len(),
{
    match read_string(t) {
        Some((s, r)) => {
            proof {
                lemma_read_string_shrinks(t);
            }
            if r.len() > 0 && r[0] == ']' {
                Some((seq![s], r.drop_first()))
            } else if r.len() > 0 && r[0] == ',' {
                match read_string_items(r.drop_first()) {
                    Some((ss, r2)) => Some((seq![s] + ss, r2)),
                    None => None,
                }
            } else {
                None
            }
        },
        None => None,
    }
}

/// Reads a JSON array of string literals at the start of `t`: their values
/// in order, and the text after the array.
pub open spec fn read_string_array(t: Seq<char>) -> Option<(Seq<Seq<char>>, Seq<char>)> {
    if t.len() >= 2 && t[0] == '[' && t[1] == ']' {
        Some((Seq::empty(), t.skip(2)))
    } else if t.len() >= 1 && t[0] == '[' {
        read_string_items(t.drop_first())
    } else {
        None
    }
}

/// The values of a list of strings.
pub open spec fn string_values(items: Seq<String>) -> Seq<Seq<char>> {
    items.map_values(|s: String| s@)
}

/// The items joined by commas, seen from the front.
pub proof fn lemma_comma_join_front(items: Seq<Seq<char>>)
    requires
        items.len() >= 2,
    ensures
        comma_join(items) == items[0] + seq![','] + comma_join(items.drop_first()),
    decreases items.len(),
{
    if items.len() == 2 {
        assert(items.drop_last() =~= seq![items[0]]);
        assert(items.drop_first() =~= seq![items[1]]);
        assert(comma_join(seq![items[0]]) == items[0]);
        assert(comma_join(seq![items[1]]) == items[1]);
    } else {
        lemma_comma_join_front(items.drop_last());
        assert(items.drop_last().drop_first() =~= items.drop_first().drop_last());
        assert(items.drop_first().last() == items.last());
        assert(items.drop_last()[0] == items[0]);
        assert(comma_join(items) =~= items[0] + seq![','] + comma_join(items.drop_first()));
    }
}

proof fn lemma_read_items(items: Seq<String>, rest: Seq<char>)
    requires
        items.len() >= 1,
    ensures
        read_string_items(comma_join(quoted_all(items)) + seq![']'] + rest) == Some(
            (string_values(items), rest),
        ),
    decreases items.len(),
{
    let q = quoted_all(items);
    if items.len() == 1 {
        assert(comma_join(q) == q[0]);
        lemma_read_quoted(items[0]@, seq![']'] + rest);
        assert(q[0] + seq![']'] + rest =~= json_quoted(items[0]@) + (seq![']'] + rest));
        assert((seq![']'] + rest).drop_first() =~= rest);
        assert(string_values(items) =~= seq![items[0]@]);
    } else {
        lemma_comma_join_front(q);
        let tail = items.drop_first();
        assert(q.drop_first() =~= quoted_all(tail));
        lemma_read_items(tail, rest);
        let after = comma_join(quoted_all(tail)) + seq![']'] + rest;
        lemma_read_quoted(items[0]@, seq![','] + after);
        assert(comma_join(q) + seq![']'] + rest =~= json_quoted(items[0]@) + (seq![','] + after));
        assert((seq![','] + after).drop_first() =~= after);
        assert(string_values(items) =~= seq![items[0]@] + string_values(tail));
    }
}

/// An array of string literals that the library writes reads back as the
/// same strings, in order, with the text after it untouched.
pub proof fn lemma_read_string_array(items: Seq<String>, rest: Seq<char>)
    ensures
        read_string_array(json_array(quoted_all(items)) + rest) == Some((string_values(items), rest)),
{
    let x = json_array(quoted_all(items)) + rest;
    if items.len() == 0 {
        assert(quoted_all(items).len() == 0);
        assert(x =~= seq!['[', ']'] + rest);
        assert(x.skip(2) =~= rest);
        assert(string_values(items) =~= Seq::<Seq<char>>::empty());
    } else {
        lemma_read_items(items, rest);
        lemma_read_quoted(items[0]@, Seq::empty());
        assert(quoted_all(items)[0] == json_quoted(items[0]@));
        if items.len() >= 2 {
            lemma_comma_join_front(quoted_all(items));
        } else {
            assert(comma_join(quoted_all(items)) == quoted_all(items)[0]);
        }
        assert(x.drop_first() =~= comma_join(quoted_all(items)) + seq![']'] + rest);
        assert(x[1] == '"');
    }
}

/// The text after `lit` when `t` starts with it.
pub open spec fn after_literal(lit: Seq<char>, t: Seq<char>) -> Option<Seq<char>> {
    if lit.is_prefix_of(t) {
        Some(t.skip(lit.len() as int))
    } else {
        None
    }
}

/// Text that starts with a literal has the rest after it.
pub proof fn lemma_after_literal(lit: Seq<char>, t: Seq<char>)
    ensures
        after_literal(lit, lit + t) == Some(t),
{
    assert((lit + t).subrange(0, lit.len() as int) =~= lit);
    assert((lit + t).skip(lit.len() as int) =~= t);
}

} // verus!
