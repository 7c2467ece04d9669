//! The JSON parser: executable code that reads a text as the grammar says.

use vstd::prelude::*;
use crate::grammar;
use crate::grammar::MAX_DEPTH;
use crate::json::{items_view, lemma_array_view, lemma_object_view, members_view};
use crate::json::{Json, JsonValue, Member};
use crate::text::{chars_of, string_of};

verus! {

/// A position found by the parser, as the grammar counts positions.
spec fn found<T>(r: Option<(T, usize)>) -> Option<(T, int)> {
    match r {
        Some((value, end)) => Some((value, end as int)),
        None => None,
    }
}

/// A string found by the parser, as the grammar sees it.
spec fn found_text(r: Option<(String, usize)>) -> Option<(Seq<char>, int)> {
    match r {
        Some((text, end)) => Some((text@, end as int)),
        None => None,
    }
}

/// A value found by the parser, as the grammar sees it.
spec fn found_value(r: Option<(Json, usize)>) -> Option<(JsonValue, int)> {
    match r {
        Some((value, end)) => Some((value@, end as int)),
        None => None,
    }
}

/// The items of an array found by the parser, as the grammar sees them.
spec fn found_items(r: Option<(Vec<Json>, usize)>) -> Option<(Seq<JsonValue>, int)> {
    match r {
        Some((items, end)) => Some((items_view(items@), end as int)),
        None => None,
    }
}

/// The members of an object found by the parser, as the grammar sees them.
spec fn found_members(r: Option<(Vec<Member>, usize)>) -> Option<
    (Seq<(Seq<char>, JsonValue)>, int),
> {
    match r {
        Some((members, end)) => Some((members_view(members@), end as int)),
        None => None,
    }
}

/// What the parser returned, as the grammar sees it.
pub open spec fn parsed(r: Option<Json>) -> Option<JsonValue> {
    match r {
        Some(value) => Some(value@),
        None => None,
    }
}

fn is_space(c: char) -> (r: bool)
    ensures
        r == grammar::is_space(c),
{
    c == ' ' || c == '\t' || c == '\n' || c == '\r'
}

fn is_control(c: char) -> (r: bool)
    ensures
        r == grammar::is_control(c),
{
    ' ' > c
}

fn is_digit(c: char) -> (r: bool)
    ensures
        r == crate::decimal::is_digit(c),
{
    c >= '0' && c <= '9'
}

fn read_space(s: &Vec<char>, i: usize) -> (k: usize)
    requires
        i <= s.len(),
    ensures
        k == grammar::skip_space(s@, i as int),
        i <= k <= s.len(),
{
    let mut k: usize = i;
    while k < s.len() && is_space(s[k])
        invariant
            i <= k <= s.len(),
            grammar::skip_space(s@, i as int) == grammar::skip_space(s@, k as int),
        decreases s.len() - k,
    {
        k = k + 1;
    }
    k
}

fn read_digits(s: &Vec<char>, i: usize) -> (k: usize)
    requires
        i <= s.len(),
    ensures
        k == grammar::digits_end(s@, i as int),
        i <= k <= s.len(),
{
    let mut k: usize = i;
    while k < s.len() && is_digit(s[k])
        invariant
            i <= k <= s.len(),
            grammar::digits_end(s@, i as int) == grammar::digits_end(s@, k as int),
        decreases s.len() - k,
    {
        k = k + 1;
    }
    k
}

fn read_word(s: &Vec<char>, i: usize, word: &str) -> (r: bool)
    requires
        i <= s.len(),
    ensures
        r == grammar::has_word(s@, i as int, word@),
{
    let n = word.unicode_len();
    if n > s.len() - i {
        return false;
    }
    let ghost part = s@.subrange(i as int, i + n);
    let mut k: usize = 0;
    while k < n
        invariant
            k <= n == word@.len(),
            i + n <= s.len(),
            part == s@.subrange(i as int, i + n),
            forall|j: int| 0 <= j < k ==> part[j] == word@[j],
        decreases n - k,
    {
        if s[i + k] != word.get_char(k) {
            assert(part[k as int] != word@[k as int]);
            return false;
        }
        k = k + 1;
    }
    assert(part =~= word@);
    true
}

fn hex_value(c: char) -> (r: Option<u32>)
    ensures
        match r {
            Some(v) => grammar::hex_value(c) == Some(v as int) && v < 16,
            None => grammar::hex_value(c) is None,
        },
{
    if c >= '0' && c <= '9' {
        Some(c as u32 - '0' as u32)
    } else if c >= 'a' && c <= 'f' {
        Some(c as u32 - 'a' as u32 + 10)
    } else if c >= 'A' && c <= 'F' {
        Some(c as u32 - 'A' as u32 + 10)
    } else {
        None
    }
}

fn read_hex4(s: &Vec<char>, i: usize) -> (r: Option<u32>)
    requires
        i <= s.len(),
    ensures
        match r {
            Some(v) => grammar::hex4_at(s@, i as int) == Some(v as int) && v <= 0xFFFF,
            None => grammar::hex4_at(s@, i as int) is None,
        },
{
    if s.len() - i < 4 {
        return None;
    }
    let a = hex_value(s[i])?;
    let b = hex_value(s[i + 1])?;
    let c = hex_value(s[i + 2])?;
    let d = hex_value(s[i + 3])?;
    Some(((a * 16 + b) * 16 + c) * 16 + d)
}

fn simple_escape(c: char) -> (r: Option<char>)
    ensures
        r == grammar::simple_escape(c),
{
    if c == '"' || c == '\\' || c == '/' {
        Some(c)
    } else if c == 'b' {
        Some('\u{8}')
    } else if c == 'f' {
        Some('\u{c}')
    } else if c == 'n' {
        Some('\n')
    } else if c == 'r' {
        Some('\r')
    } else if c == 't' {
        Some('\t')
    } else {
        None
    }
}

fn read_escape(s: &Vec<char>, i: usize) -> (r: Option<(char, usize)>)
    requires
        i <= s.len(),
    ensures
        found(r) == grammar::escape_at(s@, i as int),
        r matches Some((_, end)) ==> i < end <= s.len(),
{
    if i >= s.len() {
        return None;
    }
    if s[i] != 'u' {
        return match simple_escape(s[i]) {
            Some(c) => Some((c, i + 1)),
            None => None,
        };
    }
    let first = read_hex4(s, i + 1)?;
    match char::from_u32(first) {
        Some(c) => Some((c, i + 5)),
        None => {
            if !(0xD800 <= first && first <= 0xDBFF) {
                return None;
            }
            if s.len() - i < 7 || s[i + 5] != '\\' || s[i + 6] != 'u' {
                return None;
            }
            let second = read_hex4(s, i + 7)?;
            if !(0xDC00 <= second && second <= 0xDFFF) {
                return None;
            }
            let code: u32 = 0x10000 + (first - 0xD800) * 0x400 + (second - 0xDC00);
            match char::from_u32(code) {
                Some(c) => Some((c, i + 11)),
                None => None,
            }
        },
    }
}

fn read_text(s: &Vec<char>, i: usize) -> (r: Option<(String, usize)>)
    requires
        i <= s.len(),
    ensures
        found_text(r) == grammar::text_at(s@, i as int),
        r matches Some((_, end)) ==> i < end <= s.len(),
{
    let mut text = String::new();
    let mut k: usize = i;
    while k < s.len()
        invariant
            i <= k <= s.len(),
            grammar::text_at(s@, i as int) == grammar::after(
                text@,
                grammar::text_at(s@, k as int),
            ),
        decreases s.len() - k,
    {
        let c = s[k];
        let ghost before = text@;
        if c == '"' {
            assert(before + Seq::<char>::empty() =~= before);
            return Some((text, k + 1));
        } else if c == '\\' {
            match read_escape(s, k + 1) {
                Some((e, next)) => {
                    text.push(e);
                    proof {
                        let rest = grammar::text_at(s@, next as int);
                        if let Some((tail, end)) = rest {
                            assert(before + (seq![e] + tail) =~= before.push(e) + tail);
                        }
                    }
                    k = next;
                },
                None => {
                    return None;
                },
            }
        } else if is_control(c) {
            return None;
        } else {
            text.push(c);
            proof {
                let rest = grammar::text_at(s@, k + 1);
                if let Some((tail, end)) = rest {
                    assert(before + (seq![c] + tail) =~= before.push(c) + tail);
                }
            }
            k = k + 1;
        }
    }
    None
}

fn read_number(s: &Vec<char>, i: usize) -> (r: Option<usize>)
    requires
        i < s.len(),
    ensures
        match r {
            Some(end) => grammar::number_end(s@, i as int) == Some(end as int) && i < end
                <= s.len(),
            None => grammar::number_end(s@, i as int) is None,
        },
{
    let a: usize = if s[i] == '-' {
        i + 1
    } else {
        i
    };
    if a >= s.len() || !is_digit(s[a]) {
        return None;
    }
    let b: usize = if s[a] == '0' {
        a + 1
    } else {
        read_digits(s, a + 1)
    };
    let c: usize = if b < s.len() && s[b] == '.' {
        let end = read_digits(s, b + 1);
        if end == b + 1 {
            return None;
        }
        end
    } else {
        b
    };
    if c < s.len() && (s[c] == 'e' || s[c] == 'E') {
        let d: usize = if c + 1 < s.len() && (s[c + 1] == '+' || s[c + 1] == '-') {
            c + 2
        } else {
            c + 1
        };
        let end = read_digits(s, d);
        if end == d {
            return None;
        }
        Some(end)
    } else {
        Some(c)
    }
}

fn read_value(s: &Vec<char>, i: usize, depth: usize) -> (r: Option<(Json, usize)>)
    requires
        i <= s.len(),
    ensures
        found_value(r) == grammar::value_at(s@, i as int, depth as nat),
        r matches Some((_, end)) ==> i < end <= s.len(),
    decreases depth, 0nat,
{
    proof {
        reveal_strlit("true");
        reveal_strlit("false");
        reveal_strlit("null");
    }
    let a = read_space(s, i);
    if a >= s.len() {
        return None;
    }
    let c = s[a];
    if c == '"' {
        match read_text(s, a + 1) {
            Some((text, end)) => Some((Json::Str(text), end)),
            None => None,
        }
    } else if c == '[' {
        let b = read_space(s, a + 1);
        if depth == 0 {
            None
        } else if b < s.len() && s[b] == ']' {
            let items: Vec<Json> = Vec::new();
            proof {
                lemma_array_view(items);
                assert(items_view(items@) =~= Seq::empty());
            }
            Some((Json::Array(items), b + 1))
        } else {
            match read_items(s, b, depth - 1) {
                Some((items, end)) => {
                    proof {
                        lemma_array_view(items);
                    }
                    Some((Json::Array(items), end))
                },
                None => None,
            }
        }
    } else if c == '{' {
        let b = read_space(s, a + 1);
        if depth == 0 {
            None
        } else if b < s.len() && s[b] == '}' {
            let members: Vec<Member> = Vec::new();
            proof {
                lemma_object_view(members);
                assert(members_view(members@) =~= Seq::empty());
            }
            Some((Json::Object(members), b + 1))
        } else {
            match read_members(s, b, depth - 1) {
                Some((members, end)) => {
                    proof {
                        lemma_object_view(members);
                    }
                    Some((Json::Object(members), end))
                },
                None => None,
            }
        }
    } else if read_word(s, a, "true") {
        Some((Json::Bool(true), a + 4))
    } else if read_word(s, a, "false") {
        Some((Json::Bool(false), a + 5))
    } else if read_word(s, a, "null") {
        Some((Json::Null, a + 4))
    } else {
        match read_number(s, a) {
            Some(end) => Some((Json::Number(string_of(s, a, end)), end)),
            None => None,
        }
    }
}

fn read_items(s: &Vec<char>, i: usize, depth: usize) -> (r: Option<(Vec<Json>, usize)>)
    requires
        i <= s.len(),
    ensures
        found_items(r) == grammar::items_at(s@, i as int, depth as nat),
        r matches Some((_, end)) ==> i < end <= s.len(),
    decreases depth, 1nat,
{
    let mut items: Vec<Json> = Vec::new();
    let mut at: usize = i;
    loop
        invariant
            i <= at <= s.len(),
            grammar::items_at(s@, i as int, depth as nat) == grammar::after(
                items_view(items@),
                grammar::items_at(s@, at as int, depth as nat),
            ),
        decreases s.len() - at,
    {
        let ghost before = items_view(items@);
        match read_value(s, at, depth) {
            None => {
                return None;
            },
            Some((item, j)) => {
                let ghost value = item@;
                let k = read_space(s, j);
                if k >= s.len() {
                    return None;
                }
                if s[k] == ']' {
                    items.push(item);
                    assert(items_view(items@) =~= before + seq![value]);
                    return Some((items, k + 1));
                } else if s[k] == ',' {
                    items.push(item);
                    proof {
                        assert(items_view(items@) =~= before.push(value));
                        if let Some((tail, end)) = grammar::items_at(
                            s@,
                            k + 1,
                            depth as nat,
                        ) {
                            assert(before + (seq![value] + tail) =~= before.push(value) + tail);
                        }
                    }
                    at = k + 1;
                } else {
                    return None;
                }
            },
        }
    }
}

fn read_members(s: &Vec<char>, i: usize, depth: usize) -> (r: Option<(Vec<Member>, usize)>)
    requires
        i <= s.len(),
    ensures
        found_members(r) == grammar::members_at(s@, i as int, depth as nat),
        r matches Some((_, end)) ==> i < end <= s.len(),
    decreases depth, 1nat,
{
    let mut members: Vec<Member> = Vec::new();
    let mut at: usize = i;
    loop
        invariant
            i <= at <= s.len(),
            grammar::members_at(s@, i as int, depth as nat) == grammar::after(
                members_view(members@),
                grammar::members_at(s@, at as int, depth as nat),
            ),
        decreases s.len() - at,
    {
        let ghost before = members_view(members@);
        let a = read_space(s, at);
        if a >= s.len() || s[a] != '"' {
            return None;
        }
        let (name, j) = match read_text(s, a + 1) {
            Some(read) => read,
            None => {
                return None;
            },
        };
        let c = read_space(s, j);
        if c >= s.len() || s[c] != ':' {
            return None;
        }
        let (value, m) = match read_value(s, c + 1, depth) {
            Some(read) => read,
            None => {
                return None;
            },
        };
        let k = read_space(s, m);
        if k >= s.len() {
            return None;
        }
        let ghost pair = (name@, value@);
        if s[k] == '}' {
            members.push(Member { name, value });
            assert(members_view(members@) =~= before + seq![pair]);
            return Some((members, k + 1));
        } else if s[k] == ',' {
            members.push(Member { name, value });
            proof {
                assert(members_view(members@) =~= before.push(pair));
                if let Some((tail, end)) = grammar::members_at(s@, k + 1, depth as nat) {
                    assert(before + (seq![pair] + tail) =~= before.push(pair) + tail);
                }
            }
            at = k + 1;
        } else {
            return None;
        }
    }
}

/// Reads `text` as one JSON value, and gives nothing where `text` is not
/// well formed or is nested deeper than `MAX_DEPTH`.
pub fn parse(text: &str) -> (r: Option<Json>)
    ensures
        parsed(r) == grammar::parse(text@),
{
    let s = chars_of(text);
    match read_value(&s, 0, MAX_DEPTH) {
        Some((value, end)) => {
            if read_space(&s, end) == s.len() {
                Some(value)
            } else {
                None
            }
        },
        None => None,
    }
}

} // verus!
