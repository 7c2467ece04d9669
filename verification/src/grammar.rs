//! The grammar of JSON texts: what a sequence of characters means.
//!
//! Every function here reads a text `s` from a position `i` on and gives, where
//! the text is well formed there, what was read and the position just behind
//! it. The grammar is that of RFC 8259, with one addition: arrays and objects
//! may be nested at most `MAX_DEPTH` deep.

use vstd::prelude::*;
use crate::decimal::is_digit;
use crate::json::JsonValue;
use crate::text::is_scalar_value;

verus! {

/// How deep arrays and objects may be nested.
pub const MAX_DEPTH: usize = 128;

/// Whether `c` is one of the four characters that may separate tokens.
pub open spec fn is_space(c: char) -> bool {
    c == ' ' || c == '\t' || c == '\n' || c == '\r'
}

/// The first position from `i` on that holds no white space.
pub open spec fn skip_space(s: Seq<char>, i: int) -> int
    decreases s.len() - i,
{
    if 0 <= i < s.len() && is_space(s[i]) {
        skip_space(s, i + 1)
    } else {
        i
    }
}

/// Whether the characters of `word` stand in `s` from `i` on.
pub open spec fn has_word(s: Seq<char>, i: int, word: Seq<char>) -> bool {
    0 <= i && i + word.len() <= s.len() && s.subrange(i, i + word.len()) == word
}

/// The number that a hexadecimal digit stands for.
pub open spec fn hex_value(c: char) -> Option<int> {
    if '0' <= c <= '9' {
        Some(c as int - '0' as int)
    } else if 'a' <= c <= 'f' {
        Some(c as int - 'a' as int + 10)
    } else if 'A' <= c <= 'F' {
        Some(c as int - 'A' as int + 10)
    } else {
        None
    }
}

/// The number that the four hexadecimal digits at `i` stand for.
pub open spec fn hex4_at(s: Seq<char>, i: int) -> Option<int> {
    if 0 <= i && i + 4 <= s.len() {
        match (hex_value(s[i]), hex_value(s[i + 1]), hex_value(s[i + 2]), hex_value(s[i + 3])) {
            (Some(a), Some(b), Some(c), Some(d)) => Some(((a * 16 + b) * 16 + c) * 16 + d),
            _ => None,
        }
    } else {
        None
    }
}

/// The character that a one-letter escape stands for.
pub open spec fn simple_escape(c: char) -> Option<char> {
    if c == '"' || c == '\\' || c == '/' {
        Some(c)
    } else if c == 'b' {
        Some('\u{8}')
    } else if c == 'f' {
        Some('\u{c}')
    } else if c == 'n' {
        Some('\n')
    } else if c == 'r' {
        Some('\r')
    } else if c == 't' {
        Some('\t')
    } else {
        None
    }
}

/// The code point that a pair of UTF-16 surrogates stands for.
pub open spec fn surrogate_pair(high: int, low: int) -> int {
    0x10000 + (high - 0xD800) * 0x400 + (low - 0xDC00)
}

/// The character that the escape behind a backslash stands for, `i` being the
/// position behind the backslash. A `\u` escape gives the character with that
/// number; a high surrogate must be followed by a `\u` escape of a low one,
/// and the two give one character.
pub open spec fn escape_at(s: Seq<char>, i: int) -> Option<(char, int)> {
    if !(0 <= i < s.len()) {
        None
    } else if s[i] == 'u' {
        match hex4_at(s, i + 1) {
            None => None,
            Some(first) => if is_scalar_value(first) {
                Some((first as char, i + 5))
            } else if 0xD800 <= first <= 0xDBFF && i + 7 <= s.len() && s[i + 5] == '\\' && s[i
                + 6] == 'u' {
                match hex4_at(s, i + 7) {
                    None => None,
                    Some(second) => if 0xDC00 <= second <= 0xDFFF {
                        Some((surrogate_pair(first, second) as char, i + 11))
                    } else {
                        None
                    },
                }
            } else {
                None
            },
        }
    } else {
        match simple_escape(s[i]) {
            Some(c) => Some((c, i + 1)),
            None => None,
        }
    }
}

/// Whether `c` is a control character, which no string may hold unescaped.
pub open spec fn is_control(c: char) -> bool {
    ' ' > c
}

/// `found` with `head` put before what it read.
pub open spec fn after<T>(head: Seq<T>, found: Option<(Seq<T>, int)>) -> Option<(Seq<T>, int)> {
    match found {
        Some((tail, end)) => Some((head + tail, end)),
        None => None,
    }
}

/// The characters that a string stands for, `i` being the position behind its
/// opening quote, and the position behind its closing quote.
pub open spec fn text_at(s: Seq<char>, i: int) -> Option<(Seq<char>, int)>
    decreases s.len() - i,
{
    if !(0 <= i < s.len()) {
        None
    } else if s[i] == '"' {
        Some((Seq::empty(), i + 1))
    } else if s[i] == '\\' {
        match escape_at(s, i + 1) {
            Some((c, next)) => after(seq![c], text_at(s, next)),
            None => None,
        }
    } else if is_control(s[i]) {
        None
    } else {
        after(seq![s[i]], text_at(s, i + 1))
    }
}

/// The first position from `i` on that holds no digit.
pub open spec fn digits_end(s: Seq<char>, i: int) -> int
    decreases s.len() - i,
{
    if 0 <= i < s.len() && is_digit(s[i]) {
        digits_end(s, i + 1)
    } else {
        i
    }
}

/// Where the fraction that may start at `i` ends: a point must be followed by
/// a digit.
pub open spec fn fraction_end(s: Seq<char>, i: int) -> Option<int> {
    if 0 <= i < s.len() && s[i] == '.' {
        if digits_end(s, i + 1) > i + 1 {
            Some(digits_end(s, i + 1))
        } else {
            None
        }
    } else {
        Some(i)
    }
}

/// Where the exponent that may start at `i` ends: an `e` must be followed by
/// a digit, with a sign between them or without.
pub open spec fn exponent_end(s: Seq<char>, i: int) -> Option<int> {
    if 0 <= i < s.len() && (s[i] == 'e' || s[i] == 'E') {
        let d = if i + 1 < s.len() && (s[i + 1] == '+' || s[i + 1] == '-') {
            i + 2
        } else {
            i + 1
        };
        if digits_end(s, d) > d {
            Some(digits_end(s, d))
        } else {
            None
        }
    } else {
        Some(i)
    }
}

/// Where the number that starts at `i` ends: a minus sign or none, then a
/// zero or digits that start with no zero, then a fraction or none, then an
/// exponent or none.
pub open spec fn number_end(s: Seq<char>, i: int) -> Option<int> {
    let a = if 0 <= i < s.len() && s[i] == '-' {
        i + 1
    } else {
        i
    };
    if !(0 <= a < s.len() && is_digit(s[a])) {
        None
    } else {
        let b = if s[a] == '0' {
            a + 1
        } else {
            digits_end(s, a)
        };
        match fraction_end(s, b) {
            Some(c) => exponent_end(s, c),
            None => None,
        }
    }
}

/// The value that stands in `s` from `i` on, white space before it passed
/// over, and the position behind it. Arrays and objects may be nested `depth`
/// deep.
pub open spec fn value_at(s: Seq<char>, i: int, depth: nat) -> Option<(JsonValue, int)>
    decreases depth, s.len() - i, 0nat,
{
    let a = skip_space(s, i);
    if !(0 <= a < s.len()) {
        None
    } else if s[a] == '"' {
        match text_at(s, a + 1) {
            Some((text, end)) => Some((JsonValue::Str(text), end)),
            None => None,
        }
    } else if s[a] == '[' {
        let b = skip_space(s, a + 1);
        if depth == 0 {
            None
        } else if 0 <= b < s.len() && s[b] == ']' {
            Some((JsonValue::Array(Seq::empty()), b + 1))
        } else {
            match items_at(s, b, (depth - 1) as nat) {
                Some((items, end)) => Some((JsonValue::Array(items), end)),
                None => None,
            }
        }
    } else if s[a] == '{' {
        let b = skip_space(s, a + 1);
        if depth == 0 {
            None
        } else if 0 <= b < s.len() && s[b] == '}' {
            Some((JsonValue::Object(Seq::empty()), b + 1))
        } else {
            match members_at(s, b, (depth - 1) as nat) {
                Some((members, end)) => Some((JsonValue::Object(members), end)),
                None => None,
            }
        }
    } else if has_word(s, a, "true"@) {
        Some((JsonValue::Bool(true), a + 4))
    } else if has_word(s, a, "false"@) {
        Some((JsonValue::Bool(false), a + 5))
    } else if has_word(s, a, "null"@) {
        Some((JsonValue::Null, a + 4))
    } else {
        match number_end(s, a) {
            Some(end) => Some((JsonValue::Number(s.subrange(a, end)), end)),
            None => None,
        }
    }
}

/// The items of an array from `i` on, up to its closing bracket: one value or
/// more, with commas between them. The bound `i <= k` holds of every value
/// that was read (`lemma_items_bound_is_met`); it is written out because the
/// definition's termination rests on it.
pub open spec fn items_at(s: Seq<char>, i: int, depth: nat) -> Option<(Seq<JsonValue>, int)>
    decreases depth, s.len() - i, 1nat,
{
    match value_at(s, i, depth) {
        None => None,
        Some((item, j)) => {
            let k = skip_space(s, j);
            if !(i <= k < s.len()) {
                None
            } else if s[k] == ']' {
                Some((seq![item], k + 1))
            } else if s[k] == ',' {
                after(seq![item], items_at(s, k + 1, depth))
            } else {
                None
            }
        },
    }
}

/// The members of an object from `i` on, up to its closing brace: one or more
/// of a name, a colon and a value, with commas between them. The bounds
/// `i <= c` and `i <= k` hold of everything that was read
/// (`lemma_members_bounds_are_met`); they are written out because the
/// definition's termination rests on them.
pub open spec fn members_at(s: Seq<char>, i: int, depth: nat) -> Option<
    (Seq<(Seq<char>, JsonValue)>, int),
>
    decreases depth, s.len() - i, 1nat,
{
    let a = skip_space(s, i);
    if !(0 <= a < s.len() && s[a] == '"') {
        None
    } else {
        match text_at(s, a + 1) {
            None => None,
            Some((name, j)) => {
                let c = skip_space(s, j);
                if !(i <= c < s.len() && s[c] == ':') {
                    None
                } else {
                    match value_at(s, c + 1, depth) {
                        None => None,
                        Some((value, m)) => {
                            let k = skip_space(s, m);
                            if !(i <= k < s.len()) {
                                None
                            } else if s[k] == '}' {
                                Some((seq![(name, value)], k + 1))
                            } else if s[k] == ',' {
                                after(seq![(name, value)], members_at(s, k + 1, depth))
                            } else {
                                None
                            }
                        },
                    }
                }
            },
        }
    }
}

/// The value that the whole of `s` stands for: one value, with nothing but
/// white space before and behind it.
pub open spec fn parse(s: Seq<char>) -> Option<JsonValue> {
    match value_at(s, 0, MAX_DEPTH as nat) {
        Some((value, end)) => if skip_space(s, end) == s.len() {
            Some(value)
        } else {
            None
        },
        None => None,
    }
}

/// Passing over white space never goes back, nor beyond the end of the text.
pub proof fn lemma_skip_space_end(s: Seq<char>, i: int)
    ensures
        i <= skip_space(s, i),
        i <= s.len() ==> skip_space(s, i) <= s.len(),
    decreases s.len() - i,
{
    if 0 <= i < s.len() && is_space(s[i]) {
        lemma_skip_space_end(s, i + 1);
    }
}

/// Passing over digits never goes back, nor beyond the end of the text.
pub proof fn lemma_digits_end(s: Seq<char>, i: int)
    ensures
        i <= digits_end(s, i),
        i <= s.len() ==> digits_end(s, i) <= s.len(),
    decreases s.len() - i,
{
    if 0 <= i < s.len() && is_digit(s[i]) {
        lemma_digits_end(s, i + 1);
    }
}

/// A string ends behind where it starts, and within the text.
pub proof fn lemma_text_end(s: Seq<char>, i: int)
    ensures
        text_at(s, i) matches Some((_, end)) ==> 0 <= i < end <= s.len(),
    decreases s.len() - i,
{
    if 0 <= i < s.len() {
        if s[i] == '"' {
        } else if s[i] == '\\' {
            match escape_at(s, i + 1) {
                Some((c, next)) => {
                    lemma_text_end(s, next);
                },
                None => {},
            }
        } else if !is_control(s[i]) {
            lemma_text_end(s, i + 1);
        }
    }
}

/// A number ends behind where it starts, and within the text.
pub proof fn lemma_number_end(s: Seq<char>, i: int)
    requires
        0 <= i,
    ensures
        number_end(s, i) matches Some(end) ==> i < end <= s.len(),
{
    let a = if i < s.len() && s[i] == '-' {
        i + 1
    } else {
        i
    };
    if a < s.len() && is_digit(s[a]) {
        lemma_digits_end(s, a + 1);
        let b = if s[a] == '0' {
            a + 1
        } else {
            digits_end(s, a)
        };
        lemma_digits_end(s, b + 1);
        match fraction_end(s, b) {
            Some(c) => {
                lemma_digits_end(s, c + 1);
                lemma_digits_end(s, c + 2);
            },
            None => {},
        }
    }
}

/// A value ends behind where it starts, and within the text.
pub proof fn lemma_value_end(s: Seq<char>, i: int, depth: nat)
    ensures
        value_at(s, i, depth) matches Some((_, end)) ==> 0 <= i < end <= s.len(),
    decreases depth, s.len() - i, 0nat,
{
    reveal_strlit("true");
    reveal_strlit("false");
    reveal_strlit("null");
    let a = skip_space(s, i);
    lemma_skip_space_end(s, i);
    if 0 <= a < s.len() {
        if s[a] == '"' {
            lemma_text_end(s, a + 1);
        } else if s[a] == '[' {
            let b = skip_space(s, a + 1);
            lemma_skip_space_end(s, a + 1);
            if depth > 0 {
                lemma_items_end(s, b, (depth - 1) as nat);
            }
        } else if s[a] == '{' {
            let b = skip_space(s, a + 1);
            lemma_skip_space_end(s, a + 1);
            if depth > 0 {
                lemma_members_end(s, b, (depth - 1) as nat);
            }
        } else {
            lemma_number_end(s, a);
        }
    }
}

/// The items of an array end behind where they start, and within the text.
pub proof fn lemma_items_end(s: Seq<char>, i: int, depth: nat)
    ensures
        items_at(s, i, depth) matches Some((_, end)) ==> 0 <= i < end <= s.len(),
    decreases depth, s.len() - i, 1nat,
{
    lemma_value_end(s, i, depth);
    match value_at(s, i, depth) {
        Some((item, j)) => {
            let k = skip_space(s, j);
            lemma_skip_space_end(s, j);
            if i <= k < s.len() && s[k] == ',' {
                lemma_items_end(s, k + 1, depth);
            }
        },
        None => {},
    }
}

/// The members of an object end behind where they start, and within the text.
pub proof fn lemma_members_end(s: Seq<char>, i: int, depth: nat)
    ensures
        members_at(s, i, depth) matches Some((_, end)) ==> 0 <= i < end <= s.len(),
    decreases depth, s.len() - i, 1nat,
{
    let a = skip_space(s, i);
    lemma_skip_space_end(s, i);
    if 0 <= a < s.len() && s[a] == '"' {
        lemma_text_end(s, a + 1);
        match text_at(s, a + 1) {
            Some((name, j)) => {
                let c = skip_space(s, j);
                lemma_skip_space_end(s, j);
                if i <= c < s.len() && s[c] == ':' {
                    lemma_value_end(s, c + 1, depth);
                    match value_at(s, c + 1, depth) {
                        Some((value, m)) => {
                            let k = skip_space(s, m);
                            lemma_skip_space_end(s, m);
                            if i <= k < s.len() && s[k] == ',' {
                                lemma_members_end(s, k + 1, depth);
                            }
                        },
                        None => {},
                    }
                }
            },
            None => {},
        }
    }
}

/// The lower bound that `items_at` writes out is met by every item that was
/// read: it turns no text down.
pub proof fn lemma_items_bound_is_met(s: Seq<char>, i: int, depth: nat)
    ensures
        value_at(s, i, depth) matches Some((_, j)) ==> i <= skip_space(s, j),
{
    lemma_value_end(s, i, depth);
    if let Some((_, j)) = value_at(s, i, depth) {
        lemma_skip_space_end(s, j);
    }
}

/// The lower bounds that `members_at` writes out are met by every name and
/// every value that was read: they turn no text down.
pub proof fn lemma_members_bounds_are_met(s: Seq<char>, i: int, depth: nat)
    ensures
        text_at(s, skip_space(s, i) + 1) matches Some((_, j)) ==> {
            &&& i <= skip_space(s, j)
            &&& value_at(s, skip_space(s, j) + 1, depth) matches Some((_, m)) ==> i <= skip_space(
                s,
                m,
            )
        },
{
    lemma_skip_space_end(s, i);
    lemma_text_end(s, skip_space(s, i) + 1);
    if let Some((_, j)) = text_at(s, skip_space(s, i) + 1) {
        lemma_skip_space_end(s, j);
        lemma_value_end(s, skip_space(s, j) + 1, depth);
        if let Some((_, m)) = value_at(s, skip_space(s, j) + 1, depth) {
            lemma_skip_space_end(s, m);
        }
    }
}

} // verus!
