use slack::grammar::MAX_DEPTH;
use slack::json::{Json, Member};
use slack::parser::parse;

fn text(s: &str) -> Json {
    Json::Str(s.to_string())
}

fn number(s: &str) -> Json {
    Json::Number(s.to_string())
}

fn member(name: &str, value: Json) -> Member {
    Member { name: name.to_string(), value }
}

/// The escape that is written with a backslash, a `u` and `hex`.
fn u(hex: &str) -> String {
    format!("{}u{}", '\\', hex)
}

fn quoted(inner: &str) -> String {
    format!("\"{}\"", inner)
}

#[test]
fn parses_the_three_words() {
    assert_eq!(parse("null"), Some(Json::Null));
    assert_eq!(parse("true"), Some(Json::Bool(true)));
    assert_eq!(parse("false"), Some(Json::Bool(false)));
}

#[test]
fn rejects_words_that_are_cut_short_or_misspelt() {
    for bad in ["nul", "tru", "fals", "True", "NULL", "nulll", "truefalse", "t", "n", "f"] {
        assert_eq!(parse(bad), None, "{}", bad);
    }
}

#[test]
fn rejects_the_empty_text_and_white_space_alone() {
    assert_eq!(parse(""), None);
    assert_eq!(parse(" "), None);
    assert_eq!(parse("\n\t\r "), None);
}

#[test]
fn passes_over_white_space_around_tokens() {
    assert_eq!(parse(" \t\r\n null \n"), Some(Json::Null));
    assert_eq!(
        parse("\n[ 1 ,\t2\r,\n3 ]\n"),
        Some(Json::Array(vec![number("1"), number("2"), number("3")]))
    );
    assert_eq!(
        parse(" { \"a\" : 1 , \"b\" : [ ] } "),
        Some(Json::Object(vec![member("a", number("1")), member("b", Json::Array(vec![]))]))
    );
}

#[test]
fn other_white_space_is_not_passed_over() {
    assert_eq!(parse("\u{b}null"), None);
    assert_eq!(parse("\u{c}null"), None);
    assert_eq!(parse("\u{a0}null"), None);
    assert_eq!(parse("null\u{2028}"), None);
}

#[test]
fn rejects_what_follows_a_value() {
    for bad in ["null null", "1 2", "[] []", "{} x", "\"a\" \"b\"", "true,", "1]", "{}}"] {
        assert_eq!(parse(bad), None, "{}", bad);
    }
}

#[test]
fn keeps_numbers_as_they_were_written() {
    for good in [
        "0", "-0", "1", "-1", "10", "1234567890", "0.5", "-0.5", "1.25", "1e5", "1E5", "1e+5",
        "1e-5", "1.5e10", "-1.5E-10", "0e0", "0.0", "123456789012345678901234567890",
    ] {
        assert_eq!(parse(good), Some(number(good)), "{}", good);
    }
}

#[test]
fn rejects_malformed_numbers() {
    for bad in [
        "-", "+1", "01", "-01", "00", "1.", ".5", "-.5", "1.e5", "1e", "1e+", "1e-", "1E", "0x10",
        "1.5.5", "1e5.5", "--1", "1-", "1e5e5", "Infinity", "NaN", "1_000",
    ] {
        assert_eq!(parse(bad), None, "{}", bad);
    }
}

#[test]
fn parses_plain_strings() {
    assert_eq!(parse("\"\""), Some(text("")));
    assert_eq!(parse("\"bob\""), Some(text("bob")));
    assert_eq!(parse("\"a b\""), Some(text("a b")));
    assert_eq!(parse("\"h\u{e9}llo \u{4e16}\u{754c} \u{1f600}\""), Some(text("h\u{e9}llo \u{4e16}\u{754c} \u{1f600}")));
    assert_eq!(parse("\"\u{7f}\""), Some(text("\u{7f}")));
}

#[test]
fn parses_each_short_escape() {
    assert_eq!(parse(r#""\"""#), Some(text("\"")));
    assert_eq!(parse(r#""\\""#), Some(text("\\")));
    assert_eq!(parse(r#""\/""#), Some(text("/")));
    assert_eq!(parse(r#""\b""#), Some(text("\u{8}")));
    assert_eq!(parse(r#""\f""#), Some(text("\u{c}")));
    assert_eq!(parse(r#""\n""#), Some(text("\n")));
    assert_eq!(parse(r#""\r""#), Some(text("\r")));
    assert_eq!(parse(r#""\t""#), Some(text("\t")));
    assert_eq!(parse(r#""https:\/\/...""#), Some(text("https://...")));
    assert_eq!(parse(r#""a\\\"b""#), Some(text("a\\\"b")));
}

#[test]
fn rejects_unknown_escapes() {
    for bad in [r#""\a""#, r#""\x41""#, r#""\0""#, r#""\'""#, r#""\U0041""#, r#""\ ""#, r#""\"#] {
        assert_eq!(parse(bad), None, "{}", bad);
    }
}

#[test]
fn parses_unicode_escapes() {
    assert_eq!(parse(&quoted(&u("0041"))), Some(text("A")));
    assert_eq!(parse(&quoted(&u("00e9"))), Some(text("\u{e9}")));
    assert_eq!(parse(&quoted(&u("00E9"))), Some(text("\u{e9}")));
    assert_eq!(parse(&quoted(&u("0000"))), Some(text("\u{0}")));
    assert_eq!(parse(&quoted(&u("001f"))), Some(text("\u{1f}")));
    assert_eq!(parse(&quoted(&u("d7ff"))), Some(text("\u{d7ff}")));
    assert_eq!(parse(&quoted(&u("E000"))), Some(text("\u{e000}")));
    assert_eq!(parse(&quoted(&u("FFFF"))), Some(text("\u{ffff}")));
    assert_eq!(parse(&quoted(&u("aBcD"))), Some(text("\u{abcd}")));
    assert_eq!(
        parse(&quoted(&format!("x{}y{}z", u("0041"), u("0042")))),
        Some(text("xAyBz"))
    );
    assert_eq!(parse(&quoted(&format!("{}1", u("0041")))), Some(text("A1")));
}

#[test]
fn joins_surrogate_pairs() {
    let pair = |high: &str, low: &str| format!("{}{}", u(high), u(low));
    assert_eq!(parse(&quoted(&pair("D83D", "DE00"))), Some(text("\u{1f600}")));
    assert_eq!(parse(&quoted(&pair("d83d", "de00"))), Some(text("\u{1f600}")));
    assert_eq!(parse(&quoted(&pair("D800", "DC00"))), Some(text("\u{10000}")));
    assert_eq!(parse(&quoted(&pair("DBFF", "DFFF"))), Some(text("\u{10ffff}")));
    assert_eq!(
        parse(&quoted(&format!("a{}b", pair("D834", "DD1E")))),
        Some(text("a\u{1d11e}b"))
    );
}

#[test]
fn rejects_a_high_surrogate_before_another_character() {
    assert_eq!(parse(&quoted(&format!("{}{}", u("D800"), u("0041")))), None);
    assert_eq!(parse(&quoted(&format!("{}{}", u("D800"), u("E000")))), None);
    assert_eq!(parse(&quoted(&format!("{}{}", u("DBFF"), u("DBFF")))), None);
    assert_eq!(parse(&quoted(&format!("{}{}", u("DC00"), u("DC00")))), None);
    assert_eq!(parse(&quoted(&format!("{} {}", u("D83D"), u("DE00")))), None);
}

#[test]
fn rejects_lone_surrogates_and_short_escapes() {
    for bad in [
        r#""\uD800""#,
        r#""\uDBFF""#,
        r#""\uDC00""#,
        r#""\uDFFF""#,
        r#""\uD800x""#,
        r#""\uD800\n""#,
        r#""\uD800\uD800""#,
        r#""\uDC00\uD800""#,
        r#""\uD800\uDC0""#,
        r#""\u""#,
        r#""\u0""#,
        r#""\u00""#,
        r#""\u004""#,
        r#""\u004g""#,
        r#""\u 041""#,
        r#""\u+041""#,
        r#""\u-041""#,
        r#""\u004"#,
    ] {
        assert_eq!(parse(bad), None, "{}", bad);
    }
}

#[test]
fn rejects_control_characters_in_strings() {
    assert_eq!(parse("\"a\nb\""), None);
    assert_eq!(parse("\"a\tb\""), None);
    assert_eq!(parse("\"\u{0}\""), None);
    assert_eq!(parse("\"\u{1f}\""), None);
    assert_eq!(parse("\"\r\""), None);
}

#[test]
fn rejects_strings_that_do_not_end() {
    for bad in ["\"", "\"abc", "\"abc\\\"", "\"\\", "'abc'", "abc\""] {
        assert_eq!(parse(bad), None, "{}", bad);
    }
}

#[test]
fn parses_arrays() {
    assert_eq!(parse("[]"), Some(Json::Array(vec![])));
    assert_eq!(parse("[null]"), Some(Json::Array(vec![Json::Null])));
    assert_eq!(
        parse(r#"[1,"two",true,null,[],{}]"#),
        Some(Json::Array(vec![
            number("1"),
            text("two"),
            Json::Bool(true),
            Json::Null,
            Json::Array(vec![]),
            Json::Object(vec![]),
        ]))
    );
    assert_eq!(
        parse("[[1,2],[3],[]]"),
        Some(Json::Array(vec![
            Json::Array(vec![number("1"), number("2")]),
            Json::Array(vec![number("3")]),
            Json::Array(vec![]),
        ]))
    );
}

#[test]
fn array_items_keep_their_order_and_their_doubles() {
    assert_eq!(
        parse(r#"["bob","alice","bob"]"#),
        Some(Json::Array(vec![text("bob"), text("alice"), text("bob")]))
    );
}

#[test]
fn rejects_malformed_arrays() {
    for bad in ["[", "]", "[1", "[1,", "[1,]", "[,1]", "[,]", "[1 2]", "[1,,2]", "[1}", "[1:2]"] {
        assert_eq!(parse(bad), None, "{}", bad);
    }
}

#[test]
fn parses_objects() {
    assert_eq!(parse("{}"), Some(Json::Object(vec![])));
    assert_eq!(parse(r#"{"a":1}"#), Some(Json::Object(vec![member("a", number("1"))])));
    assert_eq!(
        parse(r#"{"ok": false, "err": "some_error"}"#),
        Some(Json::Object(vec![
            member("ok", Json::Bool(false)),
            member("err", text("some_error")),
        ]))
    );
    assert_eq!(
        parse(r#"{"":{"a":{"b":[{"c":null}]}}}"#),
        Some(Json::Object(vec![member(
            "",
            Json::Object(vec![member(
                "a",
                Json::Object(vec![member(
                    "b",
                    Json::Array(vec![Json::Object(vec![member("c", Json::Null)])])
                )])
            )])
        )]))
    );
}

#[test]
fn object_members_keep_their_order_and_their_doubles() {
    assert_eq!(
        parse(r#"{"b":1,"a":2,"b":3}"#),
        Some(Json::Object(vec![
            member("b", number("1")),
            member("a", number("2")),
            member("b", number("3")),
        ]))
    );
}

#[test]
fn member_names_are_unescaped() {
    assert_eq!(
        parse(&format!(r#"{{"a\/b{}":1}}"#, u("0041"))),
        Some(Json::Object(vec![member("a/bA", number("1"))]))
    );
}

#[test]
fn rejects_malformed_objects() {
    for bad in [
        "{", "}", "{\"a\"", "{\"a\":", "{\"a\":1", "{\"a\":1,", "{\"a\":1,}", "{,}", "{\"a\"}",
        "{\"a\" 1}", "{a:1}", "{1:1}", "{\"a\":1 \"b\":2}", "{\"a\":1,,\"b\":2}", "{\"a\":1]",
        "{\"a\"::1}", "{'a':1}", "{null:1}", "{\"a\":}",
    ] {
        assert_eq!(parse(bad), None, "{}", bad);
    }
}

fn nested(open: &str, close: &str, depth: usize, inner: &str) -> String {
    format!("{}{}{}", open.repeat(depth), inner, close.repeat(depth))
}

#[test]
fn nesting_is_read_down_to_the_limit() {
    assert_eq!(MAX_DEPTH, 128);
    assert!(parse(&nested("[", "]", MAX_DEPTH, "")).is_some());
    assert!(parse(&nested("[", "]", MAX_DEPTH, "1")).is_some());
    assert!(parse(&nested("{\"a\":", "}", MAX_DEPTH, "1")).is_some());
    assert!(parse(&nested("[{\"a\":", "}]", MAX_DEPTH / 2, "null")).is_some());
}

#[test]
fn nesting_beyond_the_limit_is_rejected() {
    assert_eq!(parse(&nested("[", "]", MAX_DEPTH + 1, "")), None);
    assert_eq!(parse(&nested("[", "]", MAX_DEPTH + 1, "1")), None);
    assert_eq!(parse(&nested("{\"a\":", "}", MAX_DEPTH + 1, "1")), None);
    assert_eq!(parse(&nested("[", "]", 100_000, "")), None);
    assert_eq!(parse(&"[".repeat(100_000)), None);
}

#[test]
fn long_lists_are_read_whatever_their_length() {
    let items: Vec<String> = (0..50_000).map(|n| n.to_string()).collect();
    let body = format!("[{}]", items.join(","));
    match parse(&body) {
        Some(Json::Array(read)) => {
            assert_eq!(read.len(), 50_000);
            assert_eq!(read[0], number("0"));
            assert_eq!(read[49_999], number("49999"));
        }
        other => panic!("{:?}", other.is_some()),
    }
}

#[test]
fn get_finds_members_of_objects_only() {
    let object = parse(r#"{"a":1,"b":"x","a":2}"#).unwrap();
    assert_eq!(object.get("a"), Some(&number("2")));
    assert_eq!(object.get("b"), Some(&text("x")));
    assert_eq!(object.get("c"), None);
    assert_eq!(object.get(""), None);
    assert_eq!(object.get("A"), None);
    assert_eq!(object.get("ab"), None);
    assert_eq!(parse("[1]").unwrap().get("0"), None);
    assert_eq!(parse("\"a\"").unwrap().get("a"), None);
    assert_eq!(parse("null").unwrap().get("a"), None);
    assert_eq!(parse("{}").unwrap().get("a"), None);
}
