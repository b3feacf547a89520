use agentic::ids::{new_task_id, task_id_from};
use agentic::inline::{
    answer_from, capture, extract_inline_finish, finish_in, simple_regex_capture, Capture,
};
use agentic::json::{parse, parse_bytes, render, render_pretty, Json};
use agentic::text::{
    can_cut, clip, contains_text, decimal_text, find_bytes, head_of, is_white_space, join,
    parse_unsigned, replace_char, same_text, shorten, signed_text, size_of, split, starts_with,
    tail_of, trim, trim_end,
};

fn found(c: Capture) -> Option<String> {
    match c {
        Capture::Found(s) => Some(s),
        Capture::Missing => None,
        Capture::Inside => panic!("inside a character"),
    }
}

#[test]
fn numerals_are_decimal() {
    assert_eq!(decimal_text(0), "0");
    assert_eq!(decimal_text(1048576), "1048576");
    assert_eq!(decimal_text(u64::MAX), "18446744073709551615");
    assert_eq!(signed_text(-1), "-1");
    assert_eq!(signed_text(i32::MIN), "-2147483648");
    assert_eq!(signed_text(42), "42");
}

#[test]
fn numerals_are_read_as_the_system_reads_them() {
    for text in ["0", "007", "+7", "-7", "", "+", "7x", " 7", "18446744073709551615",
        "18446744073709551616", "99999999999999999999", "++1", "१"] {
        assert_eq!(parse_unsigned(text), text.parse::<u64>().ok(), "{:?}", text);
    }
}

#[test]
fn white_space_is_what_the_system_takes_for_it() {
    for code in 0u32..0x3100 {
        if let Some(c) = char::from_u32(code) {
            assert_eq!(is_white_space(c), c.is_whitespace(), "{:x}", code);
        }
    }
    for text in [" a b ", "\n\t", "", "a", "\u{3000}x\u{2003}", "x \u{85}"] {
        assert_eq!(trim(text), text.trim(), "{:?}", text);
        assert_eq!(trim_end(text), text.trim_end(), "{:?}", text);
    }
}

#[test]
fn texts_are_split_and_joined() {
    for text in ["a:b", "", ":", "a::b:", "abc"] {
        let known: Vec<String> = text.split(':').map(|s| s.to_string()).collect();
        assert_eq!(split(text, ':'), known, "{:?}", text);
        assert_eq!(join(&known, ":"), text);
    }
    assert_eq!(join(&[], ", "), "");
    assert_eq!(replace_char("a\nb\n", '\n', ' '), "a b ");
}

#[test]
fn texts_are_searched() {
    assert!(contains_text("hello", "ell"));
    assert!(contains_text("hello", ""));
    assert!(!contains_text("hello", "elo"));
    assert!(starts_with("hello", "he"));
    assert!(!starts_with("he", "hello"));
    assert!(same_text("a", "a") && !same_text("a", "A"));
    assert_eq!(find_bytes("ababc".as_bytes(), "abc".as_bytes()), Some(2));
    assert_eq!(find_bytes("ab".as_bytes(), "abc".as_bytes()), None);
    assert_eq!(find_bytes("ab".as_bytes(), &[]), Some(0));
}

#[test]
fn texts_are_cut_between_characters() {
    assert_eq!(size_of("aé"), 3);
    assert!(can_cut("aé", 1) && !can_cut("aé", 2) && can_cut("aé", 3) && can_cut("aé", 9));
    assert_eq!(head_of("aéb", 3), "aé");
    assert_eq!(tail_of("aéb", 3), "b");
    assert_eq!(shorten("aéb", 3), "aé...");
    assert_eq!(shorten("aéb", 4), "aéb");
}

#[test]
fn json_is_read_and_written() {
    let text = r#"{"b":[1,-2,3.50,1e3,true,null,"x\"é\n"],"a":{}}"#;
    let value = parse(text).unwrap();
    assert_eq!(render(&value), r#"{"a":{},"b":[1,-2,3.5,1000.0,true,null,"x\"é\n"]}"#);
    assert_eq!(render(&value.clone()), render(&value));
    assert_eq!(render_pretty(&parse(r#"{"a":[]}"#).unwrap()), "{\n  \"a\": []\n}");
    assert_eq!(parse("{").unwrap_err(), "EOF while parsing an object at line 1 column 1");
    assert!(parse_bytes(&[0xff]).is_none());
    assert_eq!(render(&parse_bytes("[1]".as_bytes()).unwrap()), "[1]");
}

#[test]
fn members_are_found_by_name() {
    let value = parse(r#"{"z":1,"a":"t","f":false,"a2":[0],"a":"later"}"#).unwrap();
    assert_eq!(value.keys(), vec!["a", "a2", "f", "z"]);
    assert_eq!(value.str_at("a"), Some("later"));
    assert_eq!(value.str_at("z"), None);
    assert_eq!(value.bool_at("f"), Some(false));
    assert_eq!(value.bool_at("a"), None);
    assert_eq!(value.get("a2").unwrap().as_array().unwrap().len(), 1);
    assert!(value.get("none").is_none());
    assert!(value.is_object());
    assert!(!Json::Null.is_object());
    assert!(Json::Null.keys().is_empty());
}

#[test]
fn json_is_built() {
    let value = Json::object()
        .with("t", Json::text("x"))
        .with("n", Json::count(7))
        .with("i", Json::integer(-7))
        .with("l", Json::texts(&vec!["a".to_string()]))
        .with("t", Json::Bool(true));
    assert_eq!(render(&value), r#"{"i":-7,"l":["a"],"n":7,"t":true}"#);
    assert_eq!(render(&Json::Null.with("x", Json::Null)), "null");
}

#[test]
fn new_ids_name_the_time_and_a_group() {
    assert_eq!(
        task_id_from("20260810-153022", "67e55044-10b1-426f-9247-bb680e5fe0c8"),
        "20260810-153022-67e55044"
    );
    assert_eq!(task_id_from("s", "nohyphen"), "s-nohyphen");
    let id = new_task_id();
    assert!(id.len() >= 24);
    let group: Vec<char> = id.chars().rev().take(8).collect();
    assert!(group.iter().all(|c| c.is_ascii_hexdigit() && !c.is_ascii_uppercase()));
    assert!(id.chars().all(|c| c != '/' && c != '.'));
}

#[test]
fn written_calls_give_their_result() {
    assert_eq!(found(extract_inline_finish("finish(result=\"ok\")")), Some("ok".to_string()));
    assert_eq!(found(extract_inline_finish("finish(result:\"ok\")")), Some("ok".to_string()));
    assert_eq!(found(extract_inline_finish("finish(result =\"ok\")")), Some("ok".to_string()));
    assert_eq!(found(extract_inline_finish("finish(result= \"ok\")")), Some("ok".to_string()));
    assert_eq!(found(extract_inline_finish("FINISH(RESULT=\"Ok\")")), Some("Ok".to_string()));
    assert_eq!(
        found(finish_in("FINISH(RESULT=\"Ok\")", "finish(result=\"ok\")")),
        Some("Ok".to_string())
    );
    assert_eq!(found(finish_in("finish(result=\"ok\")", "nothing like it at all")), None);
}

#[test]
fn the_text_before_a_written_call_counts_first() {
    assert_eq!(
        found(extract_inline_finish("Done. \n finish(result=\"ok\")")),
        Some("Done.".to_string())
    );
    assert_eq!(found(answer_from("Done. finish()", Capture::Found("x".into()))),
        Some("Done.".to_string()));
    assert_eq!(found(answer_from("no call", Capture::Found("x".into()))), Some("x".to_string()));
    assert_eq!(found(answer_from("no call", Capture::Missing)), None);
}

#[test]
fn other_ways_to_write_the_call_are_not_taken() {
    assert_eq!(found(extract_inline_finish("finish(\"ok\")")), None);
    assert_eq!(found(extract_inline_finish("finish('ok')")), None);
    assert_eq!(found(extract_inline_finish("finish(result='ok')")), None);
    assert_eq!(found(extract_inline_finish("just text")), None);
    assert_eq!(found(extract_inline_finish("")), None);
    assert_eq!(found(extract_inline_finish("result=\"")), None);
    assert_eq!(found(extract_inline_finish("result=\"open")), None);
}

#[test]
fn a_single_quote_closes_where_no_double_quote_does() {
    assert_eq!(found(extract_inline_finish("result=\"ok'")), Some("ok".to_string()));
    assert_eq!(found(extract_inline_finish("result=\"it's\"")), Some("it's".to_string()));
}

#[test]
fn patterns_choose_what_is_captured() {
    assert_eq!(
        found(capture("finish(\"x", "Finish(\"a\")", "finish(\"a\")")),
        Some("a".to_string())
    );
    assert_eq!(
        found(simple_regex_capture("FINISH('", "so finish('b')")),
        Some("b".to_string())
    );
    assert_eq!(found(simple_regex_capture("finish('", "finish(b)")), None);
    assert_eq!(found(simple_regex_capture("finish('", "finish(")), None);
    assert_eq!(
        found(simple_regex_capture("any result", "result=\"c\"")),
        Some("c".to_string())
    );
    assert_eq!(found(simple_regex_capture("other", "result=\"c\"")), None);
}

#[test]
fn a_place_inside_a_character_is_noticed() {
    // The lower case of this letter is a byte longer, so the mark lies one byte further on there.
    let text = "\u{23a}result=\"é\"";
    assert!(matches!(extract_inline_finish(text), Capture::Inside));
    assert!(matches!(
        capture("result", "\u{23a}result=\"é\"", "\u{2c65}result=\"é\""),
        Capture::Inside
    ));
}

#[test]
fn a_cut_text_can_be_cut_again() {
    let once = shorten("aéb and more", 4);
    assert_eq!(once, "aéb...");
    assert!(can_cut(&once, 4));
    assert_eq!(shorten(&once, 4), "aéb...");
}

#[test]
fn different_numbers_have_different_numerals() {
    let numerals: Vec<String> = (0u64..200).map(decimal_text).collect();
    for (i, a) in numerals.iter().enumerate() {
        assert_eq!(parse_unsigned(a), Some(i as u64));
        assert_eq!(numerals.iter().filter(|b| *b == a).count(), 1);
    }
}

#[test]
fn clipping_never_splits_a_character() {
    assert_eq!(clip("aéb", 4), "aéb");
    assert_eq!(clip("aéb", 3), "aé...");
    assert_eq!(clip("aéb", 2), "a...");
    assert_eq!(clip("é", 1), "...");
    assert_eq!(clip("aéb", 3), shorten("aéb", 3));
}
