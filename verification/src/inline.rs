//! A model that writes the closing call as text instead of making it: finding what it meant to say.
//!
//! The marks are looked for in the lower case of the text, and the place at which one stands there
//! is taken in the text itself. Where lower case has other lengths than the text, such a place can
//! lie inside a character; nothing can be captured then.

use vstd::prelude::*;
use vstd::string::*;
use vstd::utf8::*;

use crate::text::{
    ascii_lower, begins_with, byte_len, chars_of, contains_seq, contains_text, find_bytes,
    find_chars, first_at, lowercase, occurs_at, size_of, starts_with, tail, tail_of, text_of,
    to_lower, trim_end, trimmed_end,
};

verus! {

/// What looking for a written call gives.
#[derive(Debug)]
pub enum Capture {
    Found(String),
    Missing,
    /// The place to read from lies inside a character.
    Inside,
}

/// What a capture says.
pub enum CaptureView {
    Found(Seq<char>),
    Missing,
    Inside,
}

impl View for Capture {
    type V = CaptureView;

    open spec fn view(&self) -> CaptureView {
        match self {
            Capture::Found(s) => CaptureView::Found(s@),
            Capture::Missing => CaptureView::Missing,
            Capture::Inside => CaptureView::Inside,
        }
    }
}

/// Where the quoted part ends: at the first double quote, or else at the first single quote.
pub open spec fn quote_end(rest: Seq<char>) -> Option<int> {
    match first_at(rest, seq!['"']) {
        Some(e) => Some(e),
        None => first_at(rest, seq!['\'']),
    }
}

/// What stands behind a mark, up to the closing quote. `lower` is the lower case of the text.
pub open spec fn behind_mark(text: Seq<char>, lower: Seq<char>, mark: Seq<char>) -> CaptureView {
    match first_at(encode_utf8(lower), encode_utf8(mark)) {
        Some(pos) => {
            let after = (pos + byte_len(mark)) as nat;
            if after >= byte_len(text) {
                CaptureView::Missing
            } else if !is_char_boundary(encode_utf8(text), after as int) {
                CaptureView::Inside
            } else {
                let rest = tail(text, after);
                match quote_end(rest) {
                    Some(e) => CaptureView::Found(rest.take(e)),
                    None => CaptureView::Missing,
                }
            }
        },
        None => CaptureView::Missing,
    }
}

/// The first of two captures that is not missing.
pub open spec fn or_else(a: CaptureView, b: CaptureView) -> CaptureView {
    match a {
        CaptureView::Missing => b,
        other => other,
    }
}

/// What stands behind the name of the result, in any of the four ways to give it a value.
pub open spec fn result_given(text: Seq<char>, lower: Seq<char>) -> CaptureView {
    or_else(
        behind_mark(text, lower, "result=\""@),
        or_else(
            behind_mark(text, lower, "result:\""@),
            or_else(
                behind_mark(text, lower, "result =\""@),
                behind_mark(text, lower, "result= \""@),
            ),
        ),
    )
}

/// What stands in quotes right behind the opening bracket of the call.
pub open spec fn first_argument(text: Seq<char>, lower: Seq<char>) -> CaptureView {
    match first_at(encode_utf8(lower), encode_utf8("finish("@)) {
        Some(pos) => {
            let after = (pos + byte_len("finish("@)) as nat;
            if after >= byte_len(text) {
                CaptureView::Missing
            } else if !is_char_boundary(encode_utf8(text), after as int) {
                CaptureView::Inside
            } else {
                let rest = tail(text, after);
                if rest.len() > 0 && (rest[0] == '"' || rest[0] == '\'') {
                    let inner = rest.skip(1);
                    match first_at(inner, seq![rest[0]]) {
                        Some(e) => CaptureView::Found(inner.take(e)),
                        None => CaptureView::Missing,
                    }
                } else {
                    CaptureView::Missing
                }
            }
        },
        None => CaptureView::Missing,
    }
}

/// What a pattern captures in a text. `pattern` and `lower` are the lower case of the two.
pub open spec fn captured(pattern: Seq<char>, text: Seq<char>, lower: Seq<char>) -> CaptureView {
    let named = if contains_seq(pattern, "result"@) {
        result_given(text, lower)
    } else {
        CaptureView::Missing
    };
    let bare = if begins_with(pattern, "finish(\""@) || begins_with(pattern, "finish('"@) {
        first_argument(text, lower)
    } else {
        CaptureView::Missing
    };
    or_else(named, bare)
}

/// The place of the first character of that kind.
fn find_char(chars: &Vec<char>, c: char) -> (r: Option<usize>)
    ensures
        match r {
            Some(at) => first_at(chars@, seq![c]) == Some(at as int) && at < chars@.len(),
            None => first_at(chars@, seq![c]) is None,
        },
{
    let mut needle: Vec<char> = Vec::new();
    needle.push(c);
    assert(needle@ =~= seq![c]);
    find_chars(chars, &needle)
}

/// What stands behind a mark, up to the closing quote.
fn read_behind(text: &str, lower: &str, mark: &str) -> (r: Capture)
    ensures
        r@ == behind_mark(text@, lower@, mark@),
{
    let hay = lower.as_bytes();
    let _most: usize = hay.len();
    let pos: usize = match find_bytes(hay, mark.as_bytes()) {
        Some(p) => p,
        None => return Capture::Missing,
    };
    let after: usize = pos + size_of(mark);
    if after >= size_of(text) {
        return Capture::Missing;
    }
    if !text.is_char_boundary(after) {
        return Capture::Inside;
    }
    let rest = chars_of(tail_of(text, after));
    let end = match find_char(&rest, '"') {
        Some(e) => Some(e),
        None => find_char(&rest, '\''),
    };
    match end {
        Some(e) => {
            let r = text_of(&rest, 0, e);
            assert(r@ =~= rest@.take(e as int));
            Capture::Found(r)
        },
        None => Capture::Missing,
    }
}

/// What stands behind the name of the result, in any of the four ways to give it a value.
fn read_result(text: &str, lower: &str) -> (r: Capture)
    ensures
        r@ == result_given(text@, lower@),
{
    match read_behind(text, lower, "result=\"") {
        Capture::Missing => {},
        other => return other,
    }
    match read_behind(text, lower, "result:\"") {
        Capture::Missing => {},
        other => return other,
    }
    match read_behind(text, lower, "result =\"") {
        Capture::Missing => {},
        other => return other,
    }
    read_behind(text, lower, "result= \"")
}

/// What stands in quotes right behind the opening bracket of the call.
fn read_first_argument(text: &str, lower: &str) -> (r: Capture)
    ensures
        r@ == first_argument(text@, lower@),
{
    let hay = lower.as_bytes();
    let _most: usize = hay.len();
    let pos: usize = match find_bytes(hay, "finish(".as_bytes()) {
        Some(p) => p,
        None => return Capture::Missing,
    };
    let after: usize = pos + size_of("finish(");
    if after >= size_of(text) {
        return Capture::Missing;
    }
    if !text.is_char_boundary(after) {
        return Capture::Inside;
    }
    let rest = chars_of(tail_of(text, after));
    if rest.len() == 0 || (rest[0] != '"' && rest[0] != '\'') {
        return Capture::Missing;
    }
    let quote = rest[0];
    let total: usize = rest.len();
    let rest_text = text_of(&rest, 1, total);
    let inner = chars_of(rest_text.as_str());
    assert(inner@ =~= rest@.skip(1));
    match find_char(&inner, quote) {
        Some(e) => {
            let r = text_of(&inner, 0, e);
            assert(r@ =~= inner@.take(e as int));
            Capture::Found(r)
        },
        None => Capture::Missing,
    }
}

/// What a pattern captures in a text, given the lower case of the two.
pub fn capture(pattern: &str, text: &str, lower: &str) -> (r: Capture)
    ensures
        r@ == captured(pattern@, text@, lower@),
{
    if contains_text(pattern, "result") {
        match read_result(text, lower) {
            Capture::Missing => {},
            other => return other,
        }
    }
    if starts_with(pattern, "finish(\"") || starts_with(pattern, "finish('") {
        return read_first_argument(text, lower);
    }
    Capture::Missing
}

/// The lower case of ASCII characters.
pub open spec fn lowered(s: Seq<char>) -> Seq<char> {
    s.map_values(|c: char| ascii_lower(c))
}

/// Captures what a pattern is meant to capture, given the lower case of the text.
fn capture_in(pattern: &str, text: &str, lower: &str) -> (r: Capture)
    ensures
        r@ == captured(lowercase(pattern@), text@, lower@),
        is_ascii_chars(pattern@) ==> r@ == captured(lowered(pattern@), text@, lower@),
{
    let pattern_lower = to_lower(pattern);
    capture(pattern_lower.as_str(), text, lower)
}

/// What a pattern captures in a text.
pub fn simple_regex_capture(pattern: &str, text: &str) -> (r: Capture)
    ensures
        r@ == captured(lowercase(pattern@), text@, lowercase(text@)),
        is_ascii_chars(pattern@) ==> r@ == captured(
            lowered(pattern@),
            text@,
            lowercase(text@),
        ),
        is_ascii_chars(pattern@) && is_ascii_chars(text@) ==> r@ == captured(
            lowered(pattern@),
            text@,
            lowered(text@),
        ),
{
    let lower = to_lower(text);
    capture_in(pattern, text, lower.as_str())
}

/// The text before the written call, without the white space at its end.
pub open spec fn before_call(text: Seq<char>) -> Seq<char> {
    match first_at(text, "finish("@) {
        Some(at) => trimmed_end(text.take(at)),
        None => Seq::empty(),
    }
}

/// The answer in a text, given what was captured in it: what stands before the written call, or
/// else the capture.
pub open spec fn answered(text: Seq<char>, found: CaptureView) -> CaptureView {
    match found {
        CaptureView::Found(result) => CaptureView::Found(
            if before_call(text).len() == 0 {
                result
            } else {
                before_call(text)
            },
        ),
        other => other,
    }
}

/// The answer in a text that holds a written call. `lower` is the lower case of the text.
pub open spec fn inline_finish(text: Seq<char>, lower: Seq<char>) -> CaptureView {
    answered(text, result_given(text, lower))
}

/// The text before the written call, without the white space at its end.
fn text_before_call(text: &str) -> (r: String)
    ensures
        r@ == before_call(text@),
{
    let chars = chars_of(text);
    match find_chars(&chars, &chars_of("finish(")) {
        Some(at) => {
            let front = text_of(&chars, 0, at);
            assert(front@ =~= text@.take(at as int));
            trim_end(front.as_str())
        },
        None => {
            let r = "".to_string();
            proof {
                reveal_strlit("");
            }
            assert(r@ =~= Seq::empty());
            r
        },
    }
}

/// The answer in a text, given what was captured in it.
pub fn answer_from(text: &str, found: Capture) -> (r: Capture)
    ensures
        r@ == answered(text@, found@),
{
    match found {
        Capture::Found(result) => {
            let cleaned = text_before_call(text);
            if cleaned.as_str().is_empty() {
                Capture::Found(result)
            } else {
                Capture::Found(cleaned)
            }
        },
        other => other,
    }
}

/// A pattern that names the result captures what is given as the result.
proof fn lemma_named_pattern(pattern: Seq<char>, text: Seq<char>, lower: Seq<char>)
    requires
        pattern.len() > 14,
        pattern.take(14) == r#"finish\(result"#@,
    ensures
        captured(lowered(pattern), text, lower) == result_given(text, lower),
{
    reveal_strlit(r#"finish\(result"#);
    reveal_strlit("result");
    reveal_strlit("finish(\"");
    reveal_strlit("finish('");
    let p = lowered(pattern);
    let front = r#"finish\(result"#@;
    assert(front[6] == '\\' && front[8] == 'r' && front[9] == 'e' && front[10] == 's' && front[11]
        == 'u' && front[12] == 'l' && front[13] == 't');
    assert forall|i: int| 0 <= i < 14 implies pattern[i] == #[trigger] front[i] by {
        assert(pattern.take(14)[i] == pattern[i]);
    }
    assert(p.subrange(8, 14) =~= "result"@);
    assert(occurs_at(p, "result"@, 8));
    assert(p[6] == '\\');
    assert("finish(\""@[6] == '(' && "finish('"@[6] == '(');
    if begins_with(p, "finish(\""@) {
        assert(p.subrange(0, 8)[6] == p[6]);
    }
    if begins_with(p, "finish('"@) {
        assert(p.subrange(0, 8)[6] == p[6]);
    }
}

/// A pattern that does not name the result and does not begin like a call captures nothing.
proof fn lemma_other_pattern(pattern: Seq<char>, text: Seq<char>, lower: Seq<char>)
    requires
        pattern.len() > 7,
        pattern[6] == '\\',
        forall|i: int| 0 <= i < pattern.len() ==> #[trigger] pattern[i] != 'r' && pattern[i] != 'R',
    ensures
        captured(lowered(pattern), text, lower) is Missing,
{
    reveal_strlit("result");
    reveal_strlit("finish(\"");
    reveal_strlit("finish('");
    let p = lowered(pattern);
    assert("finish(\""@[6] == '(' && "finish('"@[6] == '(');
    assert forall|i: int| 0 <= i < p.len() implies #[trigger] p[i] != 'r' by {
        assert(pattern[i] != 'r' && pattern[i] != 'R');
    }
    if contains_seq(p, "result"@) {
        let at = choose|at: int| occurs_at(p, "result"@, at);
        assert(p.subrange(at, at + 6)[0] == p[at]);
        assert("result"@[0] == 'r');
    }
    if begins_with(p, "finish(\""@) {
        assert(p.subrange(0, 8)[6] == p[6]);
    }
    if begins_with(p, "finish('"@) {
        assert(p.subrange(0, 8)[6] == p[6]);
    }
}

/// The answer in a closing call that was written as text, given the lower case of the text.
pub fn finish_in(text: &str, lower: &str) -> (r: Capture)
    ensures
        r@ == inline_finish(text@, lower@),
{
    let first = r#"finish\(result\s*[:=]\s*"([^"]*)""#;
    let second = r#"finish\(result\s*[:=]\s*'([^']*)'"#;
    let third = r#"finish\("([^"]*)"\)"#;
    let fourth = r#"finish\('([^']*)'\)"#;
    proof {
        reveal_strlit(r#"finish\(result"#);
        reveal_strlit(r#"finish\(result\s*[:=]\s*"([^"]*)""#);
        reveal_strlit(r#"finish\(result\s*[:=]\s*'([^']*)'"#);
        reveal_strlit(r#"finish\("([^"]*)"\)"#);
        reveal_strlit(r#"finish\('([^']*)'\)"#);
        assert(first@.take(14) =~= r#"finish\(result"#@);
        assert(second@.take(14) =~= r#"finish\(result"#@);
        lemma_named_pattern(first@, text@, lower@);
        lemma_named_pattern(second@, text@, lower@);
        lemma_other_pattern(third@, text@, lower@);
        lemma_other_pattern(fourth@, text@, lower@);
    }
    match answer_from(text, capture_in(first, text, lower)) {
        Capture::Missing => {},
        other => return other,
    }
    match answer_from(text, capture_in(second, text, lower)) {
        Capture::Missing => {},
        other => return other,
    }
    match answer_from(text, capture_in(third, text, lower)) {
        Capture::Missing => {},
        other => return other,
    }
    answer_from(text, capture_in(fourth, text, lower))
}

/// The answer in a text that holds a written call.
pub fn extract_inline_finish(text: &str) -> (r: Capture)
    ensures
        r@ == inline_finish(text@, lowercase(text@)),
        is_ascii_chars(text@) ==> r@ == inline_finish(text@, lowered(text@)),
{
    let lower = to_lower(text);
    finish_in(text, lower.as_str())
}

}
