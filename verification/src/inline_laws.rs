//! What holds of a closing call that the model wrote as text: the answer in it is found, and words
//! without one are not taken for one.

use vstd::prelude::*;
use vstd::string::*;
use vstd::utf8::*;

use crate::inline::{
    behind_mark, captured, first_argument, inline_finish, lowered, quote_end, result_given,
    CaptureView,
};
use crate::text::{
    begins_with, contains_seq, first_at, is_first_at, lemma_first_at, occurs_at, trimmed_end,
};
use crate::text_laws::law_ascii_cuts_anywhere;

verus! {

/// ASCII texts stand in each other just where their bytes do.
proof fn lemma_ascii_occurs(hay: Seq<char>, needle: Seq<char>, at: int)
    requires
        is_ascii_chars(hay),
        is_ascii_chars(needle),
    ensures
        occurs_at(encode_utf8(hay), encode_utf8(needle), at) <==> occurs_at(hay, needle, at),
{
    is_ascii_chars_encode_utf8(hay);
    is_ascii_chars_encode_utf8(needle);
    is_ascii_chars_nat_bound(hay);
    is_ascii_chars_nat_bound(needle);
    let a = encode_utf8(hay);
    let b = encode_utf8(needle);
    if occurs_at(hay, needle, at) {
        assert forall|k: int| 0 <= k < b.len() implies a.subrange(at, at + b.len())[k]
            == #[trigger] b[k] by {
            assert(hay.subrange(at, at + needle.len())[k] == needle[k]);
            assert(hay[at + k] == needle[k]);
            assert(a[at + k] == hay[at + k] as u8);
        }
        assert(a.subrange(at, at + b.len()) =~= b);
    }
    if occurs_at(a, b, at) {
        assert forall|k: int| 0 <= k < needle.len() implies hay.subrange(
            at,
            at + needle.len(),
        )[k] == #[trigger] needle[k] by {
            assert(a.subrange(at, at + b.len())[k] == b[k]);
            assert(a[at + k] == hay[at + k] as u8);
            assert(b[k] == needle[k] as u8);
            assert((hay[at + k] as nat) < 128 && (needle[k] as nat) < 128);
        }
        assert(hay.subrange(at, at + needle.len()) =~= needle);
    }
}

proof fn lemma_ascii_first(hay: Seq<char>, needle: Seq<char>, at: Option<int>)
    requires
        is_ascii_chars(hay),
        is_ascii_chars(needle),
        is_first_at(hay, needle, at),
    ensures
        first_at(encode_utf8(hay), encode_utf8(needle)) == at,
{
    let a = encode_utf8(hay);
    let b = encode_utf8(needle);
    match at {
        Some(p) => {
            lemma_ascii_occurs(hay, needle, p);
            assert forall|q: int| 0 <= q < p implies !occurs_at(a, b, q) by {
                lemma_ascii_occurs(hay, needle, q);
            }
        },
        None => {
            assert forall|q: int| !occurs_at(a, b, q) by {
                lemma_ascii_occurs(hay, needle, q);
            }
        },
    }
    lemma_first_at(a, b, at);
}

/// The lower case of an ASCII text is an ASCII text, and leaves alone all but capital letters.
proof fn lemma_lowered(s: Seq<char>)
    requires
        is_ascii_chars(s),
    ensures
        is_ascii_chars(lowered(s)),
        lowered(s).len() == s.len(),
        forall|i: int|
            0 <= i < s.len() ==> (#[trigger] lowered(s)[i] == '"' <==> s[i] == '"'),
{
    assert forall|i: int| 0 <= i < s.len() implies '\0' <= #[trigger] lowered(s)[i] <= '\u{7f}' by {
        assert('\0' <= s[i] <= '\u{7f}');
    }
}

/// Where a mark that ends in a quote stands in a text, what stands behind it is captured, in
/// whatever case the mark is written, up to the next double quote, or else up to the next single
/// one; without a closing quote nothing is captured.
#[verifier::rlimit(40)]
pub proof fn law_what_stands_behind_a_mark(
    before: Seq<char>,
    written: Seq<char>,
    mark: Seq<char>,
    rest: Seq<char>,
)
    requires
        is_ascii_chars(before),
        is_ascii_chars(written),
        is_ascii_chars(mark),
        is_ascii_chars(rest),
        lowered(written) == mark,
        mark.len() > 0,
        mark.last() == '"',
        forall|i: int| 0 <= i < mark.len() - 1 ==> #[trigger] mark[i] != '"',
        forall|i: int| 0 <= i < before.len() ==> #[trigger] before[i] != '"',
        rest.len() > 0,
    ensures
        behind_mark(before + written + rest, lowered(before + written + rest), mark) == match (
            quote_end(rest)) {
            Some(e) => CaptureView::Found(rest.take(e)),
            None => CaptureView::Missing,
        },
{
    let text = before + written + rest;
    let lower = lowered(text);
    let at = before.len() as int;
    let size = mark.len() as int;
    assert(is_ascii_chars(text));
    lemma_lowered(text);
    lemma_lowered(written);
    assert forall|k: int| 0 <= k < size implies lower[at + k] == #[trigger] mark[k] by {
        assert(text[at + k] == written[k]);
        assert(lowered(written)[k] == mark[k]);
    }
    assert(lower.subrange(at, at + size) =~= mark);
    assert(occurs_at(lower, mark, at));
    assert forall|q: int| 0 <= q < at implies !occurs_at(lower, mark, q) by {
        if occurs_at(lower, mark, q) {
            assert(lower.subrange(q, q + size)[size - 1] == mark[size - 1]);
            assert(lower[q + size - 1] == '"');
            assert(text[q + size - 1] == '"');
            if q + size - 1 < at {
                assert(before[q + size - 1] == '"');
            } else {
                assert(lower[at + (q + size - 1 - at)] == mark[q + size - 1 - at]);
            }
        }
    }
    lemma_ascii_first(lower, mark, Some(at));
    is_ascii_chars_encode_utf8(mark);
    let from = (at + size) as nat;
    law_ascii_cuts_anywhere(text, from);
    assert(text.skip(from as int) =~= rest);
}

/// The quoted part ends at the first double quote, and where there is none at the first single one.
pub proof fn law_where_quotes_end(answer: Seq<char>, after: Seq<char>)
    ensures
        (forall|i: int| 0 <= i < answer.len() ==> #[trigger] answer[i] != '"') ==> quote_end(
            answer + seq!['"'] + after,
        ) == Some(answer.len() as int),
        (forall|i: int| 0 <= i < answer.len() ==> #[trigger] answer[i] != '"' && answer[i] != '\'')
            && (forall|i: int| 0 <= i < after.len() ==> #[trigger] after[i] != '"') ==> quote_end(
            answer + seq!['\''] + after,
        ) == Some(answer.len() as int),
        (forall|i: int| 0 <= i < answer.len() ==> #[trigger] answer[i] != '"' && answer[i] != '\'')
            ==> quote_end(answer) is None,
{
    if forall|i: int| 0 <= i < answer.len() ==> #[trigger] answer[i] != '"' {
        lemma_first_char(answer, '"', after);
    }
    if forall|i: int| 0 <= i < answer.len() ==> #[trigger] answer[i] != '"' && answer[i] != '\'' {
        lemma_first_char(answer, '\'', after);
        lemma_no_char(answer, '"');
        lemma_no_char(answer, '\'');
        if forall|i: int| 0 <= i < after.len() ==> #[trigger] after[i] != '"' {
            let whole = answer + seq!['\''] + after;
            assert forall|i: int| 0 <= i < whole.len() implies #[trigger] whole[i] != '"' by {
                if i < answer.len() {
                    assert(whole[i] == answer[i]);
                } else if i > answer.len() {
                    assert(whole[i] == after[i - answer.len() - 1]);
                }
            }
            lemma_no_char(whole, '"');
        }
    }
}

proof fn lemma_first_char(front: Seq<char>, c: char, after: Seq<char>)
    requires
        forall|i: int| 0 <= i < front.len() ==> #[trigger] front[i] != c,
    ensures
        first_at(front + seq![c] + after, seq![c]) == Some(front.len() as int),
{
    let whole = front + seq![c] + after;
    let n = front.len() as int;
    assert(whole.subrange(n, n + 1) =~= seq![c]);
    assert(occurs_at(whole, seq![c], n));
    assert forall|q: int| 0 <= q < n implies !occurs_at(whole, seq![c], q) by {
        if occurs_at(whole, seq![c], q) {
            assert(whole.subrange(q, q + 1)[0] == c);
            assert(whole[q] == front[q]);
        }
    }
    lemma_first_at(whole, seq![c], Some(n));
}

proof fn lemma_no_char(s: Seq<char>, c: char)
    requires
        forall|i: int| 0 <= i < s.len() ==> #[trigger] s[i] != c,
    ensures
        first_at(s, seq![c]) is None,
{
    assert forall|q: int| !occurs_at(s, seq![c], q) by {
        if occurs_at(s, seq![c], q) {
            assert(s.subrange(q, q + 1)[0] == c);
        }
    }
    lemma_first_at(s, seq![c], None);
}

/// What is given as the result in quotes is found, in whatever case its name is written and
/// whatever stands around it, as long as no quote stands before.
#[verifier::rlimit(40)]
pub proof fn law_a_given_result_is_found(
    before: Seq<char>,
    mark: Seq<char>,
    answer: Seq<char>,
    after: Seq<char>,
)
    requires
        is_ascii_chars(before),
        is_ascii_chars(mark),
        is_ascii_chars(answer),
        is_ascii_chars(after),
        lowered(mark) == "result=\""@,
        forall|i: int| 0 <= i < before.len() ==> #[trigger] before[i] != '"',
        forall|i: int| 0 <= i < answer.len() ==> #[trigger] answer[i] != '"',
    ensures
        result_given(
            before + mark + answer + seq!['"'] + after,
            lowered(before + mark + answer + seq!['"'] + after),
        ) == CaptureView::Found(answer),
{
    reveal_strlit("result=\"");
    let rest = answer + seq!['"'] + after;
    assert(is_ascii_chars(rest));
    law_what_stands_behind_a_mark(before, mark, "result=\""@, rest);
    law_where_quotes_end(answer, after);
    assert(before + mark + rest =~= before + mark + answer + seq!['"'] + after);
    assert(rest.take(answer.len() as int) =~= answer);
}

/// The result may be given in four ways; the first that there is counts, in this order.
pub proof fn law_ways_to_give_a_result(text: Seq<char>, lower: Seq<char>)
    ensures
        ({
            let first = behind_mark(text, lower, "result=\""@);
            let second = behind_mark(text, lower, "result:\""@);
            let third = behind_mark(text, lower, "result =\""@);
            let fourth = behind_mark(text, lower, "result= \""@);
            let given = result_given(text, lower);
            &&& !(first is Missing) ==> given == first
            &&& first is Missing && !(second is Missing) ==> given == second
            &&& first is Missing && second is Missing && !(third is Missing) ==> given == third
            &&& first is Missing && second is Missing && third is Missing ==> given == fourth
        }),
{
}

/// A pattern that names the result captures what is given as the result; one that begins like a
/// call captures the quoted text right behind its bracket; any other captures nothing.
pub proof fn law_what_patterns_capture(pattern: Seq<char>, text: Seq<char>, lower: Seq<char>)
    ensures
        contains_seq(pattern, "result"@) && !(result_given(text, lower) is Missing) ==> captured(
            pattern,
            text,
            lower,
        ) == result_given(text, lower),
        !contains_seq(pattern, "result"@) && (begins_with(pattern, "finish(\""@) || begins_with(
            pattern,
            "finish('"@,
        )) ==> captured(pattern, text, lower) == first_argument(text, lower),
        !contains_seq(pattern, "result"@) && !begins_with(pattern, "finish(\""@) && !begins_with(
            pattern,
            "finish('"@,
        ) ==> captured(pattern, text, lower) is Missing,
{
}

/// The quoted text right behind the bracket of a call is its first argument, as it stands, in
/// either kind of quotes.
#[verifier::rlimit(40)]
pub proof fn law_the_first_argument_is_found(
    before: Seq<char>,
    quote: char,
    answer: Seq<char>,
    after: Seq<char>,
)
    requires
        is_ascii_chars(before),
        is_ascii_chars(answer),
        is_ascii_chars(after),
        quote == '"' || quote == '\'',
        forall|i: int| 0 <= i < before.len() ==> #[trigger] before[i] != '(',
        forall|i: int| 0 <= i < answer.len() ==> #[trigger] answer[i] != quote,
    ensures
        ({
            let text = before + "finish("@ + (seq![quote] + (answer + seq![quote] + after));
            first_argument(text, lowered(text)) == CaptureView::Found(answer)
        }),
{
    reveal_strlit("finish(");
    let call = "finish("@;
    let inner = answer + seq![quote] + after;
    let rest = seq![quote] + inner;
    let text = before + call + rest;
    let lower = lowered(text);
    let at = before.len() as int;
    assert(is_ascii_chars(call));
    assert(is_ascii_chars(rest));
    assert(is_ascii_chars(text));
    lemma_lowered(text);
    assert(call[0] == 'f' && call[1] == 'i' && call[2] == 'n' && call[3] == 'i' && call[4] == 's'
        && call[5] == 'h' && call[6] == '(');
    assert(lower.subrange(at, at + 7) =~= call);
    assert(occurs_at(lower, call, at));
    assert forall|q: int| 0 <= q < at implies !occurs_at(lower, call, q) by {
        if occurs_at(lower, call, q) {
            assert(lower.subrange(q, q + 7)[6] == call[6]);
            assert(lower[q + 6] == '(');
            assert(text[q + 6] == '(');
            if q + 6 < at {
                assert(before[q + 6] == '(');
            } else {
                assert(text[q + 6] == call[q + 6 - at]);
            }
        }
    }
    lemma_ascii_first(lower, call, Some(at));
    is_ascii_chars_encode_utf8(call);
    let from = (at + 7) as nat;
    law_ascii_cuts_anywhere(text, from);
    assert(text.skip(from as int) =~= rest);
    assert(rest.skip(1) =~= inner);
    lemma_first_char(answer, quote, after);
    assert(inner.take(answer.len() as int) =~= answer);
}

/// A closing call that the model wrote as text gives its answer: the words before the call where
/// there are any, and else the result in it.
#[verifier::rlimit(40)]
pub proof fn law_a_written_call_gives_its_answer(
    before: Seq<char>,
    answer: Seq<char>,
    after: Seq<char>,
)
    requires
        is_ascii_chars(before),
        is_ascii_chars(answer),
        is_ascii_chars(after),
        forall|i: int| 0 <= i < before.len() ==> #[trigger] before[i] != '"' && before[i] != '(',
        forall|i: int| 0 <= i < answer.len() ==> #[trigger] answer[i] != '"',
    ensures
        ({
            let text = before + "finish(result=\""@ + answer + seq!['"'] + after;
            inline_finish(text, lowered(text)) == CaptureView::Found(
                if trimmed_end(before).len() == 0 {
                    answer
                } else {
                    trimmed_end(before)
                },
            )
        }),
{
    reveal_strlit("finish(result=\"");
    reveal_strlit("finish(");
    reveal_strlit("result=\"");
    let call = "finish("@;
    let mark = "result=\""@;
    let text = before + "finish(result=\""@ + answer + seq!['"'] + after;
    let front = before + call;
    assert("finish(result=\""@ =~= call + mark);
    assert(text =~= front + mark + answer + seq!['"'] + after);
    assert(is_ascii_chars(call) && is_ascii_chars(mark));
    assert(is_ascii_chars(front));
    assert(lowered(mark) =~= mark);
    assert forall|i: int| 0 <= i < front.len() implies #[trigger] front[i] != '"' by {
        if i < before.len() {
            assert(front[i] == before[i]);
        } else {
            assert(front[i] == call[i - before.len()]);
        }
    }
    law_a_given_result_is_found(front, mark, answer, after);
    let at = before.len() as int;
    assert(text.subrange(at, at + 7) =~= call);
    assert(occurs_at(text, call, at));
    assert forall|q: int| 0 <= q < at implies !occurs_at(text, call, q) by {
        if occurs_at(text, call, q) {
            assert(text.subrange(q, q + 7)[6] == call[6]);
            assert(text[q + 6] == '(');
            if q + 6 < at {
                assert(before[q + 6] == '(');
            } else {
                assert(text[q + 6] == call[q + 6 - at]);
            }
        }
    }
    lemma_first_at(text, call, Some(at));
    assert(text.take(at) =~= before);
}

/// Words in which no result is named are never taken for a closing call.
pub proof fn law_other_words_are_no_call(text: Seq<char>)
    requires
        is_ascii_chars(text),
        !contains_seq(lowered(text), "result"@),
    ensures
        inline_finish(text, lowered(text)) is Missing,
{
    let lower = lowered(text);
    lemma_lowered(text);
    reveal_strlit("result");
    reveal_strlit("result=\"");
    reveal_strlit("result:\"");
    reveal_strlit("result =\"");
    reveal_strlit("result= \"");
    assert("result=\""@.take(6) =~= "result"@ && "result:\""@.take(6) =~= "result"@);
    assert("result =\""@.take(6) =~= "result"@ && "result= \""@.take(6) =~= "result"@);
    lemma_no_mark(lower, "result=\""@);
    lemma_no_mark(lower, "result:\""@);
    lemma_no_mark(lower, "result =\""@);
    lemma_no_mark(lower, "result= \""@);
}

proof fn lemma_no_mark(lower: Seq<char>, mark: Seq<char>)
    requires
        is_ascii_chars(lower),
        is_ascii_chars(mark),
        mark.len() >= 6,
        mark.take(6) == "result"@,
        !contains_seq(lower, "result"@),
    ensures
        first_at(encode_utf8(lower), encode_utf8(mark)) is None,
{
    reveal_strlit("result");
    assert forall|q: int| !occurs_at(lower, mark, q) by {
        if occurs_at(lower, mark, q) {
            assert(lower.subrange(q, q + 6) =~= lower.subrange(q, q + mark.len()).take(6));
            assert(occurs_at(lower, "result"@, q));
        }
    }
    lemma_ascii_first(lower, mark, None);
}

}
