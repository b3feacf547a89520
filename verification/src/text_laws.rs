//! What holds of cutting, trimming, splitting and joining texts.

use vstd::prelude::*;
use vstd::string::*;
use vstd::utf8::*;

use crate::reports::{text_lines, without_return};
use crate::text::{
    byte_len, clipped, contains_seq, cuts_clean, decimal, head, is_white, joined, last_cut,
    law_decimal_reads_back, law_decimal_tells_apart, law_head_is_prefix, lemma_joint_is_boundary,
    lemma_pieces_some, occurs_at, pieces, replaced, shortened, signed_decimal, tail, trimmed,
    trimmed_end, trimmed_start, unsigned_of,
};

verus! {

/// Whether a text ends with another.
pub open spec fn ends_with(s: Seq<char>, part: Seq<char>) -> bool {
    part.len() <= s.len() && s.skip(s.len() - part.len()) == part
}

/// What stands between two texts stands in the whole.
pub(crate) proof fn lemma_stands_between(a: Seq<char>, part: Seq<char>, b: Seq<char>)
    ensures
        contains_seq(a + part + b, part),
{
    assert((a + part + b).subrange(a.len() as int, (a.len() + part.len()) as int) =~= part);
    assert(occurs_at(a + part + b, part, a.len() as int));
}

/// What stands at the end is what a text ends with.
pub(crate) proof fn lemma_stands_last(a: Seq<char>, part: Seq<char>)
    ensures
        ends_with(a + part, part),
        contains_seq(a + part, part),
{
    assert((a + part).skip(a.len() as int) =~= part);
    assert((a + part).subrange(a.len() as int, (a.len() + part.len()) as int) =~= part);
    assert(occurs_at(a + part, part, a.len() as int));
}

/// What stands in a text, or at its end, does so with more in front.
pub(crate) proof fn lemma_stays_behind(more: Seq<char>, s: Seq<char>, part: Seq<char>)
    ensures
        contains_seq(s, part) ==> contains_seq(more + s, part),
        ends_with(s, part) ==> ends_with(more + s, part),
{
    let whole = more + s;
    if contains_seq(s, part) {
        let at = choose|at: int| occurs_at(s, part, at);
        let to = more.len() + at;
        assert(whole.subrange(to, to + part.len()) =~= s.subrange(at, at + part.len()));
        assert(occurs_at(whole, part, to));
    }
    if ends_with(s, part) {
        assert(whole.skip(whole.len() - part.len()) =~= s.skip(s.len() - part.len()));
    }
}

/// What stands in a text stands in it with more behind.
pub(crate) proof fn lemma_stays_before(s: Seq<char>, more: Seq<char>, part: Seq<char>)
    requires
        contains_seq(s, part),
    ensures
        contains_seq(s + more, part),
{
    let at = choose|at: int| occurs_at(s, part, at);
    assert((s + more).subrange(at, at + part.len()) =~= s.subrange(at, at + part.len()));
    assert(occurs_at(s + more, part, at));
}

/// Of two parts in a text each stands in it, and the second at its end.
pub(crate) proof fn lemma_two_stand(a: Seq<char>, p: Seq<char>, b: Seq<char>, q: Seq<char>)
    ensures
        contains_seq(a + p + b + q, p),
        ends_with(a + p + b + q, q),
        contains_seq(a + p + b + q, q),
{
    lemma_stands_last(a, p);
    lemma_stays_before(a + p, b, p);
    lemma_stays_before(a + p + b, q, p);
    lemma_stands_last(a + p + b, q);
}

/// Of three parts in a text each stands in it, and the third at its end.
pub(crate) proof fn lemma_three_stand(
    a: Seq<char>,
    p: Seq<char>,
    b: Seq<char>,
    q: Seq<char>,
    c: Seq<char>,
    r: Seq<char>,
)
    ensures
        contains_seq(a + p + b + q + c + r, p),
        contains_seq(a + p + b + q + c + r, q),
        contains_seq(a + p + b + q + c + r, r),
        ends_with(a + p + b + q + c + r, r),
{
    lemma_two_stand(a, p, b, q);
    lemma_stays_before(a + p + b + q, c, p);
    lemma_stays_before(a + p + b + q, c, q);
    lemma_stays_before(a + p + b + q + c, r, p);
    lemma_stays_before(a + p + b + q + c, r, q);
    lemma_stands_last(a + p + b + q + c, r);
}

/// A text of ASCII characters has a byte for each, and can be cut anywhere.
pub proof fn law_ascii_cuts_anywhere(s: Seq<char>, max: nat)
    requires
        is_ascii_chars(s),
    ensures
        byte_len(s) == s.len(),
        cuts_clean(s, max),
        max <= s.len() ==> is_char_boundary(encode_utf8(s), max as int) && head(s, max) == s.take(
            max as int,
        ) && tail(s, max) == s.skip(max as int),
{
    is_ascii_chars_encode_utf8(s);
    if max <= s.len() {
        let front = s.take(max as int);
        let back = s.skip(max as int);
        assert(s =~= front + back);
        assert(is_ascii_chars(front));
        is_ascii_chars_encode_utf8(front);
        lemma_joint_is_boundary(front, back);
        law_head_is_prefix(s, max);
        is_ascii_chars_encode_utf8(head(s, max));
        assert(head(s, max).len() == max);
        assert(tail(s, max) =~= back);
    }
}

/// A text that is cut keeps what fits, as it stands: all of it, or a beginning of just so many
/// bytes with dots behind.
pub proof fn law_cut_texts_keep_their_beginning(s: Seq<char>, max: nat)
    requires
        cuts_clean(s, max),
    ensures
        byte_len(s) <= max ==> shortened(s, max) == s,
        byte_len(s) > max ==> {
            let front = shortened(s, max).take(shortened(s, max).len() - 3);
            &&& ends_with(shortened(s, max), "..."@)
            &&& front.len() <= s.len()
            &&& front == s.take(front.len() as int)
            &&& byte_len(front) == max
        },
{
    if byte_len(s) > max {
        reveal_strlit("...");
        law_head_is_prefix(s, max);
        lemma_stands_last(head(s, max), "..."@);
        assert(shortened(s, max).take(shortened(s, max).len() - 3) =~= head(s, max));
    }
}

proof fn lemma_last_cut(s: Seq<char>, max: nat)
    ensures
        last_cut(s, max) <= max,
        is_char_boundary(encode_utf8(s), last_cut(s, max) as int),
        forall|k: int|
            last_cut(s, max) < k <= max ==> !#[trigger] is_char_boundary(encode_utf8(s), k),
    decreases max,
{
    encode_utf8_valid_utf8(s);
    if max > 0 && !is_char_boundary(encode_utf8(s), max as int) {
        lemma_last_cut(s, (max - 1) as nat);
    }
}

/// A text that is clipped keeps as much of its beginning as fits, as it stands, and shows by dots
/// that there was more.
pub proof fn law_clipped_texts_keep_what_fits(s: Seq<char>, max: nat)
    ensures
        byte_len(s) <= max ==> clipped(s, max) == s,
        byte_len(s) > max ==> {
            let front = clipped(s, max).take(clipped(s, max).len() - 3);
            &&& ends_with(clipped(s, max), "..."@)
            &&& front.len() <= s.len()
            &&& front == s.take(front.len() as int)
            &&& byte_len(front) <= max
            &&& forall|n: int|
                front.len() < n <= s.len() ==> byte_len(#[trigger] s.take(n)) > max
        },
{
    if byte_len(s) > max {
        reveal_strlit("...");
        let at = last_cut(s, max);
        lemma_last_cut(s, max);
        law_head_is_prefix(s, at);
        lemma_stands_last(head(s, at), "..."@);
        let front = clipped(s, max).take(clipped(s, max).len() - 3);
        assert(front =~= head(s, at));
        assert forall|n: int| front.len() < n <= s.len() implies byte_len(#[trigger] s.take(n))
            > max by {
            let longer = s.take(n);
            assert(s =~= longer + s.skip(n));
            lemma_joint_is_boundary(longer, s.skip(n));
            let more = longer.skip(front.len() as int);
            assert(longer =~= front + more);
            lemma_joint_is_boundary(front, more);
            lemma_some_bytes(front, more);
        }
    }
}

/// More characters are more bytes.
proof fn lemma_some_bytes(a: Seq<char>, b: Seq<char>)
    requires
        b.len() > 0,
    ensures
        byte_len(a + b) > byte_len(a),
    decreases a.len(),
{
    let whole = a + b;
    if a.len() > 0 {
        assert(whole.drop_first() =~= a.drop_first() + b);
        assert(whole[0] == a[0]);
        lemma_some_bytes(a.drop_first(), b);
    } else {
        assert(encode_utf8(a) =~= Seq::empty());
        encode_utf8_valid_utf8(whole);
        encode_utf8_decode_utf8(whole);
        if encode_utf8(whole).len() == 0 {
            assert(decode_utf8(encode_utf8(whole)) =~= Seq::empty());
            assert(whole.len() > 0);
        }
    }
}

/// White space is taken from the end of a text, and nothing else.
pub proof fn law_trimmed_at_the_end(s: Seq<char>)
    ensures
        trimmed_end(s).len() <= s.len(),
        trimmed_end(s) == s.take(trimmed_end(s).len() as int),
        forall|i: int| trimmed_end(s).len() <= i < s.len() ==> is_white(#[trigger] s[i]),
        trimmed_end(s).len() > 0 ==> !is_white(trimmed_end(s).last()),
    decreases s.len(),
{
    if s.len() > 0 && is_white(s.last()) {
        let fewer = s.drop_last();
        law_trimmed_at_the_end(fewer);
        let n = trimmed_end(s).len() as int;
        assert(fewer.take(n) =~= s.take(n));
        assert forall|i: int| n <= i < s.len() implies is_white(#[trigger] s[i]) by {
            if i < fewer.len() {
                assert(fewer[i] == s[i]);
            }
        }
    } else {
        assert(s.take(s.len() as int) =~= s);
    }
}

proof fn lemma_trimmed_at_the_start(s: Seq<char>)
    ensures
        trimmed_start(s).len() <= s.len(),
        trimmed_start(s) == s.skip(s.len() - trimmed_start(s).len()),
        forall|i: int| 0 <= i < s.len() - trimmed_start(s).len() ==> is_white(#[trigger] s[i]),
        trimmed_start(s).len() > 0 ==> !is_white(trimmed_start(s)[0]),
    decreases s.len(),
{
    if s.len() > 0 && is_white(s[0]) {
        let fewer = s.drop_first();
        lemma_trimmed_at_the_start(fewer);
        let n = s.len() - trimmed_start(s).len();
        assert(fewer.skip(n - 1) =~= s.skip(n));
        assert forall|i: int| 0 <= i < n implies is_white(#[trigger] s[i]) by {
            if i > 0 {
                assert(fewer[i - 1] == s[i]);
            }
        }
    } else {
        assert(s.skip(0) =~= s);
    }
}

/// White space is taken from either end of a text, and nothing else: what is left stands in the
/// text, is white at neither end, and there is nothing left only where all was white.
pub proof fn law_trimmed_at_both_ends(s: Seq<char>)
    ensures
        contains_seq(s, trimmed(s)),
        trimmed(s).len() > 0 ==> !is_white(trimmed(s)[0]) && !is_white(trimmed(s).last()),
        trimmed(s).len() == 0 <==> forall|i: int| 0 <= i < s.len() ==> is_white(#[trigger] s[i]),
        s.len() > 0 && !is_white(s[0]) && !is_white(s.last()) ==> trimmed(s) == s,
{
    let mid = trimmed_end(s);
    law_trimmed_at_the_end(s);
    lemma_trimmed_at_the_start(mid);
    let at = mid.len() - trimmed(s).len();
    assert(s.subrange(at, at + trimmed(s).len()) =~= trimmed(s));
    assert(occurs_at(s, trimmed(s), at));
    if trimmed(s).len() > 0 {
        assert(trimmed(s).last() == mid.last());
        assert(trimmed(s)[0] == s[at]);
        assert(!is_white(s[at]));
    } else {
        assert forall|i: int| 0 <= i < s.len() implies is_white(#[trigger] s[i]) by {
            if i < mid.len() {
                assert(mid[i] == s[i]);
            }
        }
    }
    if s.len() > 0 && !is_white(s[0]) && !is_white(s.last()) {
        assert(mid == s);
        assert(trimmed(s) == s);
    }
}

/// No piece of a text holds the character at which it was split.
proof fn lemma_pieces_are_free(s: Seq<char>, at: char)
    ensures
        forall|k: int, i: int|
            0 <= k < pieces(s, at).len() && 0 <= i < pieces(s, at)[k].len() ==> #[trigger] pieces(
                s,
                at,
            )[k][i] != at,
    decreases s.len(),
{
    if s.len() > 0 {
        let before = pieces(s.drop_last(), at);
        lemma_pieces_are_free(s.drop_last(), at);
        lemma_pieces_some(s.drop_last(), at);
        let all = pieces(s, at);
        assert forall|k: int, i: int| 0 <= k < all.len() && 0 <= i < all[k].len() implies
            #[trigger] all[k][i] != at by {
            if k < before.len() - 1 {
                assert(all[k] == before[k]);
                assert(before[k][i] != at);
            } else if k == before.len() - 1 {
                if i < before[k].len() {
                    assert(before[k][i] != at);
                    assert(all[k][i] == before[k][i]);
                }
            }
        }
    }
}

/// Splitting a text loses nothing: the pieces with the character between each two are the text
/// again, and no piece holds the character.
pub proof fn law_pieces_join_to_the_text(s: Seq<char>, at: char)
    ensures
        joined(pieces(s, at), seq![at]) == s,
        forall|k: int, i: int|
            0 <= k < pieces(s, at).len() && 0 <= i < pieces(s, at)[k].len() ==> #[trigger] pieces(
                s,
                at,
            )[k][i] != at,
    decreases s.len(),
{
    lemma_pieces_are_free(s, at);
    if s.len() == 0 {
        assert(joined(pieces(s, at), seq![at]) =~= s);
    } else {
        let before = pieces(s.drop_last(), at);
        law_pieces_join_to_the_text(s.drop_last(), at);
        lemma_pieces_some(s.drop_last(), at);
        let all = pieces(s, at);
        if s.last() == at {
            assert(all.drop_last() =~= before);
            assert(joined(all, seq![at]) =~= s);
        } else {
            assert(all.drop_last() =~= before.drop_last());
            assert(joined(all, seq![at]) =~= joined(before, seq![at]).push(s.last()));
            assert(joined(all, seq![at]) =~= s);
        }
    }
}

proof fn lemma_one_piece(s: Seq<char>, at: char)
    requires
        forall|i: int| 0 <= i < s.len() ==> #[trigger] s[i] != at,
    ensures
        pieces(s, at) == seq![s],
    decreases s.len(),
{
    if s.len() == 0 {
        assert(s =~= Seq::empty());
    } else {
        let fewer = s.drop_last();
        assert forall|i: int| 0 <= i < fewer.len() implies #[trigger] fewer[i] != at by {
            assert(fewer[i] == s[i]);
        }
        lemma_one_piece(fewer, at);
        assert(pieces(s, at) =~= seq![s]) by {
            assert(fewer.push(s.last()) =~= s);
        }
    }
}

proof fn lemma_one_more_piece(s: Seq<char>, at: char, t: Seq<char>)
    requires
        forall|i: int| 0 <= i < t.len() ==> #[trigger] t[i] != at,
    ensures
        pieces(s + seq![at] + t, at) == pieces(s, at).push(t),
    decreases t.len(),
{
    let whole = s + seq![at] + t;
    lemma_pieces_some(s, at);
    if t.len() == 0 {
        assert(t =~= Seq::empty());
        assert(whole.drop_last() =~= s);
        assert(whole.last() == at);
    } else {
        let fewer = t.drop_last();
        assert forall|i: int| 0 <= i < fewer.len() implies #[trigger] fewer[i] != at by {
            assert(fewer[i] == t[i]);
        }
        lemma_one_more_piece(s, at, fewer);
        assert(whole.drop_last() =~= s + seq![at] + fewer);
        assert(whole.last() == t.last());
        assert(fewer.push(t.last()) =~= t);
        assert(pieces(s, at).push(fewer).drop_last() =~= pieces(s, at));
    }
}

/// Texts that are joined by a character which none of them holds come apart again as they were.
pub proof fn law_joined_texts_come_apart(parts: Seq<Seq<char>>, at: char)
    requires
        parts.len() > 0,
        forall|k: int, i: int|
            0 <= k < parts.len() && 0 <= i < parts[k].len() ==> #[trigger] parts[k][i] != at,
    ensures
        pieces(joined(parts, seq![at]), at) == parts,
    decreases parts.len(),
{
    let last = parts.last();
    assert forall|i: int| 0 <= i < last.len() implies #[trigger] last[i] != at by {
        assert(parts[parts.len() - 1][i] != at);
    }
    if parts.len() == 1 {
        lemma_one_piece(last, at);
        assert(parts =~= seq![last]);
    } else {
        let fewer = parts.drop_last();
        assert forall|k: int, i: int| 0 <= k < fewer.len() && 0 <= i < fewer[k].len() implies
            #[trigger] fewer[k][i] != at by {
            assert(parts[k][i] != at);
        }
        law_joined_texts_come_apart(fewer, at);
        lemma_one_more_piece(joined(fewer, seq![at]), at, last);
        assert(fewer.push(last) =~= parts);
    }
}

/// The lines of a text are those that were written, whole and in order, where each was ended by a
/// line feed.
pub proof fn law_lines_are_those_written(lines: Seq<Seq<char>>)
    requires
        lines.len() > 0,
        forall|k: int, i: int|
            0 <= k < lines.len() && 0 <= i < lines[k].len() ==> #[trigger] lines[k][i] != '\n',
        forall|k: int|
            0 <= k < lines.len() && (#[trigger] lines[k]).len() > 0 ==> lines[k].last() != '\r',
    ensures
        text_lines(joined(lines, seq!['\n']).push('\n')) == lines,
{
    lemma_ended_pieces(lines);
    let text = joined(lines, seq!['\n']);
    let parts = pieces(text.push('\n'), '\n');
    assert forall|k: int| 0 <= k < lines.len() implies without_return(#[trigger] parts[k])
        == lines[k] by {
        assert(parts[k] == lines[k]);
    }
    assert(text_lines(text.push('\n')) =~= lines);
}

proof fn lemma_ended_pieces(lines: Seq<Seq<char>>)
    requires
        lines.len() > 0,
        forall|k: int, i: int|
            0 <= k < lines.len() && 0 <= i < lines[k].len() ==> #[trigger] lines[k][i] != '\n',
    ensures
        pieces(joined(lines, seq!['\n']).push('\n'), '\n') == lines.push(Seq::empty()),
{
    law_joined_texts_come_apart(lines, '\n');
    let text = joined(lines, seq!['\n']);
    let none = Seq::<char>::empty();
    lemma_one_more_piece(text, '\n', none);
    assert(text + seq!['\n'] + none =~= text.push('\n'));
}

/// A carriage return before the line feed is part of the line's end, and of no line.
pub proof fn law_lines_may_end_with_a_return(lines: Seq<Seq<char>>)
    requires
        lines.len() > 0,
        forall|k: int, i: int|
            0 <= k < lines.len() && 0 <= i < lines[k].len() ==> #[trigger] lines[k][i] != '\n',
    ensures
        text_lines(
            joined(Seq::new(lines.len(), |k: int| lines[k].push('\r')), seq!['\n']).push('\n'),
        ) == lines,
{
    let ended = Seq::new(lines.len(), |k: int| lines[k].push('\r'));
    assert forall|k: int, i: int| 0 <= k < ended.len() && 0 <= i < ended[k].len() implies
        #[trigger] ended[k][i] != '\n' by {
        if i < lines[k].len() {
            assert(lines[k][i] != '\n');
        }
    }
    lemma_ended_pieces(ended);
    let text = joined(ended, seq!['\n']).push('\n');
    let parts = pieces(text, '\n');
    assert forall|k: int| 0 <= k < lines.len() implies without_return(#[trigger] parts[k])
        == lines[k] by {
        assert(parts[k] == lines[k].push('\r'));
        assert(lines[k].push('\r').drop_last() =~= lines[k]);
    }
    assert(text_lines(text) =~= lines);
}

/// A last line that no line feed ends is a line all the same, as it stands.
pub proof fn law_the_last_line_may_be_open(lines: Seq<Seq<char>>, last: Seq<char>)
    requires
        lines.len() > 0,
        forall|k: int, i: int|
            0 <= k < lines.len() && 0 <= i < lines[k].len() ==> #[trigger] lines[k][i] != '\n',
        forall|k: int|
            0 <= k < lines.len() && (#[trigger] lines[k]).len() > 0 ==> lines[k].last() != '\r',
        last.len() > 0,
        forall|i: int| 0 <= i < last.len() ==> #[trigger] last[i] != '\n',
    ensures
        text_lines(joined(lines, seq!['\n']) + seq!['\n'] + last) == lines.push(last),
        text_lines(last) == seq![last],
{
    law_joined_texts_come_apart(lines, '\n');
    let text = joined(lines, seq!['\n']);
    lemma_one_more_piece(text, '\n', last);
    let parts = pieces(text + seq!['\n'] + last, '\n');
    assert forall|k: int| 0 <= k < lines.len() implies without_return(#[trigger] parts[k])
        == lines[k] by {
        assert(parts[k] == lines[k]);
    }
    assert(text_lines(text + seq!['\n'] + last) =~= lines.push(last));
    lemma_one_piece(last, '\n');
    assert(text_lines(last) =~= seq![last]);
}

/// One character takes the place of another, and every other stays.
pub proof fn law_replacing_touches_nothing_else(s: Seq<char>, from: char, to: char)
    ensures
        replaced(s, from, to).len() == s.len(),
        forall|i: int|
            0 <= i < s.len() ==> #[trigger] replaced(s, from, to)[i] == (if s[i] == from {
                to
            } else {
                s[i]
            }),
{
}

/// Two whole numbers never have the same numeral, and only a negative one has a sign.
pub proof fn law_signed_numerals_tell_apart(m: int, n: int)
    ensures
        signed_decimal(m) == signed_decimal(n) ==> m == n,
        signed_decimal(m)[0] == '-' <==> m < 0,
        m >= 0 ==> signed_decimal(m) == decimal(m as nat),
        m < 0 ==> signed_decimal(m).skip(1) == decimal((-m) as nat),
{
    let a = decimal((if m < 0 {
        -m
    } else {
        m
    }) as nat);
    let b = decimal((if n < 0 {
        -n
    } else {
        n
    }) as nat);
    law_decimal_reads_back((if m < 0 {
        -m
    } else {
        m
    }) as nat);
    law_decimal_reads_back((if n < 0 {
        -n
    } else {
        n
    }) as nat);
    assert(a[0] != '-' && b[0] != '-');
    if m < 0 {
        assert(signed_decimal(m).skip(1) =~= a);
        assert(signed_decimal(m)[0] == '-');
    }
    if n < 0 {
        assert(signed_decimal(n).skip(1) =~= b);
        assert(signed_decimal(n)[0] == '-');
    }
    if signed_decimal(m) == signed_decimal(n) {
        assert(a == b);
        if m < 0 {
            law_decimal_tells_apart((-m) as nat, (-n) as nat);
        } else {
            law_decimal_tells_apart(m as nat, n as nat);
        }
    }
}

/// A number that is written in decimal is read as itself, with a plus sign in front or without.
pub proof fn law_numbers_are_read(n: u64)
    ensures
        unsigned_of(decimal(n as nat)) == Some(n),
        unsigned_of(seq!['+'] + decimal(n as nat)) == Some(n),
{
    law_decimal_reads_back(n as nat);
    assert(decimal(n as nat)[0] != '+');
    assert((seq!['+'] + decimal(n as nat)).drop_first() =~= decimal(n as nat));
}

/// A text that holds anything but digits behind its first character is read as no number.
pub proof fn law_other_texts_are_no_numbers(s: Seq<char>, i: int)
    requires
        0 < i < s.len(),
        !('0' <= s[i] <= '9'),
    ensures
        unsigned_of(s) is None,
{
    if s[0] == '+' {
        assert(s.drop_first()[i - 1] == s[i]);
    }
}

/// Numerals are of base ten: a digit for each number below ten, and one more digit for ten times as
/// much.
pub proof fn law_numerals_are_decimal(n: nat, d: nat)
    requires
        d < 10,
    ensures
        decimal(d) == seq![(('0' as nat) + d) as char],
        n > 0 ==> decimal(n * 10 + d) == decimal(n).push((('0' as nat) + d) as char),
{
    if n > 0 {
        assert((n * 10 + d) / 10 == n);
        assert((n * 10 + d) % 10 == d);
    }
}

/// A text that begins with anything but a digit or a plus sign is read as no number, and nor is the
/// empty one.
pub proof fn law_numbers_begin_with_a_digit(s: Seq<char>)
    requires
        s.len() == 0 || (s[0] != '+' && !('0' <= s[0] <= '9')),
    ensures
        unsigned_of(s) is None,
{
}

/// The codes of the characters that Unicode counts as white space.
pub open spec fn white_codes() -> Seq<u32> {
    seq![
        9u32, 10, 11, 12, 13, 32, 133, 160, 5760, 8192, 8193, 8194, 8195, 8196, 8197, 8198, 8199,
        8200, 8201, 8202, 8232, 8233, 8239, 8287, 12288,
    ]
}

/// White space is what Unicode counts as such, and nothing else.
pub proof fn law_white_space_is_that_of_unicode(c: char)
    ensures
        is_white(c) <==> white_codes().contains(c as u32),
{
    let codes = white_codes();
    assert(codes.len() == 25);
    assert(codes[0] == 9 && codes[1] == 10 && codes[2] == 11 && codes[3] == 12 && codes[4] == 13
        && codes[5] == 32 && codes[6] == 133 && codes[7] == 160 && codes[8] == 5760 && codes[9]
        == 8192 && codes[10] == 8193 && codes[11] == 8194 && codes[12] == 8195 && codes[13] == 8196
        && codes[14] == 8197 && codes[15] == 8198 && codes[16] == 8199 && codes[17] == 8200
        && codes[18] == 8201 && codes[19] == 8202 && codes[20] == 8232 && codes[21] == 8233
        && codes[22] == 8239 && codes[23] == 8287 && codes[24] == 12288);
    if codes.contains(c as u32) {
        let k = choose|k: int| 0 <= k < codes.len() && codes[k] == c as u32;
        assert(codes[k] == c as u32);
    }
}

}
