//! Text: numerals, searching, cutting, trimming, splitting and joining.
//!
//! A text is a sequence of characters; where a rule counts bytes, it counts those of the UTF-8
//! encoding.

use vstd::prelude::*;
use vstd::string::*;
use vstd::utf8::*;

verus! {

/// `String::push` adds one character at the end.
pub assume_specification[ String::push ](s: &mut String, c: char)
    ensures
        final(s)@ == old(s)@.push(c),
;

/// What `str::to_lowercase` makes of a text.
pub uninterp spec fn lowercase(s: Seq<char>) -> Seq<char>;

/// What `String::from_utf8_lossy` reads from bytes.
pub uninterp spec fn lossy(bytes: Seq<u8>) -> Seq<char>;

/// The lower case of one ASCII character.
pub open spec fn ascii_lower(c: char) -> char {
    if 'A' <= c <= 'Z' {
        ((c as u32) + 32) as char
    } else {
        c
    }
}

/// `str::to_lowercase`. A text of ASCII characters alone has its letters lowered one by one.
#[verifier::external_body]
pub(crate) fn to_lower(s: &str) -> (r: String)
    ensures
        r@ == lowercase(s@),
        is_ascii_chars(s@) ==> r@ == s@.map_values(|c: char| ascii_lower(c)),
{
    s.to_lowercase()
}

/// `String::from_utf8_lossy`. Valid UTF-8 is decoded as it stands.
#[verifier::external_body]
pub(crate) fn from_bytes_lossy(bytes: &[u8]) -> (r: String)
    ensures
        r@ == lossy(bytes@),
        valid_utf8(bytes@) ==> r@ == decode_utf8(bytes@),
{
    String::from_utf8_lossy(bytes).into_owned()
}

/// `String::from_utf8`: a text where the bytes are valid UTF-8, and then the one they encode.
#[verifier::external_body]
pub(crate) fn from_bytes(bytes: Vec<u8>) -> (r: Option<String>)
    ensures
        match r {
            Some(s) => valid_utf8(bytes@) && s@ == decode_utf8(bytes@),
            None => !valid_utf8(bytes@),
        },
{
    String::from_utf8(bytes).ok()
}

/// The numeral of one digit.
pub open spec fn digit(d: nat) -> char {
    (('0' as nat) + d) as char
}

/// A number in decimal, without leading zeros.
pub open spec fn decimal(n: nat) -> Seq<char>
    decreases n,
{
    if n < 10 {
        seq![digit(n)]
    } else {
        decimal(n / 10).push(digit(n % 10))
    }
}

/// A number in decimal, with a minus sign in front where it is negative.
pub open spec fn signed_decimal(n: int) -> Seq<char> {
    if n < 0 {
        seq!['-'] + decimal((-n) as nat)
    } else {
        decimal(n as nat)
    }
}

/// Adds a number in decimal.
pub fn push_decimal(out: &mut String, n: u64)
    ensures
        final(out)@ == old(out)@ + decimal(n as nat),
    decreases n,
{
    if n >= 10 {
        push_decimal(out, n / 10);
    }
    let code: u8 = 48 + (n % 10) as u8;
    out.push(code as char);
    assert(out@ =~= old(out)@ + decimal(n as nat));
}

/// A number in decimal.
pub fn decimal_text(n: u64) -> (r: String)
    ensures
        r@ == decimal(n as nat),
{
    let mut out = String::new();
    push_decimal(&mut out, n);
    assert(out@ =~= decimal(n as nat));
    out
}

/// A signed number in decimal.
pub fn signed_text(n: i32) -> (r: String)
    ensures
        r@ == signed_decimal(n as int),
{
    let mut out = String::new();
    if n < 0 {
        out.push('-');
        push_decimal(&mut out, (-(n as i64)) as u64);
        assert(out@ =~= signed_decimal(n as int));
    } else {
        push_decimal(&mut out, n as u64);
        assert(out@ =~= signed_decimal(n as int));
    }
    out
}

/// Whether two texts are the same.
pub fn same_text(a: &str, b: &str) -> (r: bool)
    ensures
        r == (a@ == b@),
{
    a.to_string() == b.to_string()
}

/// The characters of a text.
pub fn chars_of(s: &str) -> (r: Vec<char>)
    ensures
        r@ == s@,
{
    let mut out: Vec<char> = Vec::new();
    for c in it: s.chars()
        invariant
            it.seq() == s@,
            out@ == s@.take(it.index()),
    {
        out.push(c);
    }
    assert(s@.take(s@.len() as int) =~= s@);
    out
}

/// The text of some of the characters, from one place up to another.
pub fn text_of(chars: &Vec<char>, from: usize, to: usize) -> (r: String)
    requires
        from <= to <= chars@.len(),
    ensures
        r@ == chars@.subrange(from as int, to as int),
{
    let mut out = String::new();
    let mut i: usize = from;
    while i < to
        invariant
            from <= i <= to <= chars@.len(),
            out@ == chars@.subrange(from as int, i as int),
        decreases to - i,
    {
        out.push(chars[i]);
        i += 1;
        assert(out@ =~= chars@.subrange(from as int, i as int));
    }
    out
}

/// Whether one sequence stands in another at a place.
pub open spec fn occurs_at<T>(hay: Seq<T>, needle: Seq<T>, at: int) -> bool {
    0 <= at <= hay.len() - needle.len() && hay.subrange(at, at + needle.len()) == needle
}

/// Whether one sequence stands somewhere in another.
pub open spec fn contains_seq<T>(hay: Seq<T>, needle: Seq<T>) -> bool {
    exists|at: int| occurs_at(hay, needle, at)
}

/// The place is the first at which one sequence stands in another, if there is one.
pub open spec fn is_first_at<T>(hay: Seq<T>, needle: Seq<T>, at: Option<int>) -> bool {
    match at {
        Some(p) => occurs_at(hay, needle, p) && forall|q: int|
            0 <= q < p ==> !occurs_at(hay, needle, q),
        None => !contains_seq(hay, needle),
    }
}

/// The first place at which one sequence stands in another.
pub open spec fn first_at<T>(hay: Seq<T>, needle: Seq<T>) -> Option<int> {
    if contains_seq(hay, needle) {
        Some(choose|at: int| is_first_at(hay, needle, Some(at)))
    } else {
        None
    }
}

/// Only one place is the first.
pub proof fn lemma_first_at<T>(hay: Seq<T>, needle: Seq<T>, at: Option<int>)
    requires
        is_first_at(hay, needle, at),
    ensures
        first_at(hay, needle) == at,
{
    if let Some(p) = at {
        assert(contains_seq(hay, needle));
        let q = choose|q: int| is_first_at(hay, needle, Some(q));
        assert(is_first_at(hay, needle, Some(p)));
        if q < p {
            assert(occurs_at(hay, needle, q));
        }
    }
}

/// Whether some characters stand among others at a place.
fn chars_match(hay: &Vec<char>, needle: &Vec<char>, at: usize) -> (r: bool)
    requires
        at + needle@.len() <= hay@.len(),
    ensures
        r == occurs_at(hay@, needle@, at as int),
{
    let total: usize = hay.len();
    let size: usize = needle.len();
    let mut n: usize = 0;
    while n < size
        invariant
            total == hay@.len(),
            size == needle@.len(),
            at + size <= total,
            n <= size,
            forall|k: int| 0 <= k < n ==> hay@[at + k] == needle@[k],
        decreases size - n,
    {
        if hay[at + n] != needle[n] {
            assert(!occurs_at(hay@, needle@, at as int)) by {
                if occurs_at(hay@, needle@, at as int) {
                    assert(hay@.subrange(at as int, at + needle@.len())[n as int]
                        == needle@[n as int]);
                }
            }
            return false;
        }
        n += 1;
    }
    assert(hay@.subrange(at as int, at + needle@.len()) =~= needle@);
    true
}

/// Where some characters first stand among others.
pub fn find_chars(hay: &Vec<char>, needle: &Vec<char>) -> (r: Option<usize>)
    ensures
        match r {
            Some(at) => first_at(hay@, needle@) == Some(at as int) && at + needle@.len()
                <= hay@.len(),
            None => first_at(hay@, needle@) is None,
        },
{
    if needle.len() > hay.len() {
        return None;
    }
    let places: usize = hay.len() - needle.len();
    let mut at: usize = 0;
    loop
        invariant
            at <= places,
            places == hay@.len() - needle@.len(),
            forall|q: int| 0 <= q < at ==> !occurs_at(hay@, needle@, q),
        decreases places - at,
    {
        if chars_match(hay, needle, at) {
            proof {
                lemma_first_at(hay@, needle@, Some(at as int));
            }
            return Some(at);
        }
        if at == places {
            return None;
        }
        at += 1;
    }
}

/// Whether some bytes stand among others at a place.
fn bytes_match(hay: &[u8], needle: &[u8], at: usize) -> (r: bool)
    requires
        at + needle@.len() <= hay@.len(),
    ensures
        r == occurs_at(hay@, needle@, at as int),
{
    let total: usize = hay.len();
    let size: usize = needle.len();
    let mut n: usize = 0;
    while n < size
        invariant
            total == hay@.len(),
            size == needle@.len(),
            at + size <= total,
            n <= size,
            forall|k: int| 0 <= k < n ==> hay@[at + k] == needle@[k],
        decreases size - n,
    {
        if hay[at + n] != needle[n] {
            assert(!occurs_at(hay@, needle@, at as int)) by {
                if occurs_at(hay@, needle@, at as int) {
                    assert(hay@.subrange(at as int, at + needle@.len())[n as int]
                        == needle@[n as int]);
                }
            }
            return false;
        }
        n += 1;
    }
    assert(hay@.subrange(at as int, at + needle@.len()) =~= needle@);
    true
}

/// Where some bytes first stand among others.
pub fn find_bytes(hay: &[u8], needle: &[u8]) -> (r: Option<usize>)
    ensures
        match r {
            Some(at) => first_at(hay@, needle@) == Some(at as int) && at + needle@.len()
                <= hay@.len(),
            None => first_at(hay@, needle@) is None,
        },
{
    if needle.len() > hay.len() {
        return None;
    }
    let places: usize = hay.len() - needle.len();
    let mut at: usize = 0;
    loop
        invariant
            at <= places,
            places == hay@.len() - needle@.len(),
            forall|q: int| 0 <= q < at ==> !occurs_at(hay@, needle@, q),
        decreases places - at,
    {
        if bytes_match(hay, needle, at) {
            proof {
                lemma_first_at(hay@, needle@, Some(at as int));
            }
            return Some(at);
        }
        if at == places {
            return None;
        }
        at += 1;
    }
}

/// Whether one text stands somewhere in another.
pub fn contains_text(hay: &str, needle: &str) -> (r: bool)
    ensures
        r == contains_seq(hay@, needle@),
{
    match find_chars(&chars_of(hay), &chars_of(needle)) {
        Some(_) => true,
        None => false,
    }
}

/// Whether a text begins with another.
pub open spec fn begins_with(s: Seq<char>, prefix: Seq<char>) -> bool {
    occurs_at(s, prefix, 0)
}

/// Whether a text begins with another.
pub fn starts_with(s: &str, prefix: &str) -> (r: bool)
    ensures
        r == begins_with(s@, prefix@),
{
    let whole = chars_of(s);
    let part = chars_of(prefix);
    part.len() <= whole.len() && chars_match(&whole, &part, 0)
}

/// White space, as Unicode's `White_Space` property has it.
pub open spec fn is_white(c: char) -> bool {
    ||| '\u{9}' <= c <= '\u{d}'
    ||| c == '\u{20}'
    ||| c == '\u{85}'
    ||| c == '\u{a0}'
    ||| c == '\u{1680}'
    ||| '\u{2000}' <= c <= '\u{200a}'
    ||| c == '\u{2028}'
    ||| c == '\u{2029}'
    ||| c == '\u{202f}'
    ||| c == '\u{205f}'
    ||| c == '\u{3000}'
}

/// Whether a character is white space.
pub fn is_white_space(c: char) -> (r: bool)
    ensures
        r == is_white(c),
{
    ('\u{9}' <= c && c <= '\u{d}') || c == '\u{20}' || c == '\u{85}' || c == '\u{a0}' || c
        == '\u{1680}' || ('\u{2000}' <= c && c <= '\u{200a}') || c == '\u{2028}' || c == '\u{2029}'
        || c == '\u{202f}' || c == '\u{205f}' || c == '\u{3000}'
}

/// A text without the white space at its end.
pub open spec fn trimmed_end(s: Seq<char>) -> Seq<char>
    decreases s.len(),
{
    if s.len() > 0 && is_white(s.last()) {
        trimmed_end(s.drop_last())
    } else {
        s
    }
}

/// A text without the white space at its start.
pub open spec fn trimmed_start(s: Seq<char>) -> Seq<char>
    decreases s.len(),
{
    if s.len() > 0 && is_white(s[0]) {
        trimmed_start(s.drop_first())
    } else {
        s
    }
}

/// A text without the white space at either end.
pub open spec fn trimmed(s: Seq<char>) -> Seq<char> {
    trimmed_start(trimmed_end(s))
}

/// How many of the first `to` characters are left without the white space at their end.
fn end_of(chars: &Vec<char>, to: usize) -> (r: usize)
    requires
        to <= chars@.len(),
    ensures
        r <= to,
        chars@.take(r as int) == trimmed_end(chars@.take(to as int)),
{
    let mut n: usize = to;
    while n > 0 && is_white_space(chars[n - 1])
        invariant
            n <= to <= chars@.len(),
            trimmed_end(chars@.take(n as int)) == trimmed_end(chars@.take(to as int)),
        decreases n,
    {
        assert(chars@.take(n as int).last() == chars@[n - 1]);
        assert(chars@.take(n as int).drop_last() =~= chars@.take(n - 1));
        n -= 1;
    }
    if n > 0 {
        assert(chars@.take(n as int).last() == chars@[n - 1]);
    }
    n
}

/// A text without the white space at its end.
pub fn trim_end(s: &str) -> (r: String)
    ensures
        r@ == trimmed_end(s@),
{
    let chars = chars_of(s);
    let n: usize = end_of(&chars, chars.len());
    assert(chars@.take(chars@.len() as int) =~= chars@);
    text_of(&chars, 0, n)
}

/// A text without the white space at either end.
pub fn trim(s: &str) -> (r: String)
    ensures
        r@ == trimmed(s@),
{
    let chars = chars_of(s);
    let n: usize = end_of(&chars, chars.len());
    assert(chars@.take(chars@.len() as int) =~= chars@);
    let mut i: usize = 0;
    assert(chars@.subrange(0, n as int) =~= trimmed_end(s@));
    while i < n && is_white_space(chars[i])
        invariant
            i <= n <= chars@.len(),
            trimmed_start(chars@.subrange(i as int, n as int)) == trimmed(s@),
        decreases n - i,
    {
        assert(chars@.subrange(i as int, n as int)[0] == chars@[i as int]);
        assert(chars@.subrange(i as int, n as int).drop_first() =~= chars@.subrange(
            i + 1,
            n as int,
        ));
        i += 1;
    }
    if i < n {
        assert(chars@.subrange(i as int, n as int)[0] == chars@[i as int]);
    }
    text_of(&chars, i, n)
}

/// Texts with a separator between each two.
pub open spec fn joined(parts: Seq<Seq<char>>, sep: Seq<char>) -> Seq<char>
    decreases parts.len(),
{
    if parts.len() == 0 {
        Seq::empty()
    } else if parts.len() == 1 {
        parts[0]
    } else {
        joined(parts.drop_last(), sep) + sep + parts.last()
    }
}

/// What the texts of a list say.
pub open spec fn views(items: Seq<String>) -> Seq<Seq<char>> {
    Seq::new(items.len(), |i: int| items[i]@)
}

/// Texts with a separator between each two.
pub fn join(parts: &[String], sep: &str) -> (r: String)
    ensures
        r@ == joined(views(parts@), sep@),
{
    let mut out = String::new();
    let ghost all = views(parts@);
    for i in 0..parts.len()
        invariant
            all == views(parts@),
            out@ == joined(all.take(i as int), sep@),
    {
        assert(all.take(i + 1).drop_last() =~= all.take(i as int));
        if i > 0 {
            out.append(sep);
        }
        out.append(parts[i].as_str());
        assert(out@ =~= joined(all.take(i + 1), sep@));
    }
    assert(all.take(all.len() as int) =~= all);
    out
}

/// The pieces of a text between the places where a character stands.
pub open spec fn pieces(s: Seq<char>, at: char) -> Seq<Seq<char>>
    decreases s.len(),
{
    if s.len() == 0 {
        seq![Seq::empty()]
    } else {
        let before = pieces(s.drop_last(), at);
        if s.last() == at {
            before.push(Seq::empty())
        } else {
            before.drop_last().push(before.last().push(s.last()))
        }
    }
}

/// There is always a piece.
pub proof fn lemma_pieces_some(s: Seq<char>, at: char)
    ensures
        pieces(s, at).len() > 0,
    decreases s.len(),
{
    if s.len() > 0 {
        lemma_pieces_some(s.drop_last(), at);
    }
}

/// The pieces of a text between the places where a character stands.
pub fn split(s: &str, at: char) -> (r: Vec<String>)
    ensures
        views(r@) == pieces(s@, at),
{
    let chars = chars_of(s);
    let mut done: Vec<String> = Vec::new();
    let mut open = String::new();
    assert(chars@.take(0) =~= Seq::<char>::empty());
    assert(views(done@).push(open@) =~= pieces(chars@.take(0), at));
    for i in 0..chars.len()
        invariant
            views(done@).push(open@) == pieces(chars@.take(i as int), at),
    {
        let ghost before = pieces(chars@.take(i as int), at);
        let ghost done_before = done@;
        assert(before.last() == open@ && before.drop_last() =~= views(done@));
        assert(chars@.take(i + 1).drop_last() =~= chars@.take(i as int));
        if chars[i] == at {
            done.push(open);
            open = String::new();
            assert(views(done@) =~= before);
            assert(views(done@).push(open@) =~= pieces(chars@.take(i + 1), at));
        } else {
            open.push(chars[i]);
            assert(views(done@).push(open@) =~= pieces(chars@.take(i + 1), at));
        }
    }
    assert(chars@.take(chars@.len() as int) =~= chars@);
    let ghost done_last = done@;
    done.push(open);
    assert(views(done@) =~= pieces(s@, at));
    done
}

/// A text with one character in place of another.
pub open spec fn replaced(s: Seq<char>, from: char, to: char) -> Seq<char> {
    s.map_values(
        |c: char|
            if c == from {
                to
            } else {
                c
            },
    )
}

/// A text with one character in place of another.
pub fn replace_char(s: &str, from: char, to: char) -> (r: String)
    ensures
        r@ == replaced(s@, from, to),
{
    let chars = chars_of(s);
    let mut out = String::new();
    for i in 0..chars.len()
        invariant
            chars@ == s@,
            out@ == replaced(s@, from, to).take(i as int),
    {
        if chars[i] == from {
            out.push(to);
        } else {
            out.push(chars[i]);
        }
        assert(out@ =~= replaced(s@, from, to).take(i + 1));
    }
    assert(out@ =~= replaced(s@, from, to));
    out
}

/// The number of bytes of a text.
pub open spec fn byte_len(s: Seq<char>) -> nat {
    encode_utf8(s).len()
}

/// Whether a text can be cut after so many bytes: it ends before that, or a character starts there.
pub open spec fn cuts_clean(s: Seq<char>, max: nat) -> bool {
    byte_len(s) <= max || is_char_boundary(encode_utf8(s), max as int)
}

/// The part of a text that its first bytes hold.
pub open spec fn head(s: Seq<char>, max: nat) -> Seq<char> {
    decode_utf8(encode_utf8(s).subrange(0, max as int))
}

/// The number of bytes of a text.
pub fn size_of(s: &str) -> (r: usize)
    ensures
        r == byte_len(s@),
{
    s.as_bytes().len()
}

/// Whether a text can be cut after so many bytes.
pub fn can_cut(s: &str, max: usize) -> (r: bool)
    ensures
        r == cuts_clean(s@, max as nat),
{
    size_of(s) <= max || s.is_char_boundary(max)
}

/// The part of a text that its first bytes hold.
pub fn head_of(s: &str, max: usize) -> (r: &str)
    requires
        is_char_boundary(encode_utf8(s@), max as int),
    ensures
        r@ == head(s@, max as nat),
{
    let r = s.split_at(max).0;
    proof {
        encode_utf8_decode_utf8(r@);
    }
    r
}

/// The part of a text behind its first bytes.
pub open spec fn tail(s: Seq<char>, from: nat) -> Seq<char> {
    decode_utf8(encode_utf8(s).subrange(from as int, encode_utf8(s).len() as int))
}

/// The part of a text behind its first bytes.
pub fn tail_of(s: &str, from: usize) -> (r: &str)
    requires
        is_char_boundary(encode_utf8(s@), from as int),
    ensures
        r@ == tail(s@, from as nat),
{
    let r = s.split_at(from).1;
    proof {
        encode_utf8_decode_utf8(r@);
    }
    r
}

/// A text that is cut after so many bytes, with dots in place of the rest.
pub open spec fn shortened(s: Seq<char>, max: nat) -> Seq<char> {
    if byte_len(s) <= max {
        s
    } else {
        head(s, max) + "..."@
    }
}

/// A text that is cut after so many bytes, with dots in place of the rest.
pub fn shorten(s: &str, max: usize) -> (r: String)
    requires
        cuts_clean(s@, max as nat),
    ensures
        r@ == shortened(s@, max as nat),
{
    if size_of(s) <= max {
        s.to_string()
    } else {
        let mut out = head_of(s, max).to_string();
        out.append("...");
        out
    }
}

/// The last place up to so many bytes at which a character ends.
pub open spec fn last_cut(s: Seq<char>, max: nat) -> nat
    decreases max,
{
    if max == 0 || is_char_boundary(encode_utf8(s), max as int) {
        max
    } else {
        last_cut(s, (max - 1) as nat)
    }
}

/// A text of which no more than so many bytes are kept, with dots in place of the rest. Where the
/// last of them lie inside a character, that character goes too.
pub open spec fn clipped(s: Seq<char>, max: nat) -> Seq<char> {
    if byte_len(s) <= max {
        s
    } else {
        head(s, last_cut(s, max)) + "..."@
    }
}

/// A text of which no more than so many bytes are kept, with dots in place of the rest.
pub fn clip(s: &str, max: usize) -> (r: String)
    ensures
        r@ == clipped(s@, max as nat),
{
    if size_of(s) <= max {
        return s.to_string();
    }
    let mut n: usize = max;
    proof {
        encode_utf8_valid_utf8(s@);
    }
    while n > 0 && !s.is_char_boundary(n)
        invariant
            last_cut(s@, max as nat) == last_cut(s@, n as nat),
        decreases n,
    {
        n -= 1;
    }
    let mut out = head_of(s, n).to_string();
    out.append("...");
    out
}

/// Where a text can be cut after just so many bytes, nothing more is lost.
pub proof fn law_clean_cuts_lose_no_more(s: Seq<char>, max: nat)
    requires
        cuts_clean(s, max),
    ensures
        clipped(s, max) == shortened(s, max),
{
}

/// Cutting a text at a character gives its beginning, of exactly as many bytes as asked for.
pub proof fn law_head_is_prefix(s: Seq<char>, max: nat)
    requires
        is_char_boundary(encode_utf8(s), max as int),
        max <= byte_len(s),
    ensures
        head(s, max).len() <= s.len(),
        head(s, max) == s.take(head(s, max).len() as int),
        byte_len(head(s, max)) == max,
        head(s, max) + tail(s, max) == s,
{
    let bytes = encode_utf8(s);
    encode_utf8_valid_utf8(s);
    encode_utf8_decode_utf8(s);
    valid_utf8_split(bytes, max as int);
    decode_utf8_split(bytes, max as int);
    decode_utf8_encode_utf8(bytes.subrange(0, max as int));
    assert(s =~= head(s, max) + tail(s, max));
    assert(head(s, max) =~= s.take(head(s, max).len() as int));
}

/// Between two texts that are joined a character ends.
pub(crate) proof fn lemma_joint_is_boundary(a: Seq<char>, b: Seq<char>)
    ensures
        is_char_boundary(encode_utf8(a + b), byte_len(a) as int),
        byte_len(a) <= byte_len(a + b),
    decreases a.len(),
{
    let whole = a + b;
    let bytes = encode_utf8(whole);
    encode_utf8_valid_utf8(whole);
    if a.len() > 0 {
        encode_utf8_first_scalar(whole);
        let rest = a.drop_first();
        assert(whole.drop_first() =~= rest + b);
        assert(pop_first_scalar(bytes) =~= encode_utf8(rest + b));
        lemma_joint_is_boundary(rest, b);
    }
}

/// A text that was cut can be cut again at the same place.
pub proof fn law_cut_text_can_be_cut_again(s: Seq<char>, max: nat)
    requires
        cuts_clean(s, max),
    ensures
        cuts_clean(shortened(s, max), max),
{
    if byte_len(s) > max {
        law_head_is_prefix(s, max);
        lemma_joint_is_boundary(head(s, max), "..."@);
    }
}

/// Whether a text is made of digits, at least one.
pub open spec fn is_numeral(s: Seq<char>) -> bool {
    s.len() > 0 && forall|i: int| 0 <= i < s.len() ==> '0' <= #[trigger] s[i] <= '9'
}

/// The number that digits stand for.
pub open spec fn numeral_value(s: Seq<char>) -> nat
    decreases s.len(),
{
    if s.len() == 0 {
        0
    } else {
        numeral_value(s.drop_last()) * 10 + ((s.last() as nat) - ('0' as nat)) as nat
    }
}

/// The number that a text stands for, where it is digits behind at most one plus sign and the
/// number fits in 64 bits.
pub open spec fn unsigned_of(s: Seq<char>) -> Option<u64> {
    let body = if s.len() > 0 && s[0] == '+' {
        s.drop_first()
    } else {
        s
    };
    if is_numeral(body) && numeral_value(body) <= u64::MAX {
        Some(numeral_value(body) as u64)
    } else {
        None
    }
}

/// More digits never make a number smaller.
proof fn lemma_numeral_grows(s: Seq<char>, n: int)
    requires
        0 <= n <= s.len(),
    ensures
        numeral_value(s.take(n)) <= numeral_value(s),
    decreases s.len() - n,
{
    if n < s.len() {
        assert(s.take(n + 1).drop_last() =~= s.take(n));
        lemma_numeral_grows(s, n + 1);
    } else {
        assert(s.take(n) =~= s);
    }
}

/// The number that a text stands for.
pub fn parse_unsigned(s: &str) -> (r: Option<u64>)
    ensures
        r == unsigned_of(s@),
{
    let chars = chars_of(s);
    let start: usize = if chars.len() > 0 && chars[0] == '+' {
        1
    } else {
        0
    };
    let ghost body = s@.subrange(start as int, s@.len() as int);
    assert(body =~= (if s@.len() > 0 && s@[0] == '+' {
        s@.drop_first()
    } else {
        s@
    }));
    if start == chars.len() {
        return None;
    }
    let mut value: u64 = 0;
    for i in start..chars.len()
        invariant
            chars@ == s@,
            start <= chars@.len(),
            body == s@.subrange(start as int, s@.len() as int),
            body == (if s@.len() > 0 && s@[0] == '+' {
                s@.drop_first()
            } else {
                s@
            }),
            forall|k: int| 0 <= k < i - start ==> '0' <= #[trigger] body[k] <= '9',
            value == numeral_value(body.take(i - start)),
    {
        let c = chars[i];
        assert(body[i - start] == c);
        if c < '0' || '9' < c {
            return None;
        }
        assert(body.take(i - start + 1).drop_last() =~= body.take(i - start));
        let d: u64 = (c as u64) - 48;
        proof {
            lemma_numeral_grows(body, i - start + 1);
        }
        if value > (u64::MAX - d) / 10 {
            return None;
        }
        value = value * 10 + d;
    }
    assert(body.take(body.len() as int) =~= body);
    Some(value)
}

/// A number written in decimal is read back as itself.
pub proof fn law_decimal_reads_back(n: nat)
    ensures
        is_numeral(decimal(n)),
        numeral_value(decimal(n)) == n,
    decreases n,
{
    reveal_with_fuel(numeral_value, 2);
    if n >= 10 {
        law_decimal_reads_back(n / 10);
        assert(decimal(n).drop_last() =~= decimal(n / 10));
    } else {
        assert(decimal(n).drop_last() =~= Seq::<char>::empty());
    }
}

/// Two numbers never have the same numeral.
pub proof fn law_decimal_tells_apart(m: nat, n: nat)
    requires
        decimal(m) == decimal(n),
    ensures
        m == n,
{
    law_decimal_reads_back(m);
    law_decimal_reads_back(n);
}

}
