//! Ids for new tasks, and the time of day.

use vstd::prelude::*;
use vstd::string::*;

use crate::text::{lemma_pieces_some, pieces, split, views};

verus! {

/// Whether a character is a digit.
pub open spec fn is_digit(c: char) -> bool {
    '0' <= c <= '9'
}

/// Whether a text can be a day and a time: digits, with a hyphen between the two and perhaps a sign
/// in front.
pub open spec fn is_stamp(s: Seq<char>) -> bool {
    &&& s.len() >= 15
    &&& s[s.len() - 7] == '-'
    &&& forall|i: int|
        0 <= i < s.len() ==> is_digit(#[trigger] s[i]) || s[i] == '-' || s[i] == '+'
}

/// Whether a text can be a day, a time and the distance from universal time: digits and signs, with
/// a `T` between day and time and a sign six characters before the end.
pub open spec fn is_time(s: Seq<char>) -> bool {
    &&& s.len() >= 25
    &&& s.contains('T')
    &&& s[s.len() - 6] == '+' || s[s.len() - 6] == '-'
    &&& s[s.len() - 3] == ':'
    &&& forall|i: int|
        0 <= i < s.len() ==> is_digit(#[trigger] s[i]) || s[i] == '-' || s[i] == '+' || s[i] == ':'
            || s[i] == '.' || s[i] == 'T'
}

/// Whether a text is a random id: groups of lower case hexadecimal digits with hyphens between
/// them, the first group of eight.
pub open spec fn is_random_id(s: Seq<char>) -> bool {
    &&& s.len() == 36
    &&& forall|i: int|
        0 <= i < 36 ==> if i == 8 || i == 13 || i == 18 || i == 23 {
            #[trigger] s[i] == '-'
        } else {
            is_digit(s[i]) || 'a' <= s[i] <= 'f'
        }
}

/// `chrono::Local::now`, printed by `DateTime::format` as year, month and day, a hyphen, and hour,
/// minute and second. Each part is padded with zeros; a year of more than four digits has a sign.
/// Which day and time it is depends on the clock and the zone, and nothing is claimed of it;
/// `Local::now` itself panics where the clock stands before 1970, and where the data of the zone
/// give the time no offset.
#[verifier::external_body]
fn local_stamp() -> (r: String)
    ensures
        is_stamp(r@),
{
    chrono::Local::now().format("%Y%m%d-%H%M%S").to_string()
}

/// `chrono::Local::now`, printed by `DateTime::to_rfc3339`: the day, a `T`, the time to the second
/// or to a part of it, and the distance from universal time in hours and minutes. Which time it is
/// depends on the clock and the zone, and nothing is claimed of it; `Local::now` itself panics where
/// the clock stands before 1970, and where the data of the zone give the time no offset.
#[verifier::external_body]
pub(crate) fn local_time() -> (r: String)
    ensures
        is_time(r@),
{
    chrono::Local::now().to_rfc3339()
}

/// `uuid::Uuid::new_v4`, printed as `Uuid` prints: 36 characters, hyphens at the four places and
/// lower case hexadecimal digits elsewhere. Which digits is up to chance, and nothing is claimed of
/// it; `new_v4` itself panics where the system gives no random bytes.
#[verifier::external_body]
fn random_id() -> (r: String)
    ensures
        is_random_id(r@),
{
    uuid::Uuid::new_v4().to_string()
}

/// The id of a task that began at that time: the time, and the first group of a random id.
pub open spec fn id_from(stamp: Seq<char>, random: Seq<char>) -> Seq<char> {
    stamp + "-"@ + pieces(random, '-')[0]
}

/// The id of a task that began at that time.
pub fn task_id_from(stamp: &str, random: &str) -> (r: String)
    ensures
        r@ == id_from(stamp@, random@),
{
    let groups = split(random, '-');
    proof {
        lemma_pieces_some(random@, '-');
        assert(views(groups@)[0] == groups@[0]@);
    }
    let mut out = stamp.to_string();
    out.append("-");
    out.append(groups[0].as_str());
    out
}

/// Whether a text is the id of some task that began at some time.
pub open spec fn is_new_id(id: Seq<char>) -> bool {
    exists|stamp: Seq<char>, random: Seq<char>|
        is_stamp(stamp) && is_random_id(random) && id == #[trigger] id_from(stamp, random)
}

/// An id for a new task.
pub fn new_task_id() -> (r: String)
    ensures
        is_new_id(r@),
{
    let stamp = local_stamp();
    let random = random_id();
    task_id_from(stamp.as_str(), random.as_str())
}

/// The first piece of a text ends where the character first stands.
proof fn lemma_first_piece(s: Seq<char>, at: char, n: int)
    requires
        0 <= n <= s.len(),
        n < s.len() ==> s[n] == at,
        forall|k: int| 0 <= k < n ==> s[k] != at,
    ensures
        n == s.len() ==> pieces(s, at) == seq![s],
        n < s.len() ==> pieces(s, at).len() >= 2,
        pieces(s, at)[0] == s.take(n),
    decreases s.len(),
{
    if s.len() == 0 {
        assert(s =~= Seq::empty());
        assert(s.take(n) =~= s);
    } else {
        let fewer = s.drop_last();
        let m = if n == s.len() {
            n - 1
        } else {
            n
        };
        assert forall|k: int| 0 <= k < m implies fewer[k] != at by {
            assert(fewer[k] == s[k]);
        }
        if m < fewer.len() {
            assert(fewer[m] == s[m]);
        }
        lemma_first_piece(fewer, at, m);
        assert(fewer.take(m) =~= s.take(m));
        if n == s.len() {
            assert(s =~= fewer.push(s.last()));
            assert(pieces(s, at) =~= seq![s]);
            assert(s.take(n) =~= s);
        }
    }
}

/// A new id has the time in front and eight hexadecimal digits behind a hyphen, and is a plain name
/// for a file.
pub proof fn law_new_ids_are_plain_names(id: Seq<char>)
    requires
        is_new_id(id),
    ensures
        id.len() >= 24,
        is_stamp(id.take(id.len() - 9)),
        id[id.len() - 9] == '-',
        forall|i: int|
            id.len() - 8 <= i < id.len() ==> is_digit(#[trigger] id[i]) || 'a' <= id[i] <= 'f',
        forall|i: int| 0 <= i < id.len() ==> #[trigger] id[i] != '/' && id[i] != '.',
{
    let (stamp, random) = choose|stamp: Seq<char>, random: Seq<char>|
        is_stamp(stamp) && is_random_id(random) && id == #[trigger] id_from(stamp, random);
    reveal_strlit("-");
    assert forall|k: int| 0 <= k < 8 implies random[k] != '-' by {
        assert(is_digit(random[k]) || 'a' <= random[k] <= 'f');
    }
    lemma_first_piece(random, '-', 8);
    let group = random.take(8);
    assert(id.take(id.len() - 9) =~= stamp);
    assert forall|i: int| id.len() - 8 <= i < id.len() implies is_digit(#[trigger] id[i]) || 'a'
        <= id[i] <= 'f' by {
        assert(id[i] == random[i - (id.len() - 8)]);
    }
    assert forall|i: int| 0 <= i < id.len() implies #[trigger] id[i] != '/' && id[i] != '.' by {
        if i < stamp.len() {
            assert(id[i] == stamp[i]);
        }
    }
}

}
