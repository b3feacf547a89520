//! JSON values as the rules of the agent read and write them.
//!
//! [`Json`] holds a value as plain data. Text becomes a value and a value becomes text through
//! `serde_json`; what that crate prints or reads is named here, not restated.

use vstd::prelude::*;

use crate::order::{enter, is_ascending, law_ascending_is_unique};
use crate::text::{decimal, same_text, signed_decimal, views};

verus! {

/// What a JSON value says. A number is its printed text; an object is a map, so neither the order
/// of the members nor a member that was replaced shows.
#[verifier::ext_equal]
pub enum JsonView {
    Null,
    Bool(bool),
    Number(Seq<char>),
    Text(Seq<char>),
    Array(Seq<JsonView>),
    Object(Map<Seq<char>, JsonView>),
}

impl JsonView {
    /// The object without members.
    pub open spec fn empty() -> JsonView {
        JsonView::Object(Map::empty())
    }

    /// The object with one more member; a member of the same name is replaced. Anything but an
    /// object stays as it is.
    pub open spec fn with(self, key: Seq<char>, value: JsonView) -> JsonView {
        match self {
            JsonView::Object(members) => JsonView::Object(members.insert(key, value)),
            other => other,
        }
    }

    /// The member of that name, where the value is an object that has it.
    pub open spec fn get(self, key: Seq<char>) -> Option<JsonView> {
        match self {
            JsonView::Object(members) => if members.contains_key(key) {
                Some(members[key])
            } else {
                None
            },
            _ => None,
        }
    }

    /// The text, where the value is one.
    pub open spec fn as_text(self) -> Option<Seq<char>> {
        match self {
            JsonView::Text(s) => Some(s),
            _ => None,
        }
    }

    /// The truth value, where the value is one.
    pub open spec fn as_flag(self) -> Option<bool> {
        match self {
            JsonView::Bool(b) => Some(b),
            _ => None,
        }
    }

    /// The elements, where the value is an array.
    pub open spec fn as_items(self) -> Option<Seq<JsonView>> {
        match self {
            JsonView::Array(items) => Some(items),
            _ => None,
        }
    }

    /// The member of that name, where there is one and it is a text.
    pub open spec fn text_at(self, key: Seq<char>) -> Option<Seq<char>> {
        match self.get(key) {
            Some(v) => v.as_text(),
            None => None,
        }
    }

    /// The member of that name, where there is one and it is a truth value.
    pub open spec fn flag_at(self, key: Seq<char>) -> Option<bool> {
        match self.get(key) {
            Some(v) => v.as_flag(),
            None => None,
        }
    }

    /// Whether a list holds the names of the members in alphabetical order, and no others.
    pub open spec fn lists_names(self, names: Seq<Seq<char>>) -> bool {
        &&& is_ascending(names)
        &&& forall|key: Seq<char>| #[trigger] names.contains(key) <==> self.get(key) is Some
    }

    /// The names of the members in alphabetical order; anything but an object has none.
    pub open spec fn names(self) -> Seq<Seq<char>> {
        choose|names: Seq<Seq<char>>| self.lists_names(names)
    }
}

/// A JSON value.
///
/// The members of an object stand in the order in which they were added; where a name occurs
/// twice, the later member counts.
#[derive(Debug)]
pub enum Json {
    Null,
    Bool(bool),
    Number(serde_json::Number),
    Text(String),
    Array(Vec<Json>),
    Object(Vec<(String, Json)>),
}

impl Json {
    /// What the value says.
    pub open spec fn model(&self) -> JsonView
        decreases self,
    {
        match self {
            Json::Null => JsonView::Null,
            Json::Bool(b) => JsonView::Bool(*b),
            Json::Number(n) => JsonView::Number(number_text(*n)),
            Json::Text(s) => JsonView::Text(s@),
            Json::Array(items) => JsonView::Array(
                Seq::new(
                    items@.len(),
                    |i: int|
                        if 0 <= i < items@.len() {
                            items@[i].model()
                        } else {
                            JsonView::Null
                        },
                ),
            ),
            Json::Object(members) => JsonView::Object(members_model(members@)),
        }
    }
}

/// The map that members give when they are entered one after the other.
pub open spec fn members_model(members: Seq<(String, Json)>) -> Map<Seq<char>, JsonView>
    decreases members,
{
    if members.len() == 0 {
        Map::empty()
    } else {
        members_model(members.drop_last()).insert(members.last().0@, members.last().1.model())
    }
}

impl View for Json {
    type V = JsonView;

    open spec fn view(&self) -> JsonView {
        self.model()
    }
}

/// `serde_json`'s number, carried along unopened.
#[verifier::external_type_specification]
#[verifier::external_body]
pub struct ExNumber(serde_json::Number);

/// `serde_json`'s tree of values.
#[verifier::external_type_specification]
#[verifier::external_body]
pub struct ExValue(serde_json::Value);

/// The text that `serde_json` prints for a number.
pub uninterp spec fn number_text(n: serde_json::Number) -> Seq<char>;

/// What a tree of `serde_json` holds.
pub uninterp spec fn value_model(v: serde_json::Value) -> JsonView;

/// What `serde_json` reads from a text: the value, or the words of its complaint.
pub uninterp spec fn parsed(text: Seq<char>) -> Result<JsonView, Seq<char>>;

/// What `serde_json` reads from bytes, if they hold a value.
pub uninterp spec fn parsed_bytes(bytes: Seq<u8>) -> Option<JsonView>;

/// The text that `serde_json` prints for a value on one line.
pub uninterp spec fn compact(v: JsonView) -> Seq<char>;

/// The text that `serde_json` prints for a value with line breaks and indentation.
pub uninterp spec fn pretty(v: JsonView) -> Seq<char>;

/// Whether the numbers of a value are all whole and of a machine's size, and it is nested no deeper
/// than that.
pub open spec fn is_plain(v: JsonView, depth: nat) -> bool
    decreases depth,
{
    match v {
        JsonView::Null | JsonView::Bool(_) | JsonView::Text(_) => true,
        JsonView::Number(text) => {
            ||| exists|n: u64| text == #[trigger] decimal(n as nat)
            ||| exists|n: i64| text == #[trigger] signed_decimal(n as int)
        },
        JsonView::Array(items) => depth > 0 && forall|i: int|
            0 <= i < items.len() ==> is_plain(#[trigger] items[i], (depth - 1) as nat),
        JsonView::Object(members) => depth > 0 && forall|key: Seq<char>|
            members.contains_key(key) ==> is_plain(#[trigger] members[key], (depth - 1) as nat),
    }
}

/// Whether a value is read from a text again, where it is plain and not deeply nested.
pub open spec fn reads_back(text: Seq<char>, v: JsonView) -> bool {
    is_plain(v, 100) ==> parsed(text) == Ok::<JsonView, Seq<char>>(v)
}

/// One level of a tree of `serde_json`.
pub enum Shape {
    Null,
    Bool(bool),
    Number(serde_json::Number),
    Text(String),
    Array(Vec<serde_json::Value>),
    Object(Vec<(String, serde_json::Value)>),
}

/// What one level says, given what the trees below it hold.
pub open spec fn shape_model(shape: Shape) -> JsonView {
    match shape {
        Shape::Null => JsonView::Null,
        Shape::Bool(b) => JsonView::Bool(b),
        Shape::Number(n) => JsonView::Number(number_text(n)),
        Shape::Text(s) => JsonView::Text(s@),
        Shape::Array(items) => JsonView::Array(
            Seq::new(items@.len(), |i: int| value_model(items@[i])),
        ),
        Shape::Object(members) => JsonView::Object(entries_model(members@)),
    }
}

/// The map that entries give when they are entered one after the other.
pub open spec fn entries_model(entries: Seq<(String, serde_json::Value)>) -> Map<
    Seq<char>,
    JsonView,
>
    decreases entries.len(),
{
    if entries.len() == 0 {
        Map::empty()
    } else {
        entries_model(entries.drop_last()).insert(entries.last().0@, value_model(entries.last().1))
    }
}

/// No two entries share a name.
pub open spec fn distinct_names(entries: Seq<(String, serde_json::Value)>) -> bool {
    forall|i: int, j: int|
        0 <= i < j < entries.len() ==> (#[trigger] entries[i]).0@ != (#[trigger] entries[j]).0@
}

/// Entries without a repeated name all stand in the map that they give, which is finite.
proof fn lemma_entries_kept(entries: Seq<(String, serde_json::Value)>)
    requires
        distinct_names(entries),
    ensures
        entries_model(entries).dom().finite(),
        forall|i: int|
            0 <= i < entries.len() ==> entries_model(entries).contains_key(
                (#[trigger] entries[i]).0@,
            ) && entries_model(entries)[entries[i].0@] == value_model(entries[i].1),
    decreases entries.len(),
{
    if entries.len() > 0 {
        let shorter = entries.drop_last();
        lemma_entries_kept(shorter);
        assert forall|i: int| 0 <= i < entries.len() implies entries_model(entries).contains_key(
            (#[trigger] entries[i]).0@,
        ) && entries_model(entries)[entries[i].0@] == value_model(entries[i].1) by {
            if i < shorter.len() {
                assert(shorter[i] == entries[i]);
            }
        }
    }
}

/// `serde_json::Number::clone` hands back the same number.
pub assume_specification[ <serde_json::Number as Clone>::clone ](n: &serde_json::Number) -> (r:
    serde_json::Number)
    ensures
        r == *n,
;

/// The `Display` of `serde_json::Number`: the number's text.
#[verifier::external_body]
pub(crate) fn print_number(n: &serde_json::Number) -> (r: String)
    ensures
        r@ == number_text(*n),
{
    n.to_string()
}

/// `serde_json::Number::from::<u64>`: its text is the decimal numeral.
#[verifier::external_body]
fn number_from_u64(n: u64) -> (r: serde_json::Number)
    ensures
        number_text(r) == decimal(n as nat),
{
    serde_json::Number::from(n)
}

/// `serde_json::Number::from::<i64>`: its text is the decimal numeral, with a minus sign in front
/// where the number is negative.
#[verifier::external_body]
fn number_from_i64(n: i64) -> (r: serde_json::Number)
    ensures
        number_text(r) == signed_decimal(n as int),
{
    serde_json::Number::from(n)
}

/// The variants of `serde_json::Value`, taken apart: the tree holds what its top level says over
/// the trees below, and the map of an object holds no name twice.
#[verifier::external_body]
fn take_apart(v: serde_json::Value) -> (r: Shape)
    ensures
        shape_model(r) == value_model(v),
        r matches Shape::Object(members) ==> distinct_names(members@),
{
    match v {
        serde_json::Value::Null => Shape::Null,
        serde_json::Value::Bool(b) => Shape::Bool(b),
        serde_json::Value::Number(n) => Shape::Number(n),
        serde_json::Value::String(s) => Shape::Text(s),
        serde_json::Value::Array(items) => Shape::Array(items),
        serde_json::Value::Object(members) => Shape::Object(members.into_iter().collect()),
    }
}

/// The variants of `serde_json::Value`, put together. The map of an object takes its entries one
/// after the other, and an entry replaces an earlier one of the same name.
#[verifier::external_body]
fn put_together(shape: Shape) -> (r: serde_json::Value)
    ensures
        value_model(r) == shape_model(shape),
{
    match shape {
        Shape::Null => serde_json::Value::Null,
        Shape::Bool(b) => serde_json::Value::Bool(b),
        Shape::Number(n) => serde_json::Value::Number(n),
        Shape::Text(s) => serde_json::Value::String(s),
        Shape::Array(items) => serde_json::Value::Array(items),
        Shape::Object(members) => serde_json::Value::Object(members.into_iter().collect()),
    }
}

/// `serde_json::from_str` into a tree, with the error's `Display` as the complaint.
#[verifier::external_body]
fn parse_text(text: &str) -> (r: Result<serde_json::Value, String>)
    ensures
        match r {
            Ok(v) => parsed(text@) == Ok::<JsonView, Seq<char>>(value_model(v)),
            Err(e) => parsed(text@) == Err::<JsonView, Seq<char>>(e@),
        },
{
    match serde_json::from_str::<serde_json::Value>(text) {
        Ok(v) => Ok(v),
        Err(e) => Err(e.to_string()),
    }
}

/// `serde_json::from_slice` into a tree.
#[verifier::external_body]
fn parse_slice(bytes: &[u8]) -> (r: Option<serde_json::Value>)
    ensures
        match r {
            Some(v) => parsed_bytes(bytes@) == Some(value_model(v)),
            None => parsed_bytes(bytes@) is None,
        },
{
    serde_json::from_slice::<serde_json::Value>(bytes).ok()
}

/// The `Display` of `serde_json::Value`: the value on one line, as `serde_json::to_string` prints
/// it. Where the numbers are whole and of a machine's size and the value is not nested beyond what
/// the reader takes, `serde_json::from_str` reads the same value from it.
#[verifier::external_body]
fn print_value(v: &serde_json::Value) -> (r: String)
    ensures
        r@ == compact(value_model(*v)),
        reads_back(r@, value_model(*v)),
{
    v.to_string()
}

/// The alternate `Display` of `serde_json::Value`: the value over several lines, as
/// `serde_json::to_string_pretty` prints it. Where the numbers are whole and of a machine's size and
/// the value is not nested beyond what the reader takes, `serde_json::from_str` reads the same value
/// from it.
#[verifier::external_body]
fn print_value_pretty(v: &serde_json::Value) -> (r: String)
    ensures
        r@ == pretty(value_model(*v)),
        reads_back(r@, value_model(*v)),
{
    format!("{:#}", v)
}

/// The library's value for a tree of `serde_json`.
fn from_value(v: serde_json::Value) -> (r: Json)
    ensures
        r@ == value_model(v),
    decreases value_model(v),
{
    let ghost whole = value_model(v);
    match take_apart(v) {
        Shape::Null => Json::Null,
        Shape::Bool(b) => Json::Bool(b),
        Shape::Number(n) => Json::Number(n),
        Shape::Text(s) => Json::Text(s),
        Shape::Array(items) => {
            let mut out: Vec<Json> = Vec::new();
            let ghost all = items@;
            assert(whole is Array && whole->Array_0.len() == all.len());
            for item in it: items
                invariant
                    it.seq() == all,
                    whole is Array,
                    whole->Array_0.len() == all.len(),
                    whole == value_model(v),
                    forall|i: int| 0 <= i < all.len() ==> whole->Array_0[i] == value_model(all[i]),
                    out@.len() == it.index(),
                    forall|i: int| 0 <= i < out@.len() ==> (#[trigger] out@[i])@ == value_model(all[i]),
            {
                assert(whole->Array_0[it.index()] == value_model(item));
                assert(decreases_to!(whole => whole->Array_0[it.index()]));
                out.push(from_value(item));
            }
            let r = Json::Array(out);
            assert(r@->Array_0 =~= whole->Array_0);
            r
        },
        Shape::Object(members) => {
            let mut out: Vec<(String, Json)> = Vec::new();
            let ghost all = members@;
            proof {
                lemma_entries_kept(all);
            }
            for member in it: members
                invariant
                    it.seq() == all,
                    whole == value_model(v),
                    whole == JsonView::Object(entries_model(all)),
                    entries_model(all).dom().finite(),
                    forall|i: int|
                        0 <= i < all.len() ==> entries_model(all).contains_key(
                            (#[trigger] all[i]).0@,
                        ) && entries_model(all)[all[i].0@] == value_model(all[i].1),
                    out@.len() == it.index(),
                    members_model(out@) == entries_model(all.take(it.index())),
            {
                let ghost at = it.index();
                assert(member == all[at]);
                assert(decreases_to!(whole->Object_0 => whole->Object_0[member.0@]));
                let ghost before = out@;
                let (name, value) = member;
                let below = from_value(value);
                out.push((name, below));
                assert(out@.drop_last() =~= before);
                assert(all.take(at + 1).drop_last() =~= all.take(at));
            }
            assert(all.take(all.len() as int) =~= all);
            Json::Object(out)
        },
    }
}

/// An element of an array lies below the array.
proof fn lemma_element_below(j: Json, i: int)
    requires
        j is Array,
        0 <= i < j->Array_0@.len(),
    ensures
        decreases_to!(j => j->Array_0@[i]),
{
    assert(decreases_to!(j => j->Array_0));
    assert(decreases_to!(j->Array_0 => j->Array_0@));
    assert(decreases_to!(j->Array_0@ => j->Array_0@[i]));
}

/// The value of a member lies below the object.
proof fn lemma_member_below(j: Json, i: int)
    requires
        j is Object,
        0 <= i < j->Object_0@.len(),
    ensures
        decreases_to!(j => j->Object_0@[i].1),
{
    assert(decreases_to!(j => j->Object_0));
    assert(decreases_to!(j->Object_0 => j->Object_0@));
    assert(decreases_to!(j->Object_0@ => j->Object_0@[i]));
    assert(decreases_to!(j->Object_0@[i] => j->Object_0@[i].1));
}

/// The tree of `serde_json` for a value of the library.
fn to_value(j: &Json) -> (r: serde_json::Value)
    ensures
        value_model(r) == j@,
    decreases j,
{
    match j {
        Json::Null => put_together(Shape::Null),
        Json::Bool(b) => put_together(Shape::Bool(*b)),
        Json::Number(n) => put_together(Shape::Number(n.clone())),
        Json::Text(s) => put_together(Shape::Text(s.clone())),
        Json::Array(items) => {
            let mut out: Vec<serde_json::Value> = Vec::new();
            for i in 0..items.len()
                invariant
                    j == Json::Array(*items),
                    out@.len() == i,
                    forall|k: int| 0 <= k < i ==> value_model(#[trigger] out@[k]) == items@[k]@,
            {
                proof {
                    lemma_element_below(*j, i as int);
                }
                out.push(to_value(&items[i]));
            }
            let ghost shape = Shape::Array(out);
            assert(shape_model(shape)->Array_0 =~= j@->Array_0);
            put_together(Shape::Array(out))
        },
        Json::Object(members) => {
            let mut out: Vec<(String, serde_json::Value)> = Vec::new();
            for i in 0..members.len()
                invariant
                    j == Json::Object(*members),
                    out@.len() == i,
                    entries_model(out@) == members_model(members@.take(i as int)),
            {
                proof {
                    lemma_member_below(*j, i as int);
                }
                let ghost before = out@;
                let below = to_value(&members[i].1);
                out.push((members[i].0.clone(), below));
                assert(out@.drop_last() =~= before);
                assert(members@.take(i + 1).drop_last() =~= members@.take(i as int));
            }
            assert(members@.take(members@.len() as int) =~= members@);
            put_together(Shape::Object(out))
        },
    }
}

/// Reads a value from a text; where the text holds none, hands back the complaint.
pub fn parse(text: &str) -> (r: Result<Json, String>)
    ensures
        match r {
            Ok(j) => parsed(text@) == Ok::<JsonView, Seq<char>>(j@),
            Err(e) => parsed(text@) == Err::<JsonView, Seq<char>>(e@),
        },
{
    match parse_text(text) {
        Ok(v) => Ok(from_value(v)),
        Err(e) => Err(e),
    }
}

/// Reads a value from bytes.
pub fn parse_bytes(bytes: &[u8]) -> (r: Option<Json>)
    ensures
        match r {
            Some(j) => parsed_bytes(bytes@) == Some(j@),
            None => parsed_bytes(bytes@) is None,
        },
{
    match parse_slice(bytes) {
        Some(v) => Some(from_value(v)),
        None => None,
    }
}

/// The value on one line.
pub fn render(j: &Json) -> (r: String)
    ensures
        r@ == compact(j@),
        reads_back(r@, j@),
{
    print_value(&to_value(j))
}

/// The value over several lines.
pub fn render_pretty(j: &Json) -> (r: String)
    ensures
        r@ == pretty(j@),
        reads_back(r@, j@),
{
    print_value_pretty(&to_value(j))
}

impl Json {
    /// The object without members.
    pub fn object() -> (r: Json)
        ensures
            r@ == JsonView::empty(),
    {
        reveal_with_fuel(Json::model, 2);
        reveal_with_fuel(members_model, 2);
        Json::Object(Vec::new())
    }

    /// The object with one more member; anything but an object stays as it is.
    pub fn with(self, key: &str, value: Json) -> (r: Json)
        ensures
            r@ == self@.with(key@, value@),
    {
        match self {
            Json::Object(members) => {
                let mut members = members;
                let ghost before = members@;
                members.push((key.to_string(), value));
                assert(members@.drop_last() =~= before);
                reveal_with_fuel(Json::model, 2);
                reveal_with_fuel(members_model, 2);
                Json::Object(members)
            },
            other => other,
        }
    }

    /// The value of a text.
    pub fn text(s: &str) -> (r: Json)
        ensures
            r@ == JsonView::Text(s@),
    {
        Json::Text(s.to_string())
    }

    /// The value of a count.
    pub fn count(n: usize) -> (r: Json)
        ensures
            r@ == JsonView::Number(decimal(n as nat)),
    {
        Json::Number(number_from_u64(n as u64))
    }

    /// The value of a whole number.
    pub fn integer(n: i64) -> (r: Json)
        ensures
            r@ == JsonView::Number(signed_decimal(n as int)),
    {
        Json::Number(number_from_i64(n))
    }

    /// The value of a list of texts.
    pub fn texts(items: &Vec<String>) -> (r: Json)
        ensures
            r@ == JsonView::Array(Seq::new(items@.len(), |i: int| JsonView::Text(items@[i]@))),
    {
        let mut out: Vec<Json> = Vec::new();
        for i in 0..items.len()
            invariant
                out@.len() == i,
                forall|k: int| 0 <= k < i ==> (#[trigger] out@[k])@ == JsonView::Text(items@[k]@),
        {
            out.push(Json::Text(items[i].clone()));
        }
        let r = Json::Array(out);
        assert(r@->Array_0 =~= Seq::new(items@.len(), |i: int| JsonView::Text(items@[i]@)));
        r
    }

    /// The member of that name, where the value is an object that has it.
    pub fn get(&self, key: &str) -> (r: Option<&Json>)
        ensures
            match r {
                Some(j) => self@.get(key@) == Some(j@),
                None => self@.get(key@) is None,
            },
    {
        match self {
            Json::Object(members) => {
                let mut n: usize = members.len();
                assert(members@.take(n as int) =~= members@);
                while n > 0
                    invariant
                        n <= members@.len(),
                        self@ == JsonView::Object(members_model(members@)),
                        members_model(members@).contains_key(key@) <==> members_model(
                            members@.take(n as int),
                        ).contains_key(key@),
                        members_model(members@.take(n as int)).contains_key(key@)
                            ==> members_model(members@)[key@] == members_model(
                            members@.take(n as int),
                        )[key@],
                    decreases n,
                {
                    assert(members@.take(n as int).drop_last() =~= members@.take(n - 1));
                    assert(members@.take(n as int).last() == members@[n - 1]);
                    if same_text(members[n - 1].0.as_str(), key) {
                        return Some(&members[n - 1].1);
                    }
                    n -= 1;
                }
                None
            },
            _ => None,
        }
    }

    /// The text, where the value is one.
    pub fn as_str(&self) -> (r: Option<&str>)
        ensures
            match r {
                Some(s) => self@.as_text() == Some(s@),
                None => self@.as_text() is None,
            },
    {
        match self {
            Json::Text(s) => Some(s.as_str()),
            _ => None,
        }
    }

    /// The truth value, where the value is one.
    pub fn as_bool(&self) -> (r: Option<bool>)
        ensures
            r == self@.as_flag(),
    {
        match self {
            Json::Bool(b) => Some(*b),
            _ => None,
        }
    }

    /// The elements, where the value is an array.
    pub fn as_array(&self) -> (r: Option<&Vec<Json>>)
        ensures
            match r {
                Some(items) => self@.as_items() == Some(Seq::new(items@.len(), |i: int| items@[i]@)),
                None => self@.as_items() is None,
            },
    {
        match self {
            Json::Array(items) => {
                assert(self@->Array_0 =~= Seq::new(items@.len(), |i: int| items@[i]@));
                Some(items)
            },
            _ => None,
        }
    }

    /// The names of the members in alphabetical order; anything but an object has none.
    pub fn keys(&self) -> (r: Vec<String>)
        ensures
            views(r@) == self@.names(),
            self@.lists_names(views(r@)),
    {
        let mut out: Vec<String> = Vec::new();
        match self {
            Json::Object(members) => {
                assert(members@.take(0) =~= Seq::empty());
                for i in 0..members.len()
                    invariant
                        is_ascending(views(out@)),
                        forall|key: Seq<char>| #[trigger]
                            views(out@).contains(key) <==> members_model(
                                members@.take(i as int),
                            ).contains_key(key),
                {
                    assert(members@.take(i + 1).drop_last() =~= members@.take(i as int));
                    enter(&mut out, members[i].0.as_str());
                }
                assert(members@.take(members@.len() as int) =~= members@);
            },
            _ => {},
        }
        proof {
            assert(self@.lists_names(views(out@)));
            law_ascending_is_unique(views(out@), self@.names());
        }
        out
    }

    /// Whether the value is an object.
    pub fn is_object(&self) -> (r: bool)
        ensures
            r == (self@ is Object),
    {
        match self {
            Json::Object(_) => true,
            _ => false,
        }
    }

    /// The member of that name, where there is one and it is a text.
    pub fn str_at(&self, key: &str) -> (r: Option<&str>)
        ensures
            match r {
                Some(s) => self@.text_at(key@) == Some(s@),
                None => self@.text_at(key@) is None,
            },
    {
        match self.get(key) {
            Some(v) => v.as_str(),
            None => None,
        }
    }

    /// The member of that name, where there is one and it is a truth value.
    pub fn bool_at(&self, key: &str) -> (r: Option<bool>)
        ensures
            r == self@.flag_at(key@),
    {
        match self.get(key) {
            Some(v) => v.as_bool(),
            None => None,
        }
    }
}

impl Clone for Json {
    fn clone(&self) -> (r: Json)
        ensures
            r@ == self@,
        decreases self,
    {
        match self {
            Json::Null => Json::Null,
            Json::Bool(b) => Json::Bool(*b),
            Json::Number(n) => Json::Number(n.clone()),
            Json::Text(s) => Json::Text(s.clone()),
            Json::Array(items) => {
                let mut out: Vec<Json> = Vec::new();
                for i in 0..items.len()
                    invariant
                        self == Json::Array(*items),
                        out@.len() == i,
                        forall|k: int| 0 <= k < i ==> (#[trigger] out@[k])@ == items@[k]@,
                {
                    proof {
                        lemma_element_below(*self, i as int);
                    }
                    out.push((&items[i]).clone());
                }
                let r = Json::Array(out);
                assert(r@->Array_0 =~= self@->Array_0);
                r
            },
            Json::Object(members) => {
                let mut out: Vec<(String, Json)> = Vec::new();
                for i in 0..members.len()
                    invariant
                        self == Json::Object(*members),
                        out@.len() == i,
                        members_model(out@) == members_model(members@.take(i as int)),
                {
                    proof {
                        lemma_member_below(*self, i as int);
                    }
                    let ghost before = out@;
                    let below = (&members[i].1).clone();
                    out.push((members[i].0.clone(), below));
                    assert(out@.drop_last() =~= before);
                    assert(members@.take(i + 1).drop_last() =~= members@.take(i as int));
                }
                assert(members@.take(members@.len() as int) =~= members@);
                Json::Object(out)
            },
        }
    }
}

}
