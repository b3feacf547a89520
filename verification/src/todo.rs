//! The todo list of a task.

use vstd::prelude::*;
use vstd::string::*;
use vstd::utf8::*;

use crate::json::{Json, JsonView};
use crate::text::{
    ascii_lower, decimal, decimal_text, lowercase, push_decimal, same_text, to_lower,
};

verus! {

/// How far an item of the list has come.
#[derive(Debug, Clone, Copy, PartialEq, Eq, Structural)]
pub enum TodoStatus {
    Pending,
    InProgress,
    Completed,
    Blocked,
}

impl TodoStatus {
    /// The name under which a status is shown.
    pub open spec fn name(self) -> Seq<char> {
        match self {
            TodoStatus::Pending => "pending"@,
            TodoStatus::InProgress => "in_progress"@,
            TodoStatus::Completed => "completed"@,
            TodoStatus::Blocked => "blocked"@,
        }
    }

    /// The name under which a status is stored: the variant's name in lower case.
    pub open spec fn stored_name(self) -> Seq<char> {
        match self {
            TodoStatus::Pending => "pending"@,
            TodoStatus::InProgress => "inprogress"@,
            TodoStatus::Completed => "completed"@,
            TodoStatus::Blocked => "blocked"@,
        }
    }
}

/// The status that a word in lower case stands for.
pub open spec fn status_of(word: Seq<char>) -> Option<TodoStatus> {
    if word == "pending"@ {
        Some(TodoStatus::Pending)
    } else if word == "in_progress"@ || word == "inprogress"@ {
        Some(TodoStatus::InProgress)
    } else if word == "completed"@ || word == "done"@ {
        Some(TodoStatus::Completed)
    } else if word == "blocked"@ {
        Some(TodoStatus::Blocked)
    } else {
        None
    }
}

/// The complaint about a word that stands for no status.
pub open spec fn unknown_status(word: Seq<char>) -> Seq<char> {
    "unknown todo status '"@ + word
        + "': expected pending, in_progress, completed, or blocked"@
}

/// Whether a result is what a word in lower case stands for, or the complaint about it.
pub open spec fn reads_status(r: Result<TodoStatus, String>, word: Seq<char>) -> bool {
    match r {
        Ok(status) => status_of(word) == Some(status),
        Err(e) => status_of(word) is None && e@ == unknown_status(word),
    }
}

/// Small letters, underscores and nothing else.
pub open spec fn is_plain_word(word: Seq<char>) -> bool {
    forall|i: int| 0 <= i < word.len() ==> 'a' <= #[trigger] word[i] <= 'z' || word[i] == '_'
}

/// The names of the statuses are plain words, and each stands for its status.
proof fn lemma_names(status: TodoStatus)
    ensures
        is_plain_word(status.name()),
        is_plain_word(status.stored_name()),
        status_of(status.name()) == Some(status),
        status_of(status.stored_name()) == Some(status),
{
    reveal_strlit("pending");
    reveal_strlit("in_progress");
    reveal_strlit("inprogress");
    reveal_strlit("completed");
    reveal_strlit("done");
    reveal_strlit("blocked");
    assert("pending"@.len() == 7);
    assert("in_progress"@.len() == 11);
    assert("inprogress"@.len() == 10);
    assert("completed"@.len() == 9);
    assert("done"@.len() == 4);
    assert("blocked"@.len() == 7);
    assert("pending"@[0] != "blocked"@[0]);
}

/// Lowering a plain word changes nothing.
proof fn lemma_plain_word_lower(word: Seq<char>)
    requires
        is_plain_word(word),
    ensures
        is_ascii_chars(word),
        word.map_values(|c: char| ascii_lower(c)) == word,
{
    assert(word.map_values(|c: char| ascii_lower(c)) =~= word);
}

/// The status that a word in lower case stands for.
pub fn status_from_lower(word: &str) -> (r: Result<TodoStatus, String>)
    ensures
        reads_status(r, word@),
{
    if same_text(word, "pending") {
        Ok(TodoStatus::Pending)
    } else if same_text(word, "in_progress") || same_text(word, "inprogress") {
        Ok(TodoStatus::InProgress)
    } else if same_text(word, "completed") || same_text(word, "done") {
        Ok(TodoStatus::Completed)
    } else if same_text(word, "blocked") {
        Ok(TodoStatus::Blocked)
    } else {
        let mut e = "unknown todo status '".to_string();
        e.append(word);
        e.append("': expected pending, in_progress, completed, or blocked");
        Err(e)
    }
}

impl TodoStatus {
    /// The status that a word stands for, in whatever case it is written. The names under which a
    /// status is shown and stored stand for it.
    pub fn from_str(s: &str) -> (r: Result<TodoStatus, String>)
        ensures
            reads_status(r, lowercase(s@)),
            is_ascii_chars(s@) ==> reads_status(r, s@.map_values(|c: char| ascii_lower(c))),
            forall|status: TodoStatus| s@ == #[trigger] status.name() ==> r
                == Ok::<TodoStatus, String>(status),
            forall|status: TodoStatus| s@ == #[trigger] status.stored_name() ==> r
                == Ok::<TodoStatus, String>(status),
    {
        let word = to_lower(s);
        let r = status_from_lower(word.as_str());
        proof {
            assert forall|status: TodoStatus| s@ == #[trigger] status.name() implies r
                == Ok::<TodoStatus, String>(status) by {
                lemma_names(status);
                lemma_plain_word_lower(status.name());
            }
            assert forall|status: TodoStatus| s@ == #[trigger] status.stored_name() implies r
                == Ok::<TodoStatus, String>(status) by {
                lemma_names(status);
                lemma_plain_word_lower(status.stored_name());
            }
        }
        r
    }

    /// The name under which a status is shown.
    pub fn as_str(&self) -> (r: &'static str)
        ensures
            r@ == self.name(),
    {
        match self {
            TodoStatus::Pending => "pending",
            TodoStatus::InProgress => "in_progress",
            TodoStatus::Completed => "completed",
            TodoStatus::Blocked => "blocked",
        }
    }

    /// The name under which a status is stored.
    pub fn stored_str(&self) -> (r: &'static str)
        ensures
            r@ == self.stored_name(),
    {
        match self {
            TodoStatus::Pending => "pending",
            TodoStatus::InProgress => "inprogress",
            TodoStatus::Completed => "completed",
            TodoStatus::Blocked => "blocked",
        }
    }
}

/// What an item says.
pub struct TodoView {
    pub id: Seq<char>,
    pub content: Seq<char>,
    pub status: TodoStatus,
}

/// One item of the list, known by its id.
#[derive(Debug)]
pub struct TodoItem {
    pub id: String,
    pub content: String,
    pub status: TodoStatus,
}

impl View for TodoItem {
    type V = TodoView;

    open spec fn view(&self) -> TodoView {
        TodoView { id: self.id@, content: self.content@, status: self.status }
    }
}

impl Clone for TodoItem {
    fn clone(&self) -> (r: TodoItem)
        ensures
            r@ == self@,
    {
        TodoItem { id: self.id.clone(), content: self.content.clone(), status: self.status }
    }
}

/// What the items of a list say.
pub open spec fn todo_views(items: Seq<TodoItem>) -> Seq<TodoView> {
    Seq::new(items.len(), |i: int| items[i]@)
}

/// The place of the first item with an id.
pub open spec fn place_of(items: Seq<TodoView>, id: Seq<char>) -> Option<int>
    decreases items.len(),
{
    if items.len() == 0 {
        None
    } else {
        match place_of(items.drop_last(), id) {
            Some(at) => Some(at),
            None => if items.last().id == id {
                Some(items.len() - 1)
            } else {
                None
            },
        }
    }
}

/// The list with one item entered: in the place of the first with its id, else at the end.
pub open spec fn entered(items: Seq<TodoView>, item: TodoView) -> Seq<TodoView> {
    match place_of(items, item.id) {
        Some(at) => items.update(at, item),
        None => items.push(item),
    }
}

/// The list with items entered one after the other.
pub open spec fn upserted(items: Seq<TodoView>, updates: Seq<TodoView>) -> Seq<TodoView>
    decreases updates.len(),
{
    if updates.len() == 0 {
        items
    } else {
        entered(upserted(items, updates.drop_last()), updates.last())
    }
}

/// The place of the first item with an id holds that id, and no earlier place does.
pub proof fn lemma_place_of(items: Seq<TodoView>, id: Seq<char>)
    ensures
        match place_of(items, id) {
            Some(at) => 0 <= at < items.len() && items[at].id == id && forall|i: int|
                0 <= i < at ==> (#[trigger] items[i]).id != id,
            None => forall|i: int| 0 <= i < items.len() ==> (#[trigger] items[i]).id != id,
        },
    decreases items.len(),
{
    if items.len() > 0 {
        let shorter = items.drop_last();
        lemma_place_of(shorter, id);
        assert forall|i: int| 0 <= i < shorter.len() implies #[trigger] items[i] == shorter[i] by {}
    }
}

/// An item whose place is known to be the first with its id.
proof fn lemma_place_is(items: Seq<TodoView>, id: Seq<char>, at: int)
    requires
        0 <= at < items.len(),
        items[at].id == id,
        forall|i: int| 0 <= i < at ==> (#[trigger] items[i]).id != id,
    ensures
        place_of(items, id) == Some(at),
{
    lemma_place_of(items, id);
}

/// Where the first item with an id stands.
fn find(items: &Vec<TodoItem>, id: &str) -> (r: Option<usize>)
    ensures
        match r {
            Some(at) => place_of(todo_views(items@), id@) == Some(at as int) && at < items@.len(),
            None => place_of(todo_views(items@), id@) is None,
        },
{
    let ghost all = todo_views(items@);
    for i in 0..items.len()
        invariant
            all == todo_views(items@),
            forall|k: int| 0 <= k < i ==> (#[trigger] all[k]).id != id@,
    {
        assert(all[i as int].id == items@[i as int].id@);
        if same_text(items[i].id.as_str(), id) {
            proof {
                lemma_place_is(all, id@, i as int);
            }
            return Some(i);
        }
    }
    proof {
        lemma_place_of(all, id@);
    }
    None
}

/// A copy of a todo list.
pub fn copy_todos(items: &[TodoItem]) -> (r: Vec<TodoItem>)
    ensures
        todo_views(r@) == todo_views(items@),
{
    let mut out: Vec<TodoItem> = Vec::new();
    for i in 0..items.len()
        invariant
            out@.len() == i,
            forall|k: int| 0 <= k < i ==> (#[trigger] out@[k])@ == items@[k]@,
    {
        out.push(items[i].clone());
    }
    assert(todo_views(out@) =~= todo_views(items@));
    out
}

/// Enters updates into a list: an update with a known id replaces the item's content and status,
/// any other is added at the end.
pub fn upsert(items: &[TodoItem], updates: &[TodoItem]) -> (r: Vec<TodoItem>)
    ensures
        todo_views(r@) == upserted(todo_views(items@), todo_views(updates@)),
{
    let mut out = copy_todos(items);
    let ghost news = todo_views(updates@);
    assert(upserted(todo_views(items@), news.take(0)) == todo_views(items@));
    for i in 0..updates.len()
        invariant
            news == todo_views(updates@),
            todo_views(out@) == upserted(todo_views(items@), news.take(i as int)),
    {
        let ghost before = todo_views(out@);
        assert(news.take(i + 1).drop_last() =~= news.take(i as int));
        assert(news.take(i + 1).last() == updates@[i as int]@);
        let update = &updates[i];
        match find(&out, update.id.as_str()) {
            Some(at) => {
                proof {
                    lemma_place_of(before, update.id@);
                }
                let known = TodoItem {
                    id: out[at].id.clone(),
                    content: update.content.clone(),
                    status: update.status,
                };
                out.set(at, known);
                assert(todo_views(out@) =~= before.update(at as int, update@));
            },
            None => {
                out.push(update.clone());
                assert(todo_views(out@) =~= before.push(update@));
            },
        }
    }
    assert(news.take(news.len() as int) =~= news);
    out
}

/// How many items have a status.
pub open spec fn count_of(items: Seq<TodoView>, status: TodoStatus) -> nat
    decreases items.len(),
{
    if items.len() == 0 {
        0
    } else {
        count_of(items.drop_last(), status) + (if items.last().status == status {
            1nat
        } else {
            0nat
        })
    }
}

/// How many items there are of each status: pending, in progress, completed, blocked.
pub fn count_by_status(items: &[TodoItem]) -> (r: (usize, usize, usize, usize))
    ensures
        r.0 == count_of(todo_views(items@), TodoStatus::Pending),
        r.1 == count_of(todo_views(items@), TodoStatus::InProgress),
        r.2 == count_of(todo_views(items@), TodoStatus::Completed),
        r.3 == count_of(todo_views(items@), TodoStatus::Blocked),
        r.0 + r.1 + r.2 + r.3 == items@.len(),
{
    let mut pending: usize = 0;
    let mut in_progress: usize = 0;
    let mut completed: usize = 0;
    let mut blocked: usize = 0;
    let ghost all = todo_views(items@);
    for i in 0..items.len()
        invariant
            all == todo_views(items@),
            pending == count_of(all.take(i as int), TodoStatus::Pending),
            in_progress == count_of(all.take(i as int), TodoStatus::InProgress),
            completed == count_of(all.take(i as int), TodoStatus::Completed),
            blocked == count_of(all.take(i as int), TodoStatus::Blocked),
            pending + in_progress + completed + blocked == i,
    {
        assert(all.take(i + 1).drop_last() =~= all.take(i as int));
        assert(all.take(i + 1).last() == items@[i as int]@);
        match items[i].status {
            TodoStatus::Pending => pending += 1,
            TodoStatus::InProgress => in_progress += 1,
            TodoStatus::Completed => completed += 1,
            TodoStatus::Blocked => blocked += 1,
        }
    }
    assert(all.take(all.len() as int) =~= all);
    (pending, in_progress, completed, blocked)
}

/// A list in one line.
pub open spec fn summary_of(items: Seq<TodoView>) -> Seq<char> {
    if items.len() == 0 {
        "no todos"@
    } else {
        decimal(items.len()) + " total: "@ + decimal(count_of(items, TodoStatus::Pending))
            + " pending, "@ + decimal(count_of(items, TodoStatus::InProgress)) + " in progress, "@
            + decimal(count_of(items, TodoStatus::Completed)) + " completed, "@ + decimal(
            count_of(items, TodoStatus::Blocked),
        ) + " blocked"@
    }
}

/// A list in one line.
pub fn summary(items: &[TodoItem]) -> (r: String)
    ensures
        r@ == summary_of(todo_views(items@)),
{
    if items.len() == 0 {
        return "no todos".to_string();
    }
    let counts = count_by_status(items);
    let mut out = decimal_text(items.len() as u64);
    out.append(" total: ");
    push_decimal(&mut out, counts.0 as u64);
    out.append(" pending, ");
    push_decimal(&mut out, counts.1 as u64);
    out.append(" in progress, ");
    push_decimal(&mut out, counts.2 as u64);
    out.append(" completed, ");
    push_decimal(&mut out, counts.3 as u64);
    out.append(" blocked");
    out
}

/// An item as JSON.
pub open spec fn todo_json(item: TodoView) -> JsonView {
    JsonView::empty().with("id"@, JsonView::Text(item.id)).with(
        "content"@,
        JsonView::Text(item.content),
    ).with("status"@, JsonView::Text(item.status.stored_name()))
}

/// A list as JSON.
pub open spec fn todos_json(items: Seq<TodoView>) -> JsonView {
    JsonView::Array(Seq::new(items.len(), |i: int| todo_json(items[i])))
}

/// An item as JSON.
pub fn item_to_json(item: &TodoItem) -> (r: Json)
    ensures
        r@ == todo_json(item@),
{
    Json::object().with("id", Json::text(item.id.as_str())).with(
        "content",
        Json::text(item.content.as_str()),
    ).with("status", Json::text(item.status.stored_str()))
}

/// A list as JSON.
pub fn list_to_json(items: &[TodoItem]) -> (r: Json)
    ensures
        r@ == todos_json(todo_views(items@)),
{
    let mut out: Vec<Json> = Vec::new();
    for i in 0..items.len()
        invariant
            out@.len() == i,
            forall|k: int| 0 <= k < i ==> (#[trigger] out@[k])@ == todo_json(items@[k]@),
    {
        out.push(item_to_json(&items[i]));
    }
    let r = Json::Array(out);
    assert(r@->Array_0 =~= todos_json(todo_views(items@))->Array_0);
    r
}

/// No two items share an id.
pub open spec fn distinct_ids(items: Seq<TodoView>) -> bool {
    forall|i: int, j: int|
        0 <= i < j < items.len() ==> (#[trigger] items[i]).id != (#[trigger] items[j]).id
}

/// Entering an item keeps every id in its place, and touches no item with another id.
proof fn lemma_entered(items: Seq<TodoView>, item: TodoView)
    ensures
        entered(items, item).len() >= items.len(),
        forall|i: int| 0 <= i < items.len() ==> (#[trigger] entered(items, item)[i]).id == items[i].id,
        forall|i: int|
            0 <= i < items.len() && items[i].id != item.id ==> #[trigger] entered(items, item)[i]
                == items[i],
        place_of(entered(items, item), item.id) is Some,
        entered(items, item)[place_of(entered(items, item), item.id)->0] == item,
{
    lemma_place_of(items, item.id);
    let out = entered(items, item);
    match place_of(items, item.id) {
        Some(at) => {
            assert forall|i: int| 0 <= i < at implies (#[trigger] out[i]).id != item.id by {
                assert(items[i].id != item.id);
            }
            lemma_place_is(out, item.id, at);
        },
        None => {
            assert forall|i: int| 0 <= i < items.len() implies (#[trigger] out[i]).id
                != item.id by {
                assert(items[i].id != item.id);
            }
            lemma_place_is(out, item.id, items.len() as int);
        },
    }
}

/// Updating a list never drops an item, never changes the order of the ids it already has, and
/// leaves every item alone whose id no update carries.
pub proof fn law_upsert_keeps_the_rest(items: Seq<TodoView>, updates: Seq<TodoView>)
    ensures
        upserted(items, updates).len() >= items.len(),
        forall|i: int|
            0 <= i < items.len() ==> (#[trigger] upserted(items, updates)[i]).id == items[i].id,
        forall|i: int|
            0 <= i < items.len() && (forall|k: int|
                0 <= k < updates.len() ==> (#[trigger] updates[k]).id != items[i].id)
                ==> #[trigger] upserted(items, updates)[i] == items[i],
    decreases updates.len(),
{
    if updates.len() > 0 {
        let earlier = updates.drop_last();
        let mid = upserted(items, earlier);
        law_upsert_keeps_the_rest(items, earlier);
        lemma_entered(mid, updates.last());
        assert forall|i: int|
            0 <= i < items.len() && (forall|k: int|
                0 <= k < updates.len() ==> (#[trigger] updates[k]).id
                    != items[i].id) implies #[trigger] upserted(items, updates)[i] == items[i] by {
            assert forall|k: int| 0 <= k < earlier.len() implies (#[trigger] earlier[k]).id
                != items[i].id by {
                assert(updates[k].id != items[i].id);
            }
            assert(mid[i] == items[i]);
            assert(updates[updates.len() - 1].id != items[i].id);
        }
        assert forall|i: int| 0 <= i < items.len() implies (#[trigger] upserted(
            items,
            updates,
        )[i]).id == items[i].id by {
            assert(mid[i].id == items[i].id);
        }
    }
}

/// After an update the list holds, under each id that an update carried, the last update with
/// that id.
pub proof fn law_upsert_takes_the_last(items: Seq<TodoView>, updates: Seq<TodoView>, k: int)
    requires
        0 <= k < updates.len(),
        forall|later: int|
            k < later < updates.len() ==> (#[trigger] updates[later]).id != updates[k].id,
    ensures
        place_of(upserted(items, updates), updates[k].id) is Some,
        upserted(items, updates)[place_of(upserted(items, updates), updates[k].id)->0]
            == updates[k],
    decreases updates.len(),
{
    let earlier = updates.drop_last();
    let mid = upserted(items, earlier);
    lemma_entered(mid, updates.last());
    if k < updates.len() - 1 {
        assert forall|later: int| k < later < earlier.len() implies (#[trigger] earlier[later]).id
            != earlier[k].id by {
            assert(updates[later].id != updates[k].id);
        }
        law_upsert_takes_the_last(items, earlier, k);
        let at = place_of(mid, updates[k].id)->0;
        lemma_place_of(mid, updates[k].id);
        let out = upserted(items, updates);
        assert(updates[updates.len() - 1].id != updates[k].id);
        assert forall|i: int| 0 <= i < at implies (#[trigger] out[i]).id != updates[k].id by {
            assert(mid[i].id != updates[k].id);
        }
        assert(out[at] == mid[at]);
        lemma_place_is(out, updates[k].id, at);
    }
}

/// A list without a repeated id stays so under updates.
pub proof fn law_upsert_keeps_ids_distinct(items: Seq<TodoView>, updates: Seq<TodoView>)
    requires
        distinct_ids(items),
    ensures
        distinct_ids(upserted(items, updates)),
    decreases updates.len(),
{
    if updates.len() > 0 {
        let mid = upserted(items, updates.drop_last());
        law_upsert_keeps_ids_distinct(items, updates.drop_last());
        lemma_place_of(mid, updates.last().id);
        lemma_entered(mid, updates.last());
        let out = upserted(items, updates);
        assert forall|i: int, j: int| 0 <= i < j < out.len() implies (#[trigger] out[i]).id != (
        #[trigger] out[j]).id by {
            if j < mid.len() {
                assert(mid[i].id != mid[j].id);
            } else {
                assert(mid[i].id != updates.last().id);
            }
        }
    }
}

/// Every item of an updated list was in the list before or is one of the updates.
pub proof fn law_upsert_invents_nothing(items: Seq<TodoView>, updates: Seq<TodoView>, i: int)
    requires
        0 <= i < upserted(items, updates).len(),
    ensures
        items.contains(upserted(items, updates)[i]) || updates.contains(upserted(items, updates)[i]),
    decreases updates.len(),
{
    if updates.len() > 0 {
        let earlier = updates.drop_last();
        let mid = upserted(items, earlier);
        lemma_place_of(mid, updates.last().id);
        let it = upserted(items, updates)[i];
        if it == updates.last() {
            assert(updates[updates.len() - 1] == it);
        } else {
            assert(mid[i] == it);
            law_upsert_invents_nothing(items, earlier, i);
            if earlier.contains(it) {
                let k = choose|k: int| 0 <= k < earlier.len() && earlier[k] == it;
                assert(updates[k] == it);
            }
        }
    } else {
        assert(items[i] == upserted(items, updates)[i]);
    }
}

/// The place of the last update with an id.
spec fn last_with(updates: Seq<TodoView>, id: Seq<char>) -> int
    decreases updates.len(),
{
    if updates.len() == 0 {
        -1
    } else if updates.last().id == id {
        updates.len() - 1
    } else {
        last_with(updates.drop_last(), id)
    }
}

/// Where an update has an id, there is a last one with it.
proof fn lemma_last_with(updates: Seq<TodoView>, k: int)
    requires
        0 <= k < updates.len(),
    ensures
        k <= last_with(updates, updates[k].id) < updates.len(),
        updates[last_with(updates, updates[k].id)].id == updates[k].id,
        forall|later: int|
            last_with(updates, updates[k].id) < later < updates.len() ==> (
            #[trigger] updates[later]).id != updates[k].id,
    decreases updates.len(),
{
    let earlier = updates.drop_last();
    if updates.last().id != updates[k].id {
        lemma_last_with(earlier, k);
        assert forall|later: int|
            last_with(updates, updates[k].id) < later < updates.len() implies (
        #[trigger] updates[later]).id != updates[k].id by {
            if later < earlier.len() {
                assert(earlier[later].id != earlier[k].id);
            }
        }
    }
}

/// Updates whose ids all stand in a list add nothing to it.
proof fn lemma_known_length(items: Seq<TodoView>, updates: Seq<TodoView>)
    requires
        forall|k: int|
            0 <= k < updates.len() ==> place_of(items, (#[trigger] updates[k]).id) is Some,
    ensures
        upserted(items, updates).len() == items.len(),
    decreases updates.len(),
{
    if updates.len() > 0 {
        let earlier = updates.drop_last();
        assert forall|k: int| 0 <= k < earlier.len() implies place_of(
            items,
            (#[trigger] earlier[k]).id,
        ) is Some by {
            assert(earlier[k] == updates[k]);
        }
        lemma_known_length(items, earlier);
        law_upsert_keeps_the_rest(items, earlier);
        let mid = upserted(items, earlier);
        let id = updates.last().id;
        assert(place_of(items, updates[updates.len() - 1].id) is Some);
        lemma_place_of(items, id);
        lemma_place_of(mid, id);
        assert(mid[place_of(items, id)->0].id == id);
    }
}

/// An item that is not the first with its id is never touched.
proof fn lemma_later_untouched(items: Seq<TodoView>, updates: Seq<TodoView>, first: int, p: int)
    requires
        0 <= first < p < items.len(),
        items[first].id == items[p].id,
    ensures
        upserted(items, updates)[p] == items[p],
    decreases updates.len(),
{
    if updates.len() > 0 {
        let earlier = updates.drop_last();
        let mid = upserted(items, earlier);
        lemma_later_untouched(items, earlier, first, p);
        law_upsert_keeps_the_rest(items, earlier);
        lemma_place_of(mid, updates.last().id);
        assert(mid[first].id == items[first].id);
    }
}

/// Making the same updates again changes nothing.
pub proof fn law_upsert_again_is_the_same(items: Seq<TodoView>, updates: Seq<TodoView>)
    ensures
        upserted(upserted(items, updates), updates) == upserted(items, updates),
{
    let once = upserted(items, updates);
    let twice = upserted(once, updates);
    assert forall|k: int| 0 <= k < updates.len() implies place_of(
        once,
        (#[trigger] updates[k]).id,
    ) is Some by {
        let last = last_with(updates, updates[k].id);
        lemma_last_with(updates, k);
        law_upsert_takes_the_last(items, updates, last);
    }
    lemma_known_length(once, updates);
    law_upsert_keeps_the_rest(once, updates);
    assert forall|p: int| 0 <= p < once.len() implies #[trigger] twice[p] == once[p] by {
        let id = once[p].id;
        lemma_place_of(once, id);
        let first = place_of(once, id)->0;
        if first < p {
            lemma_later_untouched(once, updates, first, p);
        } else if exists|k: int| 0 <= k < updates.len() && (#[trigger] updates[k]).id == id {
            let k = choose|k: int| 0 <= k < updates.len() && (#[trigger] updates[k]).id == id;
            let last = last_with(updates, id);
            lemma_last_with(updates, k);
            law_upsert_takes_the_last(items, updates, last);
            law_upsert_takes_the_last(once, updates, last);
            assert forall|i: int| 0 <= i < p implies (#[trigger] twice[i]).id != id by {
                assert(once[i].id != id);
            }
            lemma_place_is(twice, id, p);
        }
    }
    assert(twice =~= once);
}

/// Two rounds of updates come to the same as one round of both.
pub proof fn law_upsert_in_rounds_is_the_same(
    items: Seq<TodoView>,
    first: Seq<TodoView>,
    second: Seq<TodoView>,
)
    ensures
        upserted(upserted(items, first), second) == upserted(items, first + second),
    decreases second.len(),
{
    if second.len() == 0 {
        assert(first + second =~= first);
    } else {
        law_upsert_in_rounds_is_the_same(items, first, second.drop_last());
        assert((first + second).drop_last() =~= first + second.drop_last());
    }
}

}
