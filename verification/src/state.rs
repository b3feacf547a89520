//! Saved tasks: what is kept of a task, where it is kept, and what is said when it cannot be had.

use vstd::prelude::*;
use vstd::string::*;

use crate::llm::{
    copy_messages, copy_opt, message_views, opt_str_view, opt_view, Message, MessageView,
};
use crate::order::{enter, is_ascending, is_sorted, law_ascending_is_sorted};
use crate::paths::{join_path, path_below};
use crate::records::{task_from_text, task_in};
use crate::text::{chars_of, same_text, text_of, views};
use crate::todo::{copy_todos, todo_views, TodoItem, TodoView};

verus! {

/// What is kept of a task.
#[derive(Debug)]
pub struct TaskState {
    pub task_id: String,
    pub task: String,
    pub messages: Vec<Message>,
    pub todos: Vec<TodoItem>,
    pub turn_count: u32,
    pub max_turns: u32,
    pub model: Option<String>,
    pub config_path: String,
    pub auto_approve: bool,
    pub created_at: String,
    pub updated_at: String,
}

/// What a saved task says.
pub struct TaskView {
    pub task_id: Seq<char>,
    pub task: Seq<char>,
    pub messages: Seq<MessageView>,
    pub todos: Seq<TodoView>,
    pub turn_count: u32,
    pub max_turns: u32,
    pub model: Option<Seq<char>>,
    pub config_path: Seq<char>,
    pub auto_approve: bool,
    pub created_at: Seq<char>,
    pub updated_at: Seq<char>,
}

impl View for TaskState {
    type V = TaskView;

    open spec fn view(&self) -> TaskView {
        TaskView {
            task_id: self.task_id@,
            task: self.task@,
            messages: message_views(self.messages@),
            todos: todo_views(self.todos@),
            turn_count: self.turn_count,
            max_turns: self.max_turns,
            model: opt_view(self.model),
            config_path: self.config_path@,
            auto_approve: self.auto_approve,
            created_at: self.created_at@,
            updated_at: self.updated_at@,
        }
    }
}

impl Clone for TaskState {
    fn clone(&self) -> (r: TaskState)
        ensures
            r@ == self@,
    {
        TaskState {
            task_id: self.task_id.clone(),
            task: self.task.clone(),
            messages: copy_messages(self.messages.as_slice()),
            todos: copy_todos(self.todos.as_slice()),
            turn_count: self.turn_count,
            max_turns: self.max_turns,
            model: copy_opt(&self.model),
            config_path: self.config_path.clone(),
            auto_approve: self.auto_approve,
            created_at: self.created_at.clone(),
            updated_at: self.updated_at.clone(),
        }
    }
}

/// The directory of the saved tasks: the agent's own setting, below the user's data directory, or
/// below the home directory. Without a home directory it is below the current one.
pub open spec fn state_home(
    custom: Option<Seq<char>>,
    xdg: Option<Seq<char>>,
    home: Option<Seq<char>>,
) -> Seq<char> {
    match custom {
        Some(dir) => dir,
        None => match xdg {
            Some(dir) => path_below(dir, "agentic"@),
            None => {
                let base = match home {
                    Some(dir) => dir,
                    None => "."@,
                };
                path_below(path_below(path_below(base, ".local"@), "share"@), "agentic"@)
            },
        },
    }
}

/// The directory of the saved tasks, by the settings `AGENT_RUNTIME_HOME`, `XDG_DATA_HOME` and
/// `HOME`.
pub fn state_dir(custom: Option<&str>, xdg: Option<&str>, home: Option<&str>) -> (r: String)
    ensures
        r@ == state_home(opt_str_view(custom), opt_str_view(xdg), opt_str_view(home)),
{
    if let Some(dir) = custom {
        return dir.to_string();
    }
    if let Some(dir) = xdg {
        return join_path(dir, "agentic");
    }
    let base = match home {
        Some(dir) => dir,
        None => ".",
    };
    let local = join_path(base, ".local");
    let share = join_path(local.as_str(), "share");
    join_path(share.as_str(), "agentic")
}

/// Where a task is kept below the directory of the saved tasks.
pub open spec fn task_place(dir: Seq<char>, task_id: Seq<char>) -> Seq<char> {
    path_below(dir, task_id + ".json"@)
}

/// Where a task is kept below the directory of the saved tasks.
pub fn task_path(dir: &str, task_id: &str) -> (r: String)
    ensures
        r@ == task_place(dir@, task_id@),
{
    let mut name = task_id.to_string();
    name.append(".json");
    join_path(dir, name.as_str())
}

/// What looking for a saved task gave.
#[derive(Debug)]
pub enum Stored {
    /// There is no file.
    Missing,
    /// There is a file that could not be read.
    ReadFailed(String),
    /// There is a file with this text.
    Text(String),
}

/// Why a saved task could not be had.
#[derive(Debug)]
pub enum LoadError {
    NotFound { id: String, looked_at: String, state_dir: String },
    Corrupt { id: String, path: String, reason: String },
    Io(String),
}

/// An error in words.
pub open spec fn load_message(e: LoadError) -> Seq<char> {
    match e {
        LoadError::NotFound { id, looked_at, state_dir } => "no saved task with id \""@ + id@
            + "\". looked at "@ + looked_at@ + ". saved tasks live in "@ + state_dir@,
        LoadError::Corrupt { id, path, reason } => "task \""@ + id@ + "\" at "@ + path@
            + " is unreadable: "@ + reason@ + ". delete it and start a new task"@,
        LoadError::Io(reason) => "could not read task state: "@ + reason@,
    }
}

impl LoadError {
    /// The error in words.
    pub fn human_message(&self) -> (r: String)
        ensures
            r@ == load_message(*self),
    {
        match self {
            LoadError::NotFound { id, looked_at, state_dir } => {
                let mut out = "no saved task with id \"".to_string();
                out.append(id.as_str());
                out.append("\". looked at ");
                out.append(looked_at.as_str());
                out.append(". saved tasks live in ");
                out.append(state_dir.as_str());
                out
            },
            LoadError::Corrupt { id, path, reason } => {
                let mut out = "task \"".to_string();
                out.append(id.as_str());
                out.append("\" at ");
                out.append(path.as_str());
                out.append(" is unreadable: ");
                out.append(reason.as_str());
                out.append(". delete it and start a new task");
                out
            },
            LoadError::Io(reason) => {
                let mut out = "could not read task state: ".to_string();
                out.append(reason.as_str());
                out
            },
        }
    }
}

/// The saved task, given what looking for it in a directory gave, or why it cannot be had.
pub fn load_state(task_id: &str, dir: &str, stored: Stored) -> (r: Result<TaskState, LoadError>)
    ensures
        match stored {
            Stored::Missing => r matches Err(LoadError::NotFound { id, looked_at, state_dir }) && id@
                == task_id@ && looked_at@ == task_place(dir@, task_id@) && state_dir@ == dir@,
            Stored::ReadFailed(why) => r matches Err(LoadError::Io(reason)) && reason@ == why@,
            Stored::Text(text) => match task_in(text@) {
                Ok(task) => r matches Ok(state) && state@ == task,
                Err(why) => r matches Err(LoadError::Corrupt { id, path, reason }) && id@
                    == task_id@ && path@ == task_place(dir@, task_id@) && reason@ == why,
            },
        },
{
    match stored {
        Stored::Missing => Err(
            LoadError::NotFound {
                id: task_id.to_string(),
                looked_at: task_path(dir, task_id),
                state_dir: dir.to_string(),
            },
        ),
        Stored::ReadFailed(reason) => Err(LoadError::Io(reason)),
        Stored::Text(text) => match task_from_text(text.as_str()) {
            Ok(state) => Ok(state),
            Err(reason) => Err(
                LoadError::Corrupt {
                    id: task_id.to_string(),
                    path: task_path(dir, task_id),
                    reason,
                },
            ),
        },
    }
}

/// The exit code that tells how a task ended.
pub open spec fn exit_code(status: Seq<char>) -> i32 {
    if status == "completed"@ {
        0
    } else if status == "blocked"@ {
        2
    } else if status == "interrupted"@ {
        130
    } else {
        1
    }
}

/// The exit code that tells how a task ended.
pub fn exit_code_for_status(status: &str) -> (r: i32)
    ensures
        r == exit_code(status@),
{
    if same_text(status, "completed") {
        0
    } else if same_text(status, "blocked") {
        2
    } else if same_text(status, "interrupted") {
        130
    } else {
        1
    }
}

/// The id of the task that is saved in a file of that name, if one is.
pub open spec fn id_of_file(name: Seq<char>) -> Option<Seq<char>> {
    if name.len() >= 5 && name.skip(name.len() - 5) == ".json"@ {
        Some(name.take(name.len() - 5))
    } else {
        None
    }
}

/// A file holds the task of an id just where it bears the id's name.
proof fn lemma_id_of_file(name: Seq<char>, id: Seq<char>)
    ensures
        id_of_file(name) == Some(id) <==> name == id + ".json"@,
{
    reveal_strlit(".json");
    if name == id + ".json"@ {
        assert(name.skip(name.len() - 5) =~= ".json"@);
        assert(name.take(name.len() - 5) =~= id);
    }
    if id_of_file(name) == Some(id) {
        assert(name =~= name.take(name.len() - 5) + name.skip(name.len() - 5));
    }
}

/// The id of the task that is saved in a file of that name, if one is.
fn task_of_file(name: &str) -> (r: Option<String>)
    ensures
        opt_view(r) == id_of_file(name@),
{
    let chars = chars_of(name);
    let total: usize = chars.len();
    if total < 5 {
        return None;
    }
    let end = text_of(&chars, total - 5, total);
    assert(end@ =~= name@.skip(name@.len() - 5));
    if same_text(end.as_str(), ".json") {
        let id = text_of(&chars, 0, total - 5);
        assert(id@ =~= name@.take(name@.len() - 5));
        Some(id)
    } else {
        None
    }
}

/// The ids of the saved tasks in alphabetical order, each once, given the names of the files in
/// their directory: a file whose name ends in `.json` holds the task of the id before that.
pub fn list_saved_tasks(names: Vec<String>) -> (r: Vec<String>)
    ensures
        is_sorted(views(r@)),
        views(r@).no_duplicates(),
        forall|id: Seq<char>| #[trigger]
            views(r@).contains(id) <==> views(names@).contains(id + ".json"@),
{
    let ghost all = views(names@);
    let mut out: Vec<String> = Vec::new();
    for i in 0..names.len()
        invariant
            all == views(names@),
            is_ascending(views(out@)),
            forall|id: Seq<char>| #[trigger]
                views(out@).contains(id) <==> all.take(i as int).contains(id + ".json"@),
    {
        let ghost before = views(out@);
        let ghost name = names@[i as int]@;
        assert(all.take(i + 1) =~= all.take(i as int).push(name));
        let found = task_of_file(names[i].as_str());
        if let Some(id) = &found {
            enter(&mut out, id.as_str());
        }
        assert forall|id: Seq<char>| #[trigger]
            views(out@).contains(id) <==> all.take(i + 1).contains(id + ".json"@) by {
            lemma_id_of_file(name, id);
            let front = all.take(i as int);
            let key = id + ".json"@;
            assert(before.contains(id) <==> front.contains(key));
            if front.contains(key) {
                let k = choose|k: int| 0 <= k < front.len() && front[k] == key;
                assert(front.push(name)[k] == key);
            }
            if name == key {
                assert(front.push(name)[front.len() as int] == key);
            }
            if front.push(name).contains(key) && name != key {
                let k = choose|k: int| 0 <= k < front.len() + 1 && front.push(name)[k] == key;
                assert(front[k] == key);
            }
        }
    }
    assert(all.take(all.len() as int) =~= all);
    proof {
        law_ascending_is_sorted(views(out@));
    }
    out
}

/// The exit code tells how a task ended: done, blocked, interrupted, or with an error.
pub proof fn law_exit_codes_tell_apart(status: Seq<char>)
    ensures
        exit_code(status) == 0 <==> status == "completed"@,
        exit_code(status) == 2 <==> status == "blocked"@,
        exit_code(status) == 130 <==> status == "interrupted"@,
        exit_code("error"@) == 1,
{
    reveal_strlit("completed");
    reveal_strlit("blocked");
    reveal_strlit("interrupted");
    reveal_strlit("error");
    assert("completed"@.len() == 9 && "blocked"@.len() == 7 && "interrupted"@.len() == 11
        && "error"@.len() == 5);
}

/// A task is found under no other id than its own.
pub proof fn law_tasks_have_places_of_their_own(dir: Seq<char>, a: Seq<char>, b: Seq<char>)
    requires
        a.len() == 0 || a[0] != '/',
        b.len() == 0 || b[0] != '/',
        task_place(dir, a) == task_place(dir, b),
    ensures
        a == b,
{
    reveal_strlit(".json");
    let x = a + ".json"@;
    let y = b + ".json"@;
    let p = task_place(dir, a);
    assert(x[0] != '/' && y[0] != '/');
    assert(x.len() == y.len());
    assert(x =~= p.subrange(p.len() - x.len(), p.len() as int));
    assert(y =~= p.subrange(p.len() - y.len(), p.len() as int));
    assert(a =~= x.take(a.len() as int));
    assert(b =~= y.take(b.len() as int));
}

}
