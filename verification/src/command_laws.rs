//! What holds of the commands: what they run and refuse, what they print, and where tasks are kept.

use vstd::prelude::*;
use vstd::string::*;

use crate::chat::{outcome_json, OutcomeView};
use crate::cli::{
    ending, failure, failure_json, listed_view, model_named, refusal, saved_json, saved_line,
    saved_lines, tasks_json, tasks_printed, terms, todo_line, todo_lines, tools_json, tools_printed,
    Command, SavedTask,
};
use crate::ids::{id_from, is_random_id};
use crate::json::{is_plain, pretty, JsonView};
use crate::llm::{opt_view, MessageView};
use crate::order::before;
use crate::paths::path_below;
use crate::records::{messages_read, task_json, task_read, todo_read, todos_read};
use crate::schemas::{
    array_has, items_schema, member, property_line, schemas, tool_entry, tool_list,
};
use crate::state::{
    exit_code, law_exit_codes_tell_apart, load_message, state_home, task_place, LoadError, TaskView,
};
use crate::text::{contains_seq, decimal, pieces, trimmed, unsigned_of};
use crate::text_laws::{
    ends_with, law_joined_texts_come_apart, lemma_stands_between, lemma_stands_last,
    lemma_stays_before, lemma_three_stand, lemma_two_stand,
};
use crate::todo::{summary_of, todo_json, TodoStatus, TodoView};

verus! {

/// A new task runs under just the terms that the command gives, whether it is shown in the terminal
/// or not.
pub proof fn law_new_tasks_run_as_asked(command: Command, workdir: Seq<char>, saved: Option<TaskView>)
    ensures
        command matches Command::Run { task, max_turns, json, yes, llm_config, model, llm_binary }
            ==> (terms(command, workdir, saved) matches Some(config) && config.task == task@
            && config.max_turns == max_turns && config.json_output == json && config.auto_approve
            == yes && config.workdir == workdir && config.model == opt_view(model)
            && config.config_path == llm_config@ && config.binary_flag == opt_view(llm_binary)),
        command matches Command::Chat { task, max_turns, json, yes, llm_config, model, llm_binary }
            ==> (terms(command, workdir, saved) matches Some(config) && config.task == task@
            && config.max_turns == max_turns && config.json_output == json && config.auto_approve
            == yes && config.workdir == workdir && config.model == opt_view(model)
            && config.config_path == llm_config@ && config.binary_flag == opt_view(llm_binary)),
        command matches Command::Resume { json, llm_config, llm_binary, .. } ==> (saved is Some ==> (
        terms(command, workdir, saved) matches Some(config) && config.json_output == json
            && config.workdir == workdir && config.config_path == llm_config@ && config.binary_flag
            == opt_view(llm_binary))),
        command is Tools || command is Tasks ==> terms(command, workdir, saved) is None,
{
}

/// The client is asked for the model that the command names, if it names one; what a new task runs
/// under names the same.
pub proof fn law_the_model_named_is_asked(command: Command, workdir: Seq<char>)
    ensures
        command is Run || command is Chat ==> (terms(command, workdir, None) matches Some(config)
            && model_named(command) == config.model),
        command matches Command::Resume { model, .. } ==> model_named(command) == opt_view(model),
        command is Tools || command is Tasks ==> model_named(command) is None,
{
}

/// A command is refused for a reason, and for no other: a new task for having nothing to do, no
/// turns or no settings; a resumed one for having no turns or no settings. Listing is never refused.
pub proof fn law_commands_are_refused_for_a_reason(
    command: Command,
    settings_exist: bool,
    saved: Option<TaskView>,
)
    ensures
        command matches Command::Run { task, max_turns, .. } ==> (refusal(
            command,
            settings_exist,
            saved,
        ) is None <==> trimmed(task@).len() > 0 && max_turns > 0 && settings_exist),
        command matches Command::Chat { task, max_turns, .. } ==> (refusal(
            command,
            settings_exist,
            saved,
        ) is None <==> trimmed(task@).len() > 0 && max_turns > 0 && settings_exist),
        command matches Command::Resume { max_turns, .. } ==> (refusal(
            command,
            settings_exist,
            saved,
        ) is None <==> max_turns != Some(0u32) && (saved is Some ==> settings_exist)),
        command is Tools || command is Tasks ==> refusal(command, settings_exist, saved) is None,
{
}

/// A refusal says what is missing: the task, the turns, or the settings by the path at which they
/// were looked for; on resuming also by the path that was used before.
pub proof fn law_refusals_say_what_is_missing(
    command: Command,
    settings_exist: bool,
    saved: Option<TaskView>,
)
    ensures
        command matches Command::Run { task, max_turns, llm_config, .. } ==> (refusal(
            command,
            settings_exist,
            saved,
        ) matches Some(words) ==> if trimmed(task@).len() == 0 {
            words == "task cannot be empty. pass --task \"what you want done\""@
        } else if max_turns == 0 {
            words == "max-turns must be at least 1"@
        } else {
            contains_seq(words, llm_config@)
        }),
        command matches Command::Chat { task, max_turns, llm_config, .. } ==> (refusal(
            command,
            settings_exist,
            saved,
        ) matches Some(words) ==> if trimmed(task@).len() == 0 {
            words == "task cannot be empty. pass --task \"what you want done\""@
        } else if max_turns == 0 {
            words == "max-turns must be at least 1"@
        } else {
            contains_seq(words, llm_config@)
        }),
        command matches Command::Resume { max_turns, llm_config, .. } ==> (refusal(
            command,
            settings_exist,
            saved,
        ) matches Some(words) ==> if max_turns == Some(0u32) {
            words == "max-turns must be at least 1"@
        } else {
            contains_seq(words, llm_config@) && (saved matches Some(task) ==> ends_with(
                words,
                task.config_path,
            ))
        }),
{
    let end = ". copy it from llm-adapter's config.yaml.template and fill in your keys"@;
    match command {
        Command::Run { llm_config, .. } => {
            lemma_stands_between("llm config not found at "@, llm_config@, end);
        },
        Command::Chat { llm_config, .. } => {
            lemma_stands_between("llm config not found at "@, llm_config@, end);
        },
        Command::Resume { llm_config, .. } => {
            if let Some(task) = saved {
                lemma_two_stand(
                    "llm config not found at "@,
                    llm_config@,
                    ". the original run used: "@,
                    task.config_path,
                );
            }
        },
        _ => {},
    }
}

/// The exit code is 0 for a task that was completed, 2 for one that is blocked, 130 for one that was
/// interrupted, and 1 for any other; where the user broke in it is 130 however the task ended.
pub proof fn law_exit_codes_are_those_promised(out: OutcomeView, json: bool)
    ensures
        ending(out, json, true).code == 130,
        out.status == "completed"@ ==> ending(out, json, false).code == 0,
        out.status == "blocked"@ ==> ending(out, json, false).code == 2,
        out.status == "interrupted"@ ==> ending(out, json, false).code == 130,
        out.status != "completed"@ && out.status != "blocked"@ && out.status != "interrupted"@
            ==> ending(out, json, false).code == 1,
        exit_code("error"@) == 1,
{
    law_exit_codes_tell_apart(out.status);
    reveal_strlit("completed");
    reveal_strlit("blocked");
    reveal_strlit("interrupted");
    assert("completed"@.len() == 9 && "blocked"@.len() == 7 && "interrupted"@.len() == 11);
}

/// The answer goes to the usual output, word for word and alone; with JSON, one envelope does and
/// nothing else is printed.
pub proof fn law_the_answer_is_printed(out: OutcomeView, interrupted: bool)
    ensures
        ending(out, false, interrupted).out == seq![out.final_answer],
        ending(out, true, interrupted).out.len() == 1,
        ending(out, true, interrupted).err.len() == 0,
        ending(out, true, interrupted).out == seq![pretty(outcome_json(out))],
        ending(out, false, interrupted).err.len() >= (if out.todos.len() > 0 {
            out.todos.len() + 2
        } else {
            0
        }),
        ending(out, false, interrupted).err.take(todo_lines(out.todos).len() as int) == todo_lines(
            out.todos,
        ),
        out.status == "interrupted"@ ==> ends_with(
            ending(out, false, interrupted).err.last(),
            out.final_answer,
        ),
        out.status != "interrupted"@ ==> ending(out, false, interrupted).err == todo_lines(
            out.todos,
        ),
{
    let err = ending(out, false, interrupted).err;
    let listed = todo_lines(out.todos);
    assert(err.take(listed.len() as int) =~= listed);
    if out.status != "interrupted"@ {
        assert(err =~= listed);
    }
    if out.status == "interrupted"@ {
        lemma_stands_last("interrupted. "@, out.final_answer);
        assert(err.last() == "interrupted. "@ + out.final_answer);
    }
}

/// Behind the answer every item of the todo list is printed, in order, with its id, its content and
/// its status.
pub proof fn law_every_item_is_printed(todos: Seq<TodoView>)
    ensures
        todos.len() == 0 ==> todo_lines(todos).len() == 0,
        todos.len() > 0 ==> todo_lines(todos).len() == todos.len() + 2 && ends_with(
            todo_lines(todos)[1],
            summary_of(todos),
        ),
        forall|i: int|
            0 <= i < todos.len() ==> contains_seq(#[trigger] todo_lines(todos)[i + 2], todos[i].id)
                && ends_with(todo_lines(todos)[i + 2], todos[i].content) && contains_seq(
                todo_lines(todos)[i + 2],
                todos[i].status.name(),
            ),
{
    lemma_stands_last("todos: "@, summary_of(todos));
    assert forall|i: int| 0 <= i < todos.len() implies contains_seq(
        #[trigger] todo_lines(todos)[i + 2],
        todos[i].id,
    ) && ends_with(todo_lines(todos)[i + 2], todos[i].content) && contains_seq(
        todo_lines(todos)[i + 2],
        todos[i].status.name(),
    ) by {
        let item = todos[i];
        let line = todo_line(item);
        assert(todo_lines(todos)[i + 2] == line);
        let word = item.status.name();
        lemma_three_stand("  ["@, word, "] "@, item.id, " — "@, item.content);
    }
}

/// The names of the members of an envelope differ.
proof fn lemma_envelope_names()
    ensures
        "task_id"@.len() == 7,
        "status"@.len() == 6,
        "turns"@.len() == 5 && "turns"@[1] == 'u',
        "todos"@.len() == 5 && "todos"@[1] == 'o',
        "final_answer"@.len() == 12,
        "error"@.len() == 5,
        "id"@.len() == 2,
        "content"@.len() == 7,
        "turn_count"@.len() == 10 && "turn_count"@[0] == 't',
        "max_turns"@.len() == 9,
        "task"@.len() == 4,
        "unreadable"@.len() == 10 && "unreadable"@[0] == 'u',
{
    reveal_strlit("task_id");
    reveal_strlit("status");
    reveal_strlit("turns");
    reveal_strlit("todos");
    reveal_strlit("final_answer");
    reveal_strlit("error");
    reveal_strlit("id");
    reveal_strlit("content");
    reveal_strlit("turn_count");
    reveal_strlit("max_turns");
    reveal_strlit("task");
    reveal_strlit("unreadable");
}

/// An envelope tells all of an outcome under the promised names: the id, the status, the turns, the
/// whole todo list and the answer.
pub proof fn law_envelopes_tell_the_outcome(out: OutcomeView)
    ensures
        outcome_json(out).text_at("task_id"@) == Some(out.task_id),
        outcome_json(out).text_at("status"@) == Some(out.status),
        outcome_json(out).get("turns"@) == Some(JsonView::Number(decimal(out.turns as nat))),
        outcome_json(out).text_at("final_answer"@) == Some(out.final_answer),
        outcome_json(out).get("todos"@) matches Some(JsonView::Array(list)) && list.len()
            == out.todos.len() && forall|i: int|
            0 <= i < list.len() ==> (#[trigger] list[i]).text_at("id"@) == Some(out.todos[i].id)
                && list[i].text_at("content"@) == Some(out.todos[i].content) && list[i].text_at(
                "status"@,
            ) == Some(out.todos[i].status.stored_name()),
        is_plain(outcome_json(out), 100),
{
    lemma_envelope_names();
    let list = Seq::new(out.todos.len(), |i: int| todo_json(out.todos[i]));
    assert forall|i: int| 0 <= i < list.len() implies is_plain(#[trigger] list[i], 98) by {
        reveal_with_fuel(is_plain, 2);
    }
    assert(is_plain(JsonView::Array(list), 99));
    assert(decimal(out.turns as nat) == decimal(out.turns as u64 as nat));
    reveal_with_fuel(is_plain, 2);
}

/// An error exits with 1 and is told word for word, on the error output or in an envelope.
pub proof fn law_errors_are_told(message: Seq<char>)
    ensures
        failure(message, false).code == 1,
        failure(message, true).code == 1,
        failure(message, false).err == seq![message],
        failure(message, false).out.len() == 0,
        failure(message, true).out.len() == 1,
        failure(message, true).err.len() == 0,
        failure_json(message).text_at("error"@) == Some(message),
        failure_json(message).text_at("status"@) == Some("error"@),
        is_plain(failure_json(message), 100),
{
    lemma_envelope_names();
    reveal_with_fuel(is_plain, 2);
}

/// Every saved task has a line, in the order given: its id first, then its turns and the task in
/// full, or that it cannot be read.
pub proof fn law_every_saved_task_has_a_line(tasks: Seq<SavedTask>)
    ensures
        tasks.len() > 0 ==> saved_lines(tasks).len() == tasks.len(),
        tasks.len() == 0 ==> saved_lines(tasks).len() == 1,
        tasks_printed(tasks, false).out == saved_lines(tasks),
        tasks_printed(tasks, false).code == 0,
        tasks_printed(tasks, false).err.len() == 0,
        forall|i: int|
            0 <= i < tasks.len() ==> {
                let line = #[trigger] saved_lines(tasks)[i];
                let id = tasks[i].id@;
                &&& id.len() <= line.len() && line.take(id.len() as int) == id
                &&& tasks[i].state matches Some(state) ==> ends_with(line, state.task@)
                    && contains_seq(line, decimal(state.turn_count as nat)) && contains_seq(
                    line,
                    decimal(state.max_turns as nat),
                )
                &&& tasks[i].state is None ==> ends_with(line, "(unreadable)"@)
            },
{
    assert forall|i: int| 0 <= i < tasks.len() implies {
        let line = #[trigger] saved_lines(tasks)[i];
        let id = tasks[i].id@;
        &&& id.len() <= line.len() && line.take(id.len() as int) == id
        &&& tasks[i].state matches Some(state) ==> ends_with(line, state.task@) && contains_seq(
            line,
            decimal(state.turn_count as nat),
        ) && contains_seq(line, decimal(state.max_turns as nat))
        &&& tasks[i].state is None ==> ends_with(line, "(unreadable)"@)
    } by {
        let line = saved_lines(tasks)[i];
        let id = tasks[i].id@;
        assert(line == saved_line(listed_view(tasks[i]).0, listed_view(tasks[i]).1));
        match tasks[i].state {
            Some(state) => {
                let turn = decimal(state.turn_count as nat);
                let max = decimal(state.max_turns as nat);
                lemma_three_stand(id + "  turn "@, turn, "/"@, max, "  "@, state.task@);
                assert(line.take(id.len() as int) =~= id);
            },
            None => {
                reveal_strlit("  (unreadable)");
                reveal_strlit("(unreadable)");
                assert(line.take(id.len() as int) =~= id);
                assert(line.skip(line.len() - 12) =~= "(unreadable)"@);
            },
        }
    }
}

/// With JSON, every saved task is told in one envelope, in the order given, by its id, its turns and
/// the task in full, or that it cannot be read.
pub proof fn law_every_saved_task_is_told(tasks: Seq<SavedTask>)
    ensures
        tasks_printed(tasks, true).out == seq![pretty(tasks_json(tasks))],
        tasks_printed(tasks, true).code == 0,
        tasks_json(tasks).get("tasks"@) matches Some(JsonView::Array(list)) && list.len()
            == tasks.len() && forall|i: int|
            0 <= i < list.len() ==> (#[trigger] list[i]).text_at("id"@) == Some(tasks[i].id@) && (
            tasks[i].state matches Some(state) ==> list[i].text_at("task"@) == Some(state.task@)
                && list[i].get("turn_count"@) == Some(
                JsonView::Number(decimal(state.turn_count as nat)),
            ) && list[i].get("max_turns"@) == Some(
                JsonView::Number(decimal(state.max_turns as nat)),
            ) && list[i].get("unreadable"@) is None) && (tasks[i].state is None
                ==> list[i].flag_at("unreadable"@) == Some(true)),
{
    lemma_envelope_names();
    reveal_strlit("tasks");
    assert forall|i: int| 0 <= i < tasks.len() implies #[trigger] tasks_json(tasks).get(
        "tasks"@,
    )->0->Array_0[i] == saved_json(listed_view(tasks[i]).0, listed_view(tasks[i]).1) by {}
}

/// Every tool is told of: with JSON by its schema as it is offered, else by its name and by a line
/// for each of its properties.
pub proof fn law_every_tool_is_told_of(all: Seq<JsonView>, i: int)
    requires
        0 <= i < all.len(),
    ensures
        tools_printed(all, true).out == seq![pretty(tools_json(all))],
        tools_json(all).get("tools"@) == Some(JsonView::Array(all)),
        tools_printed(all, false).out == tool_list(all),
        contains_entry(tool_list(all), tool_entry(all[i])),
        member(all[i], "function"@).text_at("name"@) matches Some(name) ==> tool_entry(all[i])[0]
            == name,
        member(all[i], "function"@).text_at("description"@) matches Some(about) ==> ends_with(
            tool_entry(all[i])[1],
            about,
        ),
    decreases all.len(),
{
    if let Some(about) = member(all[i], "function"@).text_at("description"@) {
        lemma_stands_last("  "@, about);
    }
    let front = tool_list(all.drop_last());
    let last = tool_entry(all.last());
    if i < all.len() - 1 {
        law_every_tool_is_told_of(all.drop_last(), i);
        assert(all.drop_last()[i] == all[i]);
        let entry = tool_entry(all[i]);
        let at = choose|at: int| entry_stands(front, entry, at);
        assert((front + last).subrange(at, at + entry.len()) =~= front.subrange(
            at,
            at + entry.len(),
        ));
        assert(entry_stands(front + last, entry, at));
    } else {
        assert((front + last).subrange(front.len() as int, (front.len() + last.len()) as int)
            =~= last);
        assert(entry_stands(tool_list(all), last, front.len() as int));
    }
}

/// Whether some lines stand among others at a place.
pub open spec fn entry_stands(lines: Seq<Seq<char>>, entry: Seq<Seq<char>>, at: int) -> bool {
    0 <= at <= lines.len() - entry.len() && lines.subrange(at, at + entry.len()) == entry
}

/// Whether some lines stand among others, one behind the other.
pub open spec fn contains_entry(lines: Seq<Seq<char>>, entry: Seq<Seq<char>>) -> bool {
    exists|at: int| entry_stands(lines, entry, at)
}

/// A property is told of by its name and what it is about; a star tells that it must be there.
pub proof fn law_properties_are_told_of(parameters: JsonView, key: Seq<char>)
    ensures
        contains_seq(property_line(parameters, key), key),
        array_has(member(parameters, "required"@), key) <==> property_line(parameters, key)[4]
            == '*',
        member(member(parameters, "properties"@), key).text_at("description"@) matches Some(about)
            ==> ends_with(property_line(parameters, key), about),
{
    reveal_strlit("    ");
    reveal_strlit("*");
    reveal_strlit(" ");
    let marker = if array_has(member(parameters, "required"@), key) {
        "*"@
    } else {
        " "@
    };
    let about = crate::schemas::text_or(
        member(member(parameters, "properties"@), key).text_at("description"@),
        ""@,
    );
    let front = "    "@ + marker + " "@;
    lemma_two_stand(front, key, ": "@, about);
    assert(property_line(parameters, key)[4] == marker[0]);
}

/// Tasks are kept where the user wishes: in the agent's own directory where one is set, else below
/// the user's data directory, else below the home directory.
pub proof fn law_tasks_are_kept_where_wished(
    custom: Option<Seq<char>>,
    xdg: Option<Seq<char>>,
    home: Option<Seq<char>>,
)
    ensures
        custom matches Some(dir) ==> state_home(custom, xdg, home) == dir,
        custom is None ==> (xdg matches Some(dir) ==> state_home(custom, xdg, home) == path_below(
            dir,
            "agentic"@,
        )),
        custom is None ==> (xdg matches Some(dir) ==> (dir.len() > 0 && dir.last() != '/'
            ==> state_home(custom, xdg, home) == dir + "/agentic"@)),
        custom is None && xdg is None ==> (home matches Some(dir) ==> (dir.len() > 0 && dir.last()
            != '/' ==> state_home(custom, xdg, home) == dir + "/.local/share/agentic"@)),
        custom is None && xdg is None ==> (home matches Some(dir) ==> state_home(custom, xdg, home)
            == path_below(path_below(path_below(dir, ".local"@), "share"@), "agentic"@)),
        custom is None && xdg is None && home is None ==> state_home(custom, xdg, home)
            == "./.local/share/agentic"@,
{
    reveal_strlit("agentic");
    reveal_strlit("/agentic");
    reveal_strlit(".local");
    reveal_strlit("share");
    reveal_strlit("/");
    reveal_strlit(".");
    reveal_strlit("/.local/share/agentic");
    reveal_strlit("./.local/share/agentic");
    if custom is None {
        if let Some(dir) = xdg {
            if dir.len() > 0 && dir.last() != '/' {
                assert(state_home(custom, xdg, home) =~= dir + "/agentic"@);
            }
        } else {
            let base = match home {
                Some(dir) => dir,
                None => "."@,
            };
            if base.len() > 0 && base.last() != '/' {
                let one = path_below(base, ".local"@);
                assert(one =~= base + "/"@ + ".local"@);
                assert(one.last() == 'l');
                let two = path_below(one, "share"@);
                assert(two =~= one + "/"@ + "share"@);
                assert(two.last() == 'e');
                assert(state_home(custom, xdg, home) =~= base + "/.local/share/agentic"@);
                assert("."@ + "/.local/share/agentic"@ =~= "./.local/share/agentic"@);
            }
        }
    }
}

/// A path that is joined to another ends in it, and an absolute one stands alone.
pub proof fn law_joined_paths_end_in_the_path(base: Seq<char>, path: Seq<char>)
    ensures
        ends_with(path_below(base, path), path),
        path.len() > 0 && path[0] == '/' ==> path_below(base, path) == path,
        base.len() > 0 && base.last() != '/' && path.len() > 0 && path[0] != '/' ==> path_below(
            base,
            path,
        ) == base + seq!['/'] + path,
        base.len() == 0 ==> path_below(base, path) == path,
        base.len() > 0 && base.last() == '/' && path.len() > 0 && path[0] != '/' ==> path_below(
            base,
            path,
        ) == base + path,
{
    reveal_strlit("/");
    assert(base.len() == 0 ==> base + path =~= path);
    lemma_stands_last(Seq::empty(), path);
    assert(Seq::<char>::empty() + path =~= path);
    lemma_stands_last(base, path);
    lemma_stands_last(base + "/"@, path);
    assert("/"@ =~= seq!['/']);
}

/// A task is kept in a file of its own, named by its id, in the directory of the saved tasks.
pub proof fn law_a_task_is_kept_under_its_id(dir: Seq<char>, id: Seq<char>)
    requires
        id.len() > 0,
        id[0] != '/',
    ensures
        ends_with(task_place(dir, id), id + ".json"@),
        task_place(dir, id) == path_below(dir, id + ".json"@),
        dir.len() > 0 && dir.last() != '/' ==> task_place(dir, id) == dir + seq!['/'] + (id
            + ".json"@),
{
    let name = id + ".json"@;
    assert(name[0] == id[0]);
    law_joined_paths_end_in_the_path(dir, name);
}

/// A task that cannot be had is named by its id, with the place at which it was looked for and the
/// reason.
pub proof fn law_missing_tasks_are_named(e: LoadError)
    ensures
        match e {
            LoadError::NotFound { id, looked_at, state_dir } => contains_seq(load_message(e), id@)
                && contains_seq(load_message(e), looked_at@) && ends_with(
                load_message(e),
                state_dir@,
            ),
            LoadError::Corrupt { id, path, reason } => contains_seq(load_message(e), id@)
                && contains_seq(load_message(e), path@) && contains_seq(load_message(e), reason@),
            LoadError::Io(reason) => ends_with(load_message(e), reason@),
        },
{
    match e {
        LoadError::NotFound { id, looked_at, state_dir } => {
            lemma_three_stand(
                "no saved task with id \""@,
                id@,
                "\". looked at "@,
                looked_at@,
                ". saved tasks live in "@,
                state_dir@,
            );
        },
        LoadError::Corrupt { id, path, reason } => {
            let end = ". delete it and start a new task"@;
            let most = "task \""@ + id@ + "\" at "@ + path@ + " is unreadable: "@ + reason@;
            lemma_three_stand("task \""@, id@, "\" at "@, path@, " is unreadable: "@, reason@);
            lemma_stays_before(most, end, id@);
            lemma_stays_before(most, end, path@);
            lemma_stays_before(most, end, reason@);
        },
        LoadError::Io(reason) => {
            lemma_stands_last("could not read task state: "@, reason@);
        },
    }
}

/// The id of a task is the time at which it began and the first group of a random text: what stands
/// before its first hyphen, or all of it where it has none.
pub proof fn law_ids_take_the_first_group(
    stamp: Seq<char>,
    front: Seq<char>,
    back: Seq<char>,
)
    requires
        forall|i: int| 0 <= i < front.len() ==> #[trigger] front[i] != '-',
    ensures
        id_from(stamp, front + seq!['-'] + back) == stamp + seq!['-'] + front,
        id_from(stamp, front) == stamp + seq!['-'] + front,
{
    reveal_strlit("-");
    let random = front + seq!['-'] + back;
    let groups = pieces(back, '-');
    crate::text::lemma_pieces_some(back, '-');
    crate::text_laws::law_pieces_join_to_the_text(back, '-');
    let all = seq![front] + groups;
    assert forall|k: int, i: int| 0 <= k < all.len() && 0 <= i < all[k].len() implies
        #[trigger] all[k][i] != '-' by {
        if k == 0 {
            assert(all[k][i] == front[i]);
        } else {
            assert(all[k] == groups[k - 1]);
            assert(groups[k - 1][i] != '-');
        }
    }
    law_joined_texts_come_apart(all, '-');
    lemma_joined_front(front, groups);
    assert(pieces(random, '-') == all);
    assert(id_from(stamp, random) =~= stamp + seq!['-'] + front);
    let one = seq![front];
    assert forall|k: int, i: int| 0 <= k < one.len() && 0 <= i < one[k].len() implies
        #[trigger] one[k][i] != '-' by {
        assert(one[k][i] == front[i]);
    }
    law_joined_texts_come_apart(one, '-');
    assert(pieces(front, '-') == one);
    assert(id_from(stamp, front) =~= stamp + seq!['-'] + front);
}

/// The id of a task is the time at which it began and the first eight digits of a random id.
pub proof fn law_ids_are_made_of_time_and_chance(stamp: Seq<char>, random: Seq<char>)
    requires
        is_random_id(random),
    ensures
        id_from(stamp, random) == stamp + seq!['-'] + random.take(8),
{
    let front = random.take(8);
    let back = random.skip(9);
    assert(random[8] == '-');
    assert(random =~= front + seq!['-'] + back);
    assert forall|i: int| 0 <= i < front.len() implies #[trigger] front[i] != '-' by {
        assert(front[i] == random[i]);
    }
    law_ids_take_the_first_group(stamp, front, back);
}

proof fn lemma_joined_front(front: Seq<char>, groups: Seq<Seq<char>>)
    requires
        groups.len() > 0,
    ensures
        crate::text::joined(seq![front] + groups, seq!['-']) == front + seq!['-']
            + crate::text::joined(groups, seq!['-']),
    decreases groups.len(),
{
    let all = seq![front] + groups;
    if groups.len() == 1 {
        assert(all.drop_last() =~= seq![front]);
        assert(crate::text::joined(all.drop_last(), seq!['-']) == front);
    } else {
        lemma_joined_front(front, groups.drop_last());
        assert(all.drop_last() =~= seq![front] + groups.drop_last());
        assert(crate::text::joined(all, seq!['-']) =~= front + seq!['-'] + crate::text::joined(
            groups,
            seq!['-'],
        ));
    }
}

/// A saved task is written under the names of its parts, each as it stands.
pub proof fn law_saved_tasks_hold_their_parts(task: TaskView)
    ensures
        task_json(task).text_at("task_id"@) == Some(task.task_id),
        task_json(task).text_at("task"@) == Some(task.task),
        task_json(task).get("turn_count"@) == Some(
            JsonView::Number(decimal(task.turn_count as nat)),
        ),
        task_json(task).get("max_turns"@) == Some(JsonView::Number(decimal(task.max_turns as nat))),
        task_json(task).text_at("model"@) == task.model,
        task_json(task).text_at("config_path"@) == Some(task.config_path),
        task_json(task).flag_at("auto_approve"@) == Some(task.auto_approve),
        task_json(task).text_at("created_at"@) == Some(task.created_at),
        task_json(task).text_at("updated_at"@) == Some(task.updated_at),
{
    reveal_strlit("task_id");
    reveal_strlit("task");
    reveal_strlit("messages");
    reveal_strlit("todos");
    reveal_strlit("turn_count");
    reveal_strlit("max_turns");
    reveal_strlit("model");
    reveal_strlit("config_path");
    reveal_strlit("auto_approve");
    reveal_strlit("created_at");
    reveal_strlit("updated_at");
    assert("task_id"@.len() == 7 && "task"@.len() == 4 && "messages"@.len() == 8 && "todos"@.len()
        == 5 && "todos"@[0] == 't' && "turn_count"@.len() == 10 && "turn_count"@[0] == 't'
        && "max_turns"@.len() == 9 && "model"@.len() == 5 && "model"@[0] == 'm'
        && "config_path"@.len() == 11 && "auto_approve"@.len() == 12 && "created_at"@.len() == 10
        && "created_at"@[0] == 'c' && "updated_at"@.len() == 10 && "updated_at"@[0] == 'u');
}

/// What else a file of a saved task holds makes no difference.
pub proof fn law_unknown_parts_of_a_task_are_ignored(v: JsonView, key: Seq<char>, value: JsonView)
    requires
        key != "task_id"@,
        key != "task"@,
        key != "messages"@,
        key != "todos"@,
        key != "turn_count"@,
        key != "max_turns"@,
        key != "model"@,
        key != "config_path"@,
        key != "auto_approve"@,
        key != "created_at"@,
        key != "updated_at"@,
    ensures
        task_read(v.with(key, value)) == task_read(v),
{
}

/// A member that is entered into an object is there as it was entered, and changes no other.
pub proof fn law_members_are_kept_apart(
    v: JsonView,
    key: Seq<char>,
    value: JsonView,
    other: Seq<char>,
)
    requires
        v is Object,
    ensures
        v.with(key, value).get(key) == Some(value),
        other != key ==> v.with(key, value).get(other) == v.get(other),
        JsonView::empty().get(key) is None,
{
}

/// Each tool is offered as a function, and every argument that must be there is described as one of
/// its properties, with its kind.
pub proof fn law_required_arguments_are_described(i: int, key: Seq<char>)
    requires
        0 <= i < schemas().len(),
        array_has(
            member(member(member(schemas()[i], "function"@), "parameters"@), "required"@),
            key,
        ),
    ensures
        schemas()[i].text_at("type"@) == Some("function"@),
        member(
            member(member(member(schemas()[i], "function"@), "parameters"@), "properties"@),
            key,
        ).text_at("type"@) == Some(
            if key == "items"@ {
                "array"@
            } else {
                "string"@
            },
        ),
{
    reveal_strlit("type");
    reveal_strlit("function");
    reveal_strlit("name");
    reveal_strlit("description");
    reveal_strlit("parameters");
    reveal_strlit("properties");
    reveal_strlit("required");
    assert("type"@.len() == 4 && "type"@[0] == 't' && "function"@.len() == 8 && "name"@.len() == 4
        && "name"@[0] == 'n' && "description"@.len() == 11 && "parameters"@.len() == 10
        && "parameters"@[1] == 'a' && "properties"@.len() == 10 && "properties"@[1] == 'r'
        && "required"@.len() == 8 && "required"@[0] == 'r');
    reveal_strlit("path");
    reveal_strlit("content");
    reveal_strlit("pattern");
    reveal_strlit("query");
    reveal_strlit("command");
    reveal_strlit("args");
    reveal_strlit("items");
    reveal_strlit("result");
    reveal_strlit("blocked");
    assert("path"@.len() == 4 && "path"@[0] == 'p' && "content"@.len() == 7 && "content"@[0] == 'c'
        && "content"@[2] == 'n' && "pattern"@.len() == 7 && "pattern"@[0] == 'p' && "query"@.len()
        == 5 && "query"@[0] == 'q' && "command"@.len() == 7 && "command"@[2] == 'm' && "args"@.len()
        == 4 && "args"@[0] == 'a' && "items"@.len() == 5 && "items"@[0] == 'i' && "result"@.len()
        == 6 && "blocked"@.len() == 7 && "blocked"@[0] == 'b');
    let required = member(
        member(member(schemas()[i], "function"@), "parameters"@),
        "required"@,
    )->Array_0;
    let k = choose|k: int| 0 <= k < required.len() && required[k] == JsonView::Text(key);
    assert(required[k] == JsonView::Text(key));
    assert(schemas().len() == 7);
    assert(items_schema().text_at("type"@) == Some("array"@)) by {
        reveal_strlit("items");
    }
}

/// The items of a todo list are described with the words for a status that are understood, all of
/// them and no others.
pub proof fn law_the_schema_names_the_statuses(status: TodoStatus)
    ensures
        member(
            member(member(member(items_schema(), "items"@), "properties"@), "status"@),
            "enum"@,
        ) matches JsonView::Array(words) && words.len() == 4 && words.contains(
            JsonView::Text(status.name()),
        ),
{
    reveal_strlit("type");
    reveal_strlit("items");
    reveal_strlit("properties");
    reveal_strlit("required");
    reveal_strlit("id");
    reveal_strlit("content");
    reveal_strlit("status");
    reveal_strlit("enum");
    assert("type"@.len() == 4 && "type"@[0] == 't' && "items"@.len() == 5 && "properties"@.len()
        == 10 && "required"@.len() == 8 && "id"@.len() == 2 && "content"@.len() == 7
        && "status"@.len() == 6 && "enum"@.len() == 4 && "enum"@[0] == 'e');
    let words = member(
        member(member(member(items_schema(), "items"@), "properties"@), "status"@),
        "enum"@,
    )->Array_0;
    assert(words[0] == JsonView::Text("pending"@) && words[1] == JsonView::Text("in_progress"@)
        && words[2] == JsonView::Text("completed"@) && words[3] == JsonView::Text("blocked"@));
}

/// A saved task is read from its members, each of its kind, and there is none where one is missing.
pub proof fn law_saved_tasks_are_read_from_their_members(v: JsonView)
    ensures
        task_read(v) matches Ok(task) ==> {
            &&& v.text_at("task_id"@) == Some(task.task_id)
            &&& v.text_at("task"@) == Some(task.task)
            &&& v.get("messages"@) matches Some(JsonView::Array(items)) && messages_read(items)
                == Ok::<Seq<MessageView>, Seq<char>>(task.messages)
            &&& v.get("todos"@) matches Some(JsonView::Array(items)) && todos_read(items) == Ok::<
                Seq<TodoView>,
                Seq<char>,
            >(task.todos)
            &&& v.get("turn_count"@) matches Some(JsonView::Number(text)) && unsigned_of(text)
                == Some(task.turn_count as u64)
            &&& v.get("max_turns"@) matches Some(JsonView::Number(text)) && unsigned_of(text)
                == Some(task.max_turns as u64)
            &&& v.text_at("model"@) == task.model
            &&& v.text_at("config_path"@) == Some(task.config_path)
            &&& v.flag_at("auto_approve"@) == Some(task.auto_approve)
            &&& v.text_at("created_at"@) == Some(task.created_at)
            &&& v.text_at("updated_at"@) == Some(task.updated_at)
        },
        v.get("messages"@) matches Some(JsonView::Array(items)) ==> (messages_read(items) is Err
            ==> task_read(v) is Err),
{
}

/// The items of a saved list are read one by one, all of them and in order; one that cannot be read
/// makes the list unreadable.
pub proof fn law_lists_of_items_are_read_whole(items: Seq<JsonView>)
    ensures
        todos_read(items) matches Ok(todos) ==> todos.len() == items.len() && forall|i: int|
            0 <= i < items.len() ==> todo_read(#[trigger] items[i]) == Ok::<TodoView, Seq<char>>(
                todos[i],
            ),
        todos_read(items) is Err ==> exists|i: int|
            0 <= i < items.len() && todo_read(#[trigger] items[i]) is Err,
    decreases items.len(),
{
    if items.len() > 0 {
        let fewer = items.drop_last();
        law_lists_of_items_are_read_whole(fewer);
        if todos_read(items) is Ok {
            let todos = todos_read(items)->Ok_0;
            assert forall|i: int| 0 <= i < items.len() implies todo_read(#[trigger] items[i])
                == Ok::<TodoView, Seq<char>>(todos[i]) by {
                if i < fewer.len() {
                    assert(fewer[i] == items[i]);
                }
            }
        } else if todos_read(fewer) is Err {
            let i = choose|i: int| 0 <= i < fewer.len() && todo_read(#[trigger] fewer[i]) is Err;
            assert(items[i] == fewer[i]);
        } else {
            assert(todo_read(items[items.len() - 1]) is Err);
        }
    }
}

/// A saved item is read from its members, and its status from the name under which it is stored and
/// from no other.
pub proof fn law_saved_items_are_read_from_their_members(v: JsonView)
    ensures
        todo_read(v) matches Ok(item) ==> v.text_at("id"@) == Some(item.id) && v.text_at(
            "content"@,
        ) == Some(item.content) && v.text_at("status"@) == Some(item.status.stored_name()),
{
}

/// The first character in which two texts differ decides which comes first; a text comes before
/// those that it begins.
pub proof fn law_the_first_difference_decides(
    front: Seq<char>,
    a: Seq<char>,
    b: Seq<char>,
)
    requires
        b.len() > 0,
        a.len() == 0 || a[0] < b[0],
    ensures
        before(front + a, front + b),
    decreases front.len(),
{
    if front.len() > 0 {
        law_the_first_difference_decides(front.drop_first(), a, b);
        assert((front + a).drop_first() =~= front.drop_first() + a);
        assert((front + b).drop_first() =~= front.drop_first() + b);
    } else {
        assert(front + a =~= a);
        assert(front + b =~= b);
    }
}

/// The lines for a tool are its name, what it is about, a line for each of its properties and an
/// empty one.
pub proof fn law_every_property_has_a_line(schema: JsonView, k: int)
    requires
        0 <= k < member(
            member(member(schema, "function"@), "parameters"@),
            "properties"@,
        ).names().len(),
    ensures
        ({
            let parameters = member(member(schema, "function"@), "parameters"@);
            let names = member(parameters, "properties"@).names();
            &&& tool_entry(schema).len() == names.len() + 3
            &&& tool_entry(schema)[k + 2] == property_line(parameters, names[k])
            &&& tool_entry(schema).last() == ""@
        }),
{
}

/// The tools are listed one after the other, each once.
pub proof fn law_tools_are_listed_once(all: Seq<JsonView>, more: JsonView)
    ensures
        tool_list(all.push(more)) == tool_list(all) + tool_entry(more),
        tool_list(Seq::empty()).len() == 0,
{
    assert(all.push(more).drop_last() =~= all);
}

}
