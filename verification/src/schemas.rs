//! The tools as they are offered to the model, and as they are listed for the user.

use vstd::prelude::*;
use vstd::string::*;

use crate::json::{Json, JsonView};
use crate::llm::json_views;
use crate::text::{same_text, views};
use crate::tools::glue;

verus! {

/// The schema of a value with a description.
pub open spec fn described(kind: Seq<char>, about: Seq<char>) -> JsonView {
    JsonView::empty().with("type"@, JsonView::Text(kind)).with(
        "description"@,
        JsonView::Text(about),
    )
}

/// The texts of a list as a JSON array.
pub open spec fn text_array(items: Seq<Seq<char>>) -> JsonView {
    JsonView::Array(Seq::new(items.len(), |i: int| JsonView::Text(items[i])))
}

/// The schema of an object with those properties, of which some must be there.
pub open spec fn object_schema(properties: JsonView, required: Seq<Seq<char>>) -> JsonView {
    JsonView::empty().with("type"@, JsonView::Text("object"@)).with("properties"@, properties).with(
        "required"@,
        text_array(required),
    )
}

/// The schema of a tool.
pub open spec fn tool_schema(
    name: Seq<char>,
    about: Seq<char>,
    properties: JsonView,
    required: Seq<Seq<char>>,
) -> JsonView {
    JsonView::empty().with("type"@, JsonView::Text("function"@)).with(
        "function"@,
        JsonView::empty().with("name"@, JsonView::Text(name)).with(
            "description"@,
            JsonView::Text(about),
        ).with("parameters"@, object_schema(properties, required)),
    )
}

/// The schema of a value with a description.
fn describe(kind: &str, about: &str) -> (r: Json)
    ensures
        r@ == described(kind@, about@),
{
    Json::object().with("type", Json::text(kind)).with("description", Json::text(about))
}

/// One text in a list.
fn one(a: &str) -> (r: Vec<String>)
    ensures
        views(r@) == seq![a@],
{
    let mut out: Vec<String> = Vec::new();
    out.push(a.to_string());
    assert(views(out@) =~= seq![a@]);
    out
}

/// Two texts in a list.
fn two(a: &str, b: &str) -> (r: Vec<String>)
    ensures
        views(r@) == seq![a@, b@],
{
    let mut out: Vec<String> = Vec::new();
    out.push(a.to_string());
    out.push(b.to_string());
    assert(views(out@) =~= seq![a@, b@]);
    out
}

/// Three texts in a list.
fn three(a: &str, b: &str, c: &str) -> (r: Vec<String>)
    ensures
        views(r@) == seq![a@, b@, c@],
{
    let mut out: Vec<String> = Vec::new();
    out.push(a.to_string());
    out.push(b.to_string());
    out.push(c.to_string());
    assert(views(out@) =~= seq![a@, b@, c@]);
    out
}

/// The texts of a list as a JSON array.
fn array_of(items: &Vec<String>) -> (r: Json)
    ensures
        r@ == text_array(views(items@)),
{
    let r = Json::texts(items);
    assert(r@->Array_0 =~= text_array(views(items@))->Array_0);
    r
}

/// The schema of an object with those properties, of which some must be there.
fn object_with(properties: Json, required: &Vec<String>) -> (r: Json)
    ensures
        r@ == object_schema(properties@, views(required@)),
{
    Json::object().with("type", Json::text("object")).with("properties", properties).with(
        "required",
        array_of(required),
    )
}

/// The schema of a tool.
fn tool(name: &str, about: &str, properties: Json, required: &Vec<String>) -> (r: Json)
    ensures
        r@ == tool_schema(name@, about@, properties@, views(required@)),
{
    Json::object().with("type", Json::text("function")).with(
        "function",
        Json::object().with("name", Json::text(name)).with("description", Json::text(about)).with(
            "parameters",
            object_with(properties, required),
        ),
    )
}

/// The schema of the arguments of a command.
pub open spec fn args_schema() -> JsonView {
    JsonView::empty().with("type"@, JsonView::Text("array"@)).with(
        "items"@,
        JsonView::empty().with("type"@, JsonView::Text("string"@)),
    ).with("description"@, JsonView::Text("arguments to pass"@))
}

/// The schema of the items of a todo list.
pub open spec fn items_schema() -> JsonView {
    JsonView::empty().with("type"@, JsonView::Text("array"@)).with(
        "items"@,
        object_schema(
            JsonView::empty().with("id"@, described("string"@, "stable identifier like 'step1'"@)).with(
                "content"@,
                described("string"@, "what needs to be done"@),
            ).with(
                "status"@,
                JsonView::empty().with("type"@, JsonView::Text("string"@)).with(
                    "enum"@,
                    text_array(seq!["pending"@, "in_progress"@, "completed"@, "blocked"@]),
                ),
            ),
            seq!["id"@, "content"@, "status"@],
        ),
    )
}

/// The schema of the items of a todo list.
fn items_described() -> (r: Json)
    ensures
        r@ == items_schema(),
{
    let mut states: Vec<String> = Vec::new();
    states.push("pending".to_string());
    states.push("in_progress".to_string());
    states.push("completed".to_string());
    states.push("blocked".to_string());
    assert(views(states@) =~= seq!["pending"@, "in_progress"@, "completed"@, "blocked"@]);
    let item = Json::object().with(
        "id",
        describe("string", "stable identifier like 'step1'"),
    ).with("content", describe("string", "what needs to be done")).with(
        "status",
        Json::object().with("type", Json::text("string")).with("enum", array_of(&states)),
    );
    let required = three("id", "content", "status");
    Json::object().with("type", Json::text("array")).with("items", object_with(item, &required))
}

/// The schema of `read`.
pub open spec fn read_schema() -> JsonView {
    tool_schema(
        "read"@,
        "Read a text file from disk. Returns the file contents. Fails on binary files, missing files, or directories."@,
        JsonView::empty().with(
            "path"@,
            described("string"@, "absolute or relative path to the file"@),
        ),
        seq!["path"@],
    )
}

/// The schema of `read`.
fn read_tool() -> (r: Json)
    ensures
        r@ == read_schema(),
{
    tool(
        "read",
        "Read a text file from disk. Returns the file contents. Fails on binary files, missing files, or directories.",
        Json::object().with("path", describe("string", "absolute or relative path to the file")),
        &one("path"),
    )
}

/// The schema of `write`.
pub open spec fn write_schema() -> JsonView {
    tool_schema(
        "write"@,
        "Write text content to a file. Overwrites if it exists. Atomic: writes to a temp file then renames."@,
        JsonView::empty().with(
            "path"@,
            described("string"@, "file path to write"@),
        ).with(
            "content"@,
            described("string"@, "the full text content to write"@),
        ),
        seq!["path"@, "content"@],
    )
}

/// The schema of `write`.
fn write_tool() -> (r: Json)
    ensures
        r@ == write_schema(),
{
    tool(
        "write",
        "Write text content to a file. Overwrites if it exists. Atomic: writes to a temp file then renames.",
        Json::object().with(
            "path",
            describe("string", "file path to write"),
        ).with(
            "content",
            describe("string", "the full text content to write"),
        ),
        &two("path", "content"),
    )
}

/// The schema of `grep`.
pub open spec fn grep_schema() -> JsonView {
    tool_schema(
        "grep"@,
        "Search file contents using ripgrep. Returns matching lines with line numbers."@,
        JsonView::empty().with(
            "pattern"@,
            described("string"@, "regex pattern to search for"@),
        ).with(
            "path"@,
            described("string"@, "file or directory to search in (default: current directory)"@),
        ),
        seq!["pattern"@],
    )
}

/// The schema of `grep`.
fn grep_tool() -> (r: Json)
    ensures
        r@ == grep_schema(),
{
    tool(
        "grep",
        "Search file contents using ripgrep. Returns matching lines with line numbers.",
        Json::object().with(
            "pattern",
            describe("string", "regex pattern to search for"),
        ).with(
            "path",
            describe("string", "file or directory to search in (default: current directory)"),
        ),
        &one("pattern"),
    )
}

/// The schema of `search`.
pub open spec fn search_schema() -> JsonView {
    tool_schema(
        "search"@,
        "Search the web using ddgr (DuckDuckGo). Returns up to 5 results."@,
        JsonView::empty().with("query"@, described("string"@, "search query"@)),
        seq!["query"@],
    )
}

/// The schema of `search`.
fn search_tool() -> (r: Json)
    ensures
        r@ == search_schema(),
{
    tool(
        "search",
        "Search the web using ddgr (DuckDuckGo). Returns up to 5 results.",
        Json::object().with("query", describe("string", "search query")),
        &one("query"),
    )
}

/// The schema of `exec`.
pub open spec fn exec_schema() -> JsonView {
    tool_schema(
        "exec"@,
        "Run a command with arguments. No shell features (pipes, redirects). Destructive commands (rm, sudo, git push, etc) are blocked unless the user passed --yes."@,
        JsonView::empty().with(
            "command"@,
            described("string"@, "the program to run, like 'ls' or 'cargo'"@),
        ).with(
            "args"@,
            args_schema(),
        ),
        seq!["command"@],
    )
}

/// The schema of `exec`.
fn exec_tool() -> (r: Json)
    ensures
        r@ == exec_schema(),
{
    tool(
        "exec",
        "Run a command with arguments. No shell features (pipes, redirects). Destructive commands (rm, sudo, git push, etc) are blocked unless the user passed --yes.",
        Json::object().with(
            "command",
            describe("string", "the program to run, like 'ls' or 'cargo'"),
        ).with(
            "args",
            Json::object().with(
                "type",
                Json::text("array"),
            ).with(
                "items",
                Json::object().with("type", Json::text("string")),
            ).with(
                "description",
                Json::text("arguments to pass"),
            ),
        ),
        &one("command"),
    )
}

/// The schema of `todo_update`.
pub open spec fn todo_update_schema() -> JsonView {
    tool_schema(
        "todo_update"@,
        "Set the task todo list. Each item is added or updated by id (upsert). Send only the items you want to add or change."@,
        JsonView::empty().with("items"@, items_schema()),
        seq!["items"@],
    )
}

/// The schema of `todo_update`.
fn todo_update_tool() -> (r: Json)
    ensures
        r@ == todo_update_schema(),
{
    tool(
        "todo_update",
        "Set the task todo list. Each item is added or updated by id (upsert). Send only the items you want to add or change.",
        Json::object().with("items", items_described()),
        &one("items"),
    )
}

/// The schema of `finish`.
pub open spec fn finish_schema() -> JsonView {
    tool_schema(
        "finish"@,
        "Signal that the task is complete or blocked. Always call this when done; do not just stop responding."@,
        JsonView::empty().with(
            "result"@,
            described("string"@, "summary of what was accomplished"@),
        ).with(
            "blocked"@,
            described(
                "boolean"@,
                "true if the task cannot be completed. explain why in 'result'"@,
            ),
        ),
        seq!["result"@],
    )
}

/// The schema of `finish`.
fn finish_tool() -> (r: Json)
    ensures
        r@ == finish_schema(),
{
    tool(
        "finish",
        "Signal that the task is complete or blocked. Always call this when done; do not just stop responding.",
        Json::object().with(
            "result",
            describe("string", "summary of what was accomplished"),
        ).with(
            "blocked",
            describe("boolean", "true if the task cannot be completed. explain why in 'result'"),
        ),
        &one("result"),
    )
}

/// The schemas of all tools.
pub open spec fn schemas() -> Seq<JsonView> {
    seq![
        read_schema(),
        write_schema(),
        grep_schema(),
        search_schema(),
        exec_schema(),
        todo_update_schema(),
        finish_schema(),
    ]
}

/// The schemas of all tools, as they are offered to the model.
pub fn tool_schemas() -> (r: Vec<Json>)
    ensures
        json_views(r@) == schemas(),
{
    let mut out: Vec<Json> = Vec::new();
    out.push(read_tool());
    out.push(write_tool());
    out.push(grep_tool());
    out.push(search_tool());
    out.push(exec_tool());
    out.push(todo_update_tool());
    out.push(finish_tool());
    assert(json_views(out@) =~= schemas());
    out
}

/// The member of that name, or null.
pub open spec fn member(v: JsonView, key: Seq<char>) -> JsonView {
    match v.get(key) {
        Some(inner) => inner,
        None => JsonView::Null,
    }
}

/// A text that may be missing, with what stands for it then.
pub open spec fn text_or(text: Option<Seq<char>>, other: Seq<char>) -> Seq<char> {
    match text {
        Some(t) => t,
        None => other,
    }
}

/// Whether a text is among the elements of an array.
pub open spec fn array_has(v: JsonView, text: Seq<char>) -> bool {
    v is Array && v->Array_0.contains(JsonView::Text(text))
}

/// The line for one property of a tool; a star marks those that must be there.
pub open spec fn property_line(parameters: JsonView, key: Seq<char>) -> Seq<char> {
    let marker = if array_has(member(parameters, "required"@), key) {
        "*"@
    } else {
        " "@
    };
    let about = text_or(
        member(member(parameters, "properties"@), key).text_at("description"@),
        ""@,
    );
    "    "@ + marker + " "@ + key + ": "@ + about
}

/// The lines for one tool: its name, what it does, its properties, and an empty line.
pub open spec fn tool_entry(schema: JsonView) -> Seq<Seq<char>> {
    let function = member(schema, "function"@);
    let parameters = member(function, "parameters"@);
    let keys = member(parameters, "properties"@).names();
    seq![
        text_or(function.text_at("name"@), "?"@),
        "  "@ + text_or(function.text_at("description"@), ""@),
    ] + Seq::new(keys.len(), |i: int| property_line(parameters, keys[i])) + seq![""@]
}

/// The lines for all tools.
pub open spec fn tool_list(schemas: Seq<JsonView>) -> Seq<Seq<char>>
    decreases schemas.len(),
{
    if schemas.len() == 0 {
        Seq::empty()
    } else {
        tool_list(schemas.drop_last()) + tool_entry(schemas.last())
    }
}

/// The member of that name, or null.
fn member_of(v: &Json, key: &str) -> (r: Json)
    ensures
        r@ == member(v@, key@),
{
    match v.get(key) {
        Some(inner) => inner.clone(),
        None => Json::Null,
    }
}

/// Whether a text is among the elements of an array.
fn has_text(v: &Json, text: &str) -> (r: bool)
    ensures
        r == array_has(v@, text@),
{
    match v.as_array() {
        Some(items) => {
            let ghost all = v@->Array_0;
            for i in 0..items.len()
                invariant
                    all == Seq::new(items@.len(), |i: int| items@[i]@),
                    v@ == JsonView::Array(all),
                    forall|k: int| 0 <= k < i ==> all[k] != JsonView::Text(text@),
            {
                if let Some(s) = items[i].as_str() {
                    if same_text(s, text) {
                        assert(all[i as int] == JsonView::Text(text@));
                        return true;
                    }
                }
            }
            false
        },
        None => false,
    }
}

/// The line for one property of a tool; a star marks those that must be there.
fn line_for(parameters: &Json, key: &str) -> (r: String)
    ensures
        r@ == property_line(parameters@, key@),
{
    let mut out = "    ".to_string();
    if has_text(&member_of(parameters, "required"), key) {
        out.append("*");
    } else {
        out.append(" ");
    }
    out.append(" ");
    out.append(key);
    out.append(": ");
    let property = member_of(&member_of(parameters, "properties"), key);
    match property.str_at("description") {
        Some(about) => out.append(about),
        None => out.append(""),
    }
    out
}

/// Adds the lines for one tool.
fn add_entry(out: &mut Vec<String>, schema: &Json)
    ensures
        views(final(out)@) == views(old(out)@) + tool_entry(schema@),
{
    let ghost start = views(out@);
    let function = member_of(schema, "function");
    let parameters = member_of(&function, "parameters");
    let keys = member_of(&parameters, "properties").keys();
    let name = match function.str_at("name") {
        Some(s) => s.to_string(),
        None => "?".to_string(),
    };
    let about = match function.str_at("description") {
        Some(s) => s.to_string(),
        None => "".to_string(),
    };
    let ghost first = name@;
    let ghost second = "  "@ + about@;
    out.push(name);
    out.push(glue("  ", about.as_str()));
    let ghost names = views(keys@);
    assert(views(out@) =~= start + seq![first, second]);
    for i in 0..keys.len()
        invariant
            names == views(keys@),
            views(out@) == start + seq![first, second] + Seq::new(
                i as nat,
                |k: int| property_line(parameters@, names[k]),
            ),
    {
        let ghost before = views(out@);
        let line = line_for(&parameters, keys[i].as_str());
        let ghost text = line@;
        out.push(line);
        assert(views(out@) =~= before.push(text));
        assert(views(out@) =~= start + seq![first, second] + Seq::new(
            (i + 1) as nat,
            |k: int| property_line(parameters@, names[k]),
        ));
    }
    let ghost before = views(out@);
    out.push("".to_string());
    assert(views(out@) =~= before.push(""@));
    assert(views(out@) =~= start + tool_entry(schema@));
}

/// The lines in which the user sees the tools.
pub fn tool_lines(schemas: &Vec<Json>) -> (r: Vec<String>)
    ensures
        views(r@) == tool_list(json_views(schemas@)),
{
    let mut out: Vec<String> = Vec::new();
    let ghost all = json_views(schemas@);
    assert(views(out@) =~= tool_list(all.take(0)));
    for i in 0..schemas.len()
        invariant
            all == json_views(schemas@),
            views(out@) == tool_list(all.take(i as int)),
    {
        assert(all.take(i + 1).drop_last() =~= all.take(i as int));
        assert(all.take(i + 1).last() == schemas@[i as int]@);
        add_entry(&mut out, &schemas[i]);
    }
    assert(all.take(all.len() as int) =~= all);
    out
}

}
