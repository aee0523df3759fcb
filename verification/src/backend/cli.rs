//! Runs through `codex exec`.

use crate::backend::{
    wrap_prompt, wrapped_prompt, BackendExecutionResult, BackendRequest, BackendSessionSummary,
    ExecutionModel, SummaryModel,
};
use crate::config::Config;
use crate::json::{opt_str, opt_tree, parse, parsed_bytes, trees, Json, JsonTree};
use crate::order::{lemma_newest_first_map, newest_first, newest_order, places};
use crate::sessions::first_items;
use crate::state::OptionsModel;
use crate::text::{
    characters, decode_lossy, first_chars, is_blank, join, joined, lines, lossy_text, opt_text,
    replace, replaced, same_text, take_chars, text_between, text_lines, trim, trimmed, views,
};
use std::sync::Arc;
use vstd::prelude::*;
use vstd::string::*;
use vstd::utf8::*;

verus! {

/// The backend that runs `codex exec`.
pub struct CliBackend {
    pub config: Arc<Config>,
}

/// A text with a backslash before each backslash and each quotation mark.
pub open spec fn escaped(text: Seq<char>) -> Seq<char> {
    replaced(replaced(text, '\\', "\\\\"@), '"', "\\\""@)
}

/// A text between quotation marks, with backslashes before the backslashes and quotation marks in
/// it.
pub open spec fn quoted(text: Seq<char>) -> Seq<char> {
    "\""@ + escaped(text) + "\""@
}

/// What a reader takes from a text after an opening quotation mark: the characters up to the next
/// quotation mark without a backslash before it, and what follows that. A backslash stands for
/// nothing but the character after it.
pub open spec fn read_quoted(s: Seq<char>) -> Option<(Seq<char>, Seq<char>)>
    decreases s.len(),
{
    if s.len() == 0 {
        None
    } else if s[0] == '"' {
        Some((Seq::empty(), s.skip(1)))
    } else if s[0] == '\\' {
        if s.len() == 1 {
            None
        } else {
            match read_quoted(s.skip(2)) {
                Some((text, rest)) => Some((seq![s[1]] + text, rest)),
                None => None,
            }
        }
    } else {
        match read_quoted(s.skip(1)) {
            Some((text, rest)) => Some((seq![s[0]] + text, rest)),
            None => None,
        }
    }
}

/// Replacing goes part by part.
proof fn lemma_replaced_parts(a: Seq<char>, b: Seq<char>, c: char, with: Seq<char>)
    ensures
        replaced(a + b, c, with) == replaced(a, c, with) + replaced(b, c, with),
    decreases b.len(),
{
    if b.len() == 0 {
        assert(a + b =~= a);
        assert(replaced(a, c, with) + replaced(b, c, with) =~= replaced(a, c, with));
    } else {
        lemma_replaced_parts(a, b.drop_last(), c, with);
        assert((a + b).drop_last() =~= a + b.drop_last());
        assert((a + b).last() == b.last());
        assert(replaced(a + b, c, with) =~= replaced(a, c, with) + replaced(b, c, with));
    }
}

/// The replacement of one character.
proof fn lemma_replaced_one(d: char, c: char, with: Seq<char>)
    ensures
        replaced(seq![d], c, with) == (if d == c {
            with
        } else {
            seq![d]
        }),
{
    assert(seq![d].drop_last() =~= Seq::<char>::empty());
    assert(replaced(Seq::<char>::empty(), c, with) =~= Seq::<char>::empty());
    assert(seq![d].last() == d);
    assert(replaced(seq![d], c, with) =~= (if d == c {
        with
    } else {
        seq![d]
    }));
}

/// A reader gets a quoted text back: the text itself, and what was written after it.
pub proof fn law_quoted_text_reads_back(text: Seq<char>, rest: Seq<char>)
    ensures
        read_quoted(escaped(text) + "\""@ + rest) == Some((text, rest)),
    decreases text.len(),
{
    reveal_strlit("\"");
    reveal_strlit("\\\\");
    reveal_strlit("\\\"");
    let mark = "\""@;
    if text.len() == 0 {
        let s = escaped(text) + mark + rest;
        assert(s[0] == '"');
        assert(s.skip(1) =~= rest);
    } else {
        let c = text[0];
        let tail = text.drop_first();
        law_quoted_text_reads_back(tail, rest);
        assert(text =~= seq![c] + tail);
        let slashes = "\\\\"@;
        let marked = "\\\""@;
        lemma_replaced_parts(seq![c], tail, '\\', slashes);
        lemma_replaced_one(c, '\\', slashes);
        let head = replaced(seq![c], '\\', slashes);
        lemma_replaced_parts(head, replaced(tail, '\\', slashes), '"', marked);
        let written = replaced(head, '"', marked);
        assert(escaped(text) == written + escaped(tail));
        let s = escaped(text) + mark + rest;
        let after = escaped(tail) + mark + rest;
        if c == '\\' {
            assert(slashes =~= seq!['\\'] + seq!['\\']);
            lemma_replaced_parts(seq!['\\'], seq!['\\'], '"', marked);
            lemma_replaced_one('\\', '"', marked);
            assert(written =~= slashes);
            assert(s.skip(2) =~= after);
            assert(s[0] == '\\' && s[1] == c);
        } else if c == '"' {
            lemma_replaced_one(c, '"', marked);
            assert(s.skip(2) =~= after);
            assert(s[0] == '\\' && s[1] == c);
        } else {
            lemma_replaced_one(c, '"', marked);
            assert(s.skip(1) =~= after);
            assert(s[0] == c);
        }
        assert(seq![c] + tail =~= text);
    }
}

/// The TOML array of the texts.
pub open spec fn toml_array(values: Seq<Seq<char>>) -> Seq<char> {
    "["@ + joined(values.map_values(|v: Seq<char>| quoted(v)), ","@) + "]"@
}

/// The TOML array of the texts.
pub fn toml_string_array(values: &Vec<String>) -> (text: String)
    ensures
        text@ == toml_array(views(values@)),
{
    let mut parts: Vec<String> = Vec::new();
    let mut i: usize = 0;
    while i < values.len()
        invariant
            i <= values.len(),
            parts.len() == i,
            forall|j: int| 0 <= j < i ==> (#[trigger] parts@[j])@ == quoted(values@[j]@),
        decreases values.len() - i,
    {
        let escaped = replace(replace(values[i].as_str(), '\\', "\\\\").as_str(), '"', "\\\"");
        let mut part = "\"".to_owned();
        part.append(escaped.as_str());
        part.append("\"");
        parts.push(part);
        i = i + 1;
    }
    assert(views(parts@) =~= views(values@).map_values(|v: Seq<char>| quoted(v)));
    let mut text = "[".to_owned();
    text.append(join(&parts, ",").as_str());
    text.append("]");
    text
}

/// The TOML array of the texts, between quotation marks and with a backslash before each in it.
pub open spec fn quoted_toml_array(values: Seq<Seq<char>>) -> Seq<char> {
    "\""@ + replaced(toml_array(values), '"', "\\\""@) + "\""@
}

/// The TOML array of the texts, between quotation marks and with a backslash before each in it.
pub fn shell_double_quoted_toml_string_array(values: &Vec<String>) -> (text: String)
    ensures
        text@ == quoted_toml_array(views(values@)),
{
    let inner = replace(toml_string_array(values).as_str(), '"', "\\\"");
    let mut text = "\"".to_owned();
    text.append(inner.as_str());
    text.append("\"");
    text
}

/// The arguments that grant permissions to a task that may write.
pub open spec fn permission_arguments(write_enabled: bool, permissions: Seq<Seq<char>>) -> Seq<
    Seq<char>,
> {
    if !write_enabled || permissions.len() == 0 {
        Seq::empty()
    } else {
        seq!["-c"@, "sandbox_permissions="@ + quoted_toml_array(permissions)]
    }
}

/// The arguments that keep Codex from asking, and set its sandbox.
pub open spec fn policy_arguments(sandbox_mode: Seq<char>) -> Seq<Seq<char>> {
    seq![
        "--json"@,
        "--skip-git-repo-check"@,
        "-c"@,
        "approval_policy=\"never\""@,
        "-c"@,
        "sandbox_mode=\""@ + sandbox_mode + "\""@,
    ]
}

/// The arguments of Codex for a run: it goes on with the session, or begins a new one in the
/// working directory.
pub open spec fn run_arguments(
    session: Option<Seq<char>>,
    options: OptionsModel,
    prompt: Seq<char>,
    permissions: Seq<Seq<char>>,
) -> Seq<Seq<char>> {
    let policy = policy_arguments(options.sandbox_mode) + permission_arguments(
        options.write_enabled,
        permissions,
    );
    let wrapped = wrapped_prompt(prompt, options.write_enabled);
    match session {
        Some(id) => seq!["exec"@, "resume"@] + policy + seq![id, wrapped],
        None => seq!["exec"@] + policy + seq!["-C"@, options.working_directory, wrapped],
    }
}

/// Appends a copy of an argument.
fn push_argument(arguments: &mut Vec<String>, argument: &str)
    ensures
        views(final(arguments)@) == views(old(arguments)@).push(argument@),
{
    let ghost before = arguments@;
    arguments.push(argument.to_owned());
    assert(views(arguments@) =~= views(before).push(argument@));
}

/// Appends the arguments that grant permissions to a task that may write.
pub fn append_write_mode_sandbox_permissions(
    arguments: &mut Vec<String>,
    write_enabled: bool,
    permissions: &Vec<String>,
)
    ensures
        views(final(arguments)@) == views(old(arguments)@) + permission_arguments(
            write_enabled,
            views(permissions@),
        ),
{
    let ghost before = views(arguments@);
    if !write_enabled || permissions.len() == 0 {
        assert(before =~= before + permission_arguments(write_enabled, views(permissions@)));
        return ;
    }
    push_argument(arguments, "-c");
    let mut value = "sandbox_permissions=".to_owned();
    value.append(shell_double_quoted_toml_string_array(permissions).as_str());
    push_argument(arguments, value.as_str());
    assert(views(arguments@) =~= before + permission_arguments(
        write_enabled,
        views(permissions@),
    ));
}

impl CliBackend {
    /// The backend with a configuration.
    pub fn new(config: Arc<Config>) -> (backend: CliBackend)
        ensures
            backend.config == config,
    {
        CliBackend { config }
    }

    /// The name of the backend in context records.
    pub fn kind(&self) -> (name: &'static str)
        ensures
            name@ == "codex-cli"@,
    {
        "codex-cli"
    }

    /// The arguments of Codex for a run.
    pub fn arguments(&self, request: &BackendRequest) -> (arguments: Vec<String>)
        ensures
            views(arguments@) == run_arguments(
                opt_text(request.resume_session_id),
                request.options@,
                request.prompt@,
                views(self.config.write_mode_sandbox_permissions@),
            ),
    {
        let options = &request.options;
        let mut arguments: Vec<String> = Vec::new();
        assert(views(arguments@) =~= Seq::<Seq<char>>::empty());
        push_argument(&mut arguments, "exec");
        if request.resume_session_id.is_some() {
            push_argument(&mut arguments, "resume");
        }
        push_argument(&mut arguments, "--json");
        push_argument(&mut arguments, "--skip-git-repo-check");
        push_argument(&mut arguments, "-c");
        push_argument(&mut arguments, "approval_policy=\"never\"");
        push_argument(&mut arguments, "-c");
        let mut sandbox = "sandbox_mode=\"".to_owned();
        sandbox.append(options.sandbox_mode.as_str());
        sandbox.append("\"");
        push_argument(&mut arguments, sandbox.as_str());
        append_write_mode_sandbox_permissions(
            &mut arguments,
            options.write_enabled,
            &self.config.write_mode_sandbox_permissions,
        );
        match &request.resume_session_id {
            Some(id) => push_argument(&mut arguments, id.as_str()),
            None => {
                push_argument(&mut arguments, "-C");
                push_argument(&mut arguments, options.working_directory.as_str());
            },
        }
        push_argument(&mut arguments, wrap_prompt(request.prompt.as_str(), options).as_str());
        assert(views(arguments@) =~= run_arguments(
            opt_text(request.resume_session_id),
            options@,
            request.prompt@,
            views(self.config.write_mode_sandbox_permissions@),
        ));
        arguments
    }
}

/// The event on a line, where it is a JSON document.
pub open spec fn event_on(line: Seq<char>) -> Option<JsonTree> {
    parsed_bytes(encode_utf8(line))
}

/// The event on a line.
pub fn read_event(line: &str) -> (event: Option<Json>)
    ensures
        match event {
            Some(e) => event_on(line@) == Some(e@),
            None => event_on(line@) is None,
        },
{
    parse(line.as_bytes_vec().as_slice())
}

/// The event has the type.
pub open spec fn has_type(event: JsonTree, name: Seq<char>) -> bool {
    event.text_at("type"@) == Some(name)
}

/// Tells whether the event has the type.
pub fn is_of_type(event: &Json, name: &str) -> (yes: bool)
    ensures
        yes == has_type(event@, name@),
{
    match event.text_at("type") {
        Some(text) => same_text(text, name),
        None => false,
    }
}

/// The session that an event says the run has.
pub open spec fn session_after(session: Option<Seq<char>>, event: JsonTree) -> Option<Seq<char>> {
    if has_type(event, "thread.started"@) {
        event.text_at("thread_id"@)
    } else {
        session
    }
}

/// The message of the agent after an event.
pub open spec fn message_after(message: Seq<char>, event: JsonTree) -> Seq<char> {
    let item = event.at("item"@);
    if has_type(event, "item.completed"@) && has_type(item, "agent_message"@) {
        match item.text_at("text"@) {
            Some(text) => text,
            None => message,
        }
    } else {
        message
    }
}

/// The last message of the agent and the session of the run, after an event or a line that is none.
pub open spec fn heard_event(
    message: Seq<char>,
    session: Option<Seq<char>>,
    event: Option<JsonTree>,
) -> (Seq<char>, Option<Seq<char>>) {
    match event {
        Some(event) => (message_after(message, event), session_after(session, event)),
        None => (message, session),
    }
}

/// Takes in an event of a run, or a line that is none.
pub fn hear_event(message: String, session: Option<String>, event: Option<&Json>) -> (heard: (
    String,
    Option<String>,
))
    ensures
        (heard.0@, opt_text(heard.1)) == heard_event(message@, opt_text(session), opt_tree(event)),
{
    let event = match event {
        Some(event) => event,
        None => return (message, session),
    };
    let session = if is_of_type(event, "thread.started") {
        match event.text_at("thread_id") {
            Some(id) => Some(id.to_owned()),
            None => None,
        }
    } else {
        session
    };
    if is_of_type(event, "item.completed") {
        let item = event.at("item");
        if is_of_type(&item, "agent_message") {
            match item.text_at("text") {
                Some(text) => return (text.to_owned(), session),
                None => {},
            }
        }
    }
    (message, session)
}

/// The last message of the agent on the lines, and the session that they name last.
pub open spec fn heard(lines: Seq<Seq<char>>) -> (Seq<char>, Option<Seq<char>>)
    decreases lines.len(),
{
    if lines.len() == 0 {
        (Seq::empty(), None)
    } else {
        let (message, session) = heard(lines.drop_last());
        heard_event(message, session, event_on(lines.last()))
    }
}

/// How a run ended, from what was heard of it and what it wrote. Where it failed, the message is
/// what it wrote to the error output, or else to the output.
pub open spec fn concluded(
    success: bool,
    message: Seq<char>,
    session: Option<Seq<char>>,
    stdout: Seq<char>,
    stderr: Seq<char>,
) -> ExecutionModel {
    ExecutionModel {
        success,
        message: if success {
            message
        } else if trimmed(stderr).len() == 0 {
            trimmed(stdout)
        } else {
            trimmed(stderr)
        },
        resume_session_id: session,
    }
}

/// How a run ended, from what was heard of it and what it wrote.
pub fn conclude(
    success: bool,
    message: String,
    session: Option<String>,
    stdout: &str,
    stderr: &str,
) -> (result: BackendExecutionResult)
    ensures
        result@ == concluded(success, message@, opt_text(session), stdout@, stderr@),
{
    let message = if success {
        message
    } else if is_blank(stderr) {
        trim(stdout)
    } else {
        trim(stderr)
    };
    BackendExecutionResult { success, message, resume_session_id: session }
}

/// How a run ended, from what it wrote.
pub open spec fn run_result(success: bool, stdout: Seq<char>, stderr: Seq<char>) -> ExecutionModel {
    let (message, session) = heard(lines(stdout));
    concluded(success, message, session, stdout, stderr)
}

/// How a run ended, from what it wrote.
pub fn interpret_text(success: bool, stdout: &str, stderr: &str) -> (result: BackendExecutionResult)
    ensures
        result@ == run_result(success, stdout@, stderr@),
{
    let all = text_lines(stdout);
    let ghost written = views(all@);
    let mut message = String::new();
    let mut session: Option<String> = None;
    let mut i: usize = 0;
    assert(written.take(0) =~= Seq::<Seq<char>>::empty());
    assert(message@ =~= Seq::<char>::empty());
    while i < all.len()
        invariant
            i <= all.len(),
            written == views(all@),
            (message@, opt_text(session)) == heard(written.take(i as int)),
        decreases all.len() - i,
    {
        proof {
            assert(written.take(i + 1).drop_last() =~= written.take(i as int));
            assert(written.take(i + 1).last() == all@[i as int]@);
        }
        let event = read_event(all[i].as_str());
        let heard = hear_event(message, session, event.as_ref());
        message = heard.0;
        session = heard.1;
        i = i + 1;
    }
    assert(written.take(i as int) =~= written);
    conclude(success, message, session, stdout, stderr)
}

/// How a run ended, from the bytes that it wrote.
pub fn interpret_output(success: bool, stdout: &[u8], stderr: &[u8]) -> (result:
    BackendExecutionResult)
    ensures
        result@ == run_result(success, lossy_text(stdout@), lossy_text(stderr@)),
{
    interpret_text(success, decode_lossy(stdout).as_str(), decode_lossy(stderr).as_str())
}

/// The files that were changed last, newest first: of files of one time the one that was found
/// later comes first.
pub open spec fn newest_places(modified: Seq<u64>, limit: nat) -> Seq<int> {
    first_items(
        newest_first(places(modified.len()).reverse(), |i: int| modified[i] as int),
        limit,
    )
}

/// The places of the files that were changed last, newest first.
pub fn newest_files(modified: &Vec<u64>, limit: usize) -> (chosen: Vec<usize>)
    ensures
        chosen@.map_values(|i: usize| i as int) == newest_places(modified@, limit as nat),
        forall|i: int| 0 <= i < chosen.len() ==> #[trigger] chosen@[i] < modified.len(),
{
    let count: usize = modified.len();
    let mut backwards: Vec<u64> = Vec::new();
    let mut i: usize = 0;
    while i < count
        invariant
            i <= count == modified.len(),
            backwards.len() == i,
            forall|j: int| 0 <= j < i ==> #[trigger] backwards@[j] == modified@[count - 1 - j],
        decreases count - i,
    {
        backwards.push(modified[count - 1 - i]);
        i = i + 1;
    }
    let order = newest_order(&backwards);
    let ghost time = |i: int| backwards@[i] as int;
    let ghost f = |i: int| count - 1 - i;
    let ghost spots = places(count as nat);
    proof {
        lemma_newest_first_map(spots, f, time, |i: int| modified@[i] as int);
        assert(spots.map_values(f) =~= spots.reverse());
    }
    let taken: usize = if limit < count {
        limit
    } else {
        count
    };
    let mut chosen: Vec<usize> = Vec::new();
    let mut k: usize = 0;
    while k < taken
        invariant
            k <= taken <= count == order.len(),
            count == modified.len() == backwards.len(),
            chosen.len() == k,
            forall|j: int| 0 <= j < order.len() ==> #[trigger] order@[j] < backwards.len(),
            forall|j: int|
                0 <= j < k ==> #[trigger] chosen@[j] == count - 1 - order@[j] && chosen@[j]
                    < modified.len(),
        decreases taken - k,
    {
        chosen.push(count - 1 - order[k]);
        k = k + 1;
    }
    proof {
        let sorted = order@.map_values(|i: usize| i as int);
        assert(chosen@.map_values(|i: usize| i as int) =~= newest_places(
            modified@,
            limit as nat,
        ));
    }
    chosen
}

/// The file is one that sessions are kept in.
pub open spec fn is_session_name(name: Seq<char>) -> bool {
    name.len() > 6 && name.skip(name.len() - 6) == ".jsonl"@
}

/// Tells whether the file is one that sessions are kept in.
pub fn is_session_file(name: &str) -> (yes: bool)
    ensures
        yes == is_session_name(name@),
{
    let chars = characters(name);
    if chars.len() <= 6 {
        return false;
    }
    let ending = text_between(&chars, chars.len() - 6, chars.len());
    assert(ending@ =~= name@.skip(name@.len() - 6));
    same_text(ending.as_str(), ".jsonl")
}

/// The text of the first of the parts that has one.
pub open spec fn first_text(parts: Seq<JsonTree>) -> Option<Seq<char>>
    decreases parts.len(),
{
    if parts.len() == 0 {
        None
    } else {
        match parts[0].text_at("text"@) {
            Some(text) => Some(text),
            None => first_text(parts.drop_first()),
        }
    }
}

/// The text of the first of the parts that has one.
pub fn find_text(parts: &Vec<Json>) -> (text: Option<String>)
    ensures
        opt_text(text) == first_text(trees(parts@)),
{
    let ghost all = trees(parts@);
    let mut i: usize = 0;
    assert(all.skip(0) =~= all);
    while i < parts.len()
        invariant
            i <= parts.len(),
            all == trees(parts@),
            first_text(all) == first_text(all.skip(i as int)),
        decreases parts.len() - i,
    {
        proof {
            assert(all.skip(i as int)[0] == parts@[i as int]@);
            assert(all.skip(i as int).drop_first() =~= all.skip(i + 1));
        }
        match parts[i].text_at("text") {
            Some(text) => return Some(text.to_owned()),
            None => {},
        }
        i = i + 1;
    }
    None
}

/// The working directory that an event of a session tells, or null.
pub open spec fn cwd_in(event: Option<JsonTree>) -> JsonTree {
    match event {
        Some(event) => if has_type(event, "turn_context"@) {
            event.at("payload"@).at("cwd"@)
        } else {
            JsonTree::Null
        },
        None => JsonTree::Null,
    }
}

/// The working directory that an event of a session tells, or null.
pub fn event_cwd(event: Option<&Json>) -> (cwd: Json)
    ensures
        cwd@ == cwd_in(opt_tree(event)),
{
    match event {
        Some(event) => {
            if is_of_type(event, "turn_context") {
                event.at("payload").at("cwd")
            } else {
                Json::Null
            }
        },
        None => Json::Null,
    }
}

/// The beginning of the text that an event of a session tells, or null.
pub open spec fn preview_in(event: Option<JsonTree>) -> JsonTree {
    match event {
        Some(event) => if has_type(event, "response_item"@) {
            match event.at("payload"@).at("content"@).as_array() {
                Some(parts) => match first_text(parts) {
                    Some(text) => JsonTree::Text(first_chars(text, 240)),
                    None => JsonTree::Null,
                },
                None => JsonTree::Null,
            }
        } else {
            JsonTree::Null
        },
        None => JsonTree::Null,
    }
}

/// The beginning of the text that an event of a session tells, or null.
pub fn event_preview(event: Option<&Json>) -> (preview: Json)
    ensures
        preview@ == preview_in(opt_tree(event)),
{
    let event = match event {
        Some(event) => event,
        None => return Json::Null,
    };
    if !is_of_type(event, "response_item") {
        return Json::Null;
    }
    let content = event.at("payload").at("content");
    match content.as_array() {
        Some(parts) => match find_text(parts) {
            Some(text) => Json::Text(take_chars(text.as_str(), 240)),
            None => Json::Null,
        },
        None => Json::Null,
    }
}

/// The first value that is not null of those that `of` gives for the lines.
pub open spec fn first_told(lines: Seq<Seq<char>>, of: spec_fn(Seq<char>) -> JsonTree) -> JsonTree
    decreases lines.len(),
{
    if lines.len() == 0 {
        JsonTree::Null
    } else if of(lines[0]) is Null {
        first_told(lines.drop_first(), of)
    } else {
        of(lines[0])
    }
}

/// The last 400 lines of a session file, the last one first.
pub open spec fn latest_lines(content: Seq<char>) -> Seq<Seq<char>> {
    first_items(lines(content).reverse(), 400)
}

/// What the content of a session file tells of its working directory and its last text.
pub open spec fn told(content: Option<Seq<char>>) -> (JsonTree, JsonTree) {
    match content {
        Some(text) => (
            first_told(latest_lines(text), |line: Seq<char>| cwd_in(event_on(line))),
            first_told(latest_lines(text), |line: Seq<char>| preview_in(event_on(line))),
        ),
        None => (JsonTree::Null, JsonTree::Null),
    }
}

/// Reads the working directory and the last text out of the content of a session file.
fn read_told(content: &str) -> (found: (Json, Json))
    ensures
        (found.0@, found.1@) == told(Some(content@)),
{
    let all = text_lines(content);
    let ghost newest = latest_lines(content@);
    let ghost cwd_of = |line: Seq<char>| cwd_in(event_on(line));
    let ghost preview_of_line = |line: Seq<char>| preview_in(event_on(line));
    let count: usize = if all.len() < 400 {
        all.len()
    } else {
        400
    };
    let mut cwd = Json::Null;
    let mut preview = Json::Null;
    let mut i: usize = 0;
    assert(newest.skip(0) =~= newest);
    assert(newest.len() == count);
    while i < count && (cwd.is_null() || preview.is_null())
        invariant
            i <= count <= all.len(),
            newest == latest_lines(content@),
            newest.len() == count,
            views(all@) == lines(content@),
            cwd_of == (|line: Seq<char>| cwd_in(event_on(line))),
            preview_of_line == (|line: Seq<char>| preview_in(event_on(line))),
            first_told(newest, cwd_of) == (if cwd@ is Null {
                first_told(newest.skip(i as int), cwd_of)
            } else {
                cwd@
            }),
            first_told(newest, preview_of_line) == (if preview@ is Null {
                first_told(newest.skip(i as int), preview_of_line)
            } else {
                preview@
            }),
        decreases count - i,
    {
        let at: usize = all.len() - 1 - i;
        proof {
            assert(views(all@)[at as int] == all@[at as int]@);
            assert(newest[i as int] == all@[at as int]@);
            assert(newest.skip(i as int)[0] == newest[i as int]);
            assert(newest.skip(i as int).drop_first() =~= newest.skip(i + 1));
        }
        let event = read_event(all[at].as_str());
        if cwd.is_null() {
            cwd = event_cwd(event.as_ref());
        }
        if preview.is_null() {
            preview = event_preview(event.as_ref());
        }
        i = i + 1;
    }
    assert(newest.skip(count as int).len() == 0);
    (cwd, preview)
}

/// `s` without the ending, as often as it has it.
pub open spec fn without_ending(s: Seq<char>, ending: Seq<char>) -> Seq<char>
    decreases s.len(),
{
    if 0 < ending.len() <= s.len() && s.skip(s.len() - ending.len()) == ending {
        without_ending(s.take(s.len() - ending.len()), ending)
    } else {
        s
    }
}

/// A hexadecimal digit.
pub open spec fn is_hex_digit(c: char) -> bool {
    ('0' <= c && c <= '9') || ('a' <= c && c <= 'f') || ('A' <= c && c <= 'F')
}

/// A character of a UUID may stand at the place.
pub open spec fn fits_uuid(c: char, at: int) -> bool {
    if at == 8 || at == 13 || at == 18 || at == 23 {
        c == '-'
    } else {
        is_hex_digit(c)
    }
}

/// The text is written as a UUID is.
pub open spec fn is_uuid(s: Seq<char>) -> bool {
    s.len() == 36 && forall|i: int| 0 <= i < s.len() ==> fits_uuid(#[trigger] s[i], i)
}

/// The session that a file is named after: the UUID at the end of its name, or else its whole name
/// without the ending.
pub open spec fn named_session(name: Seq<char>) -> Seq<char> {
    let stem = without_ending(name, ".jsonl"@);
    if stem.len() >= 36 && is_uuid(stem.skip(stem.len() - 36)) {
        stem.skip(stem.len() - 36)
    } else {
        stem
    }
}

/// The session that a file is named after.
pub fn session_id_from_filename(filename: &str) -> (id: String)
    ensures
        id@ == named_session(filename@),
{
    let chars = characters(filename);
    let mut end: usize = chars.len();
    proof {
        reveal_strlit(".jsonl");
        assert(chars@.take(chars.len() as int) =~= chars@);
    }
    while end >= 6 && same_text(text_between(&chars, end - 6, end).as_str(), ".jsonl")
        invariant
            end <= chars.len(),
            ".jsonl"@.len() == 6,
            without_ending(chars@, ".jsonl"@) == without_ending(
                chars@.take(end as int),
                ".jsonl"@,
            ),
        decreases end,
    {
        proof {
            let s = chars@.take(end as int);
            assert(s.skip(s.len() - 6) =~= chars@.subrange(end - 6, end as int));
            assert(s.take(s.len() - 6) =~= chars@.take(end - 6));
        }
        end = end - 6;
    }
    let ghost stem = chars@.take(end as int);
    proof {
        if end >= 6 {
            assert(stem.skip(stem.len() - 6) =~= chars@.subrange(end - 6, end as int));
        }
        assert(without_ending(chars@, ".jsonl"@) == stem);
    }
    if end < 36 {
        let whole = text_between(&chars, 0, end);
        assert(whole@ =~= stem);
        return whole;
    }
    let from: usize = end - 36;
    let ghost candidate = stem.skip(stem.len() - 36);
    let mut i: usize = 0;
    while i < 36
        invariant
            i <= 36,
            from + 36 == end <= chars.len(),
            stem == chars@.take(end as int),
            stem == without_ending(filename@, ".jsonl"@),
            candidate == stem.skip(stem.len() - 36),
            forall|j: int| 0 <= j < i ==> fits_uuid(#[trigger] candidate[j], j),
        decreases 36 - i,
    {
        let c = chars[from + i];
        assert(candidate[i as int] == c);
        let fits = if i == 8 || i == 13 || i == 18 || i == 23 {
            c == '-'
        } else {
            ('0' <= c && c <= '9') || ('a' <= c && c <= 'f') || ('A' <= c && c <= 'F')
        };
        if !fits {
            assert(!fits_uuid(candidate[i as int], i as int));
            let whole = text_between(&chars, 0, end);
            assert(whole@ =~= stem);
            return whole;
        }
        i = i + 1;
    }
    let id = text_between(&chars, from, end);
    assert(id@ =~= candidate);
    id
}

/// What a session file says of its session.
pub open spec fn file_summary(
    path: Seq<char>,
    name: Seq<char>,
    modified: u64,
    content: Option<Seq<char>>,
) -> SummaryModel {
    SummaryModel {
        id: named_session(name),
        path,
        modified_unix: modified,
        cwd: told(content).0,
        last_message_preview: told(content).1,
    }
}

/// What a session file says of its session: its path, its name, when it was changed, and its
/// content, where it can be read.
pub fn session_summary(path: &str, name: &str, modified: u64, content: Option<&str>) -> (summary:
    BackendSessionSummary)
    ensures
        summary@ == file_summary(path@, name@, modified, opt_str(content)),
{
    let (cwd, last_message_preview) = match content {
        Some(text) => read_told(text),
        None => (Json::Null, Json::Null),
    };
    BackendSessionSummary {
        id: session_id_from_filename(name),
        path: path.to_owned(),
        modified_unix: modified,
        cwd,
        last_message_preview,
    }
}

} // verus!
