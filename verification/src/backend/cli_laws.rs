//! What holds of every run of `codex exec`: what it is asked, and what is made of its answers.

use crate::backend::cli::{
    cwd_in, escaped, event_on, file_summary, first_text, first_told, fits_uuid, heard,
    is_session_name, is_uuid, latest_lines, law_quoted_text_reads_back, newest_places, preview_in,
    quoted, quoted_toml_array, read_quoted, run_arguments, run_result, toml_array, without_ending,
};
use crate::backend::wrapped_prompt;
use crate::json::JsonTree;
use crate::order::{
    law_items_of_one_time_keep_their_order, law_newest_first_sorts, newest_first, places,
};
use crate::sessions::law_newest_are_chosen;
use crate::state::OptionsModel;
use crate::text::{first_chars, joined, lines, replaced, trimmed};
use vstd::prelude::*;

verus! {

/// A text ends with another.
pub open spec fn ends_with(text: Seq<char>, tail: Seq<char>) -> bool {
    text.len() >= tail.len() && text.skip(text.len() - tail.len()) == tail
}

/// Two arguments stand side by side in a list.
pub open spec fn side_by_side(arguments: Seq<Seq<char>>, first: Seq<char>, second: Seq<char>)
    -> bool {
    exists|i: int|
        0 <= i < arguments.len() - 1 && #[trigger] arguments[i] == first && arguments[i + 1]
            == second
}

/// What stands before the request in the text that Codex is given.
pub open spec fn preamble_of(given: Seq<char>, prompt: Seq<char>) -> Seq<char> {
    given.take(given.len() - prompt.len())
}

/// The last argument of `codex exec` is the text for Codex: it ends with the prompt, after a word
/// on the mode that does not depend on the prompt and ends with `Request:` on a line of its own.
pub proof fn law_exec_is_given_the_prompt(
    session: Option<Seq<char>>,
    options: OptionsModel,
    prompt: Seq<char>,
    other: Seq<char>,
    permissions: Seq<Seq<char>>,
)
    ensures
        ({
            let one = run_arguments(session, options, prompt, permissions);
            let two = run_arguments(session, options, other, permissions);
            &&& one.len() > 0 && one.len() == two.len()
            &&& ends_with(one.last(), prompt)
            &&& ends_with(preamble_of(one.last(), prompt), "\n\nRequest:\n"@)
            &&& preamble_of(one.last(), prompt) == preamble_of(two.last(), other)
            &&& one.drop_last() == two.drop_last()
            &&& prompt != other ==> one != two
        }),
{
    lemma_wrapped(prompt, options.write_enabled);
    lemma_wrapped(other, options.write_enabled);
    let one = run_arguments(session, options, prompt, permissions);
    let two = run_arguments(session, options, other, permissions);
    assert(one.drop_last() =~= two.drop_last());
    if one == two {
        assert(one.last() == two.last());
        let mark = preamble_of(one.last(), prompt);
        assert(one.last() =~= mark + prompt);
        assert(two.last() =~= mark + other);
        assert(prompt =~= (mark + prompt).skip(mark.len() as int));
        assert(other =~= (mark + other).skip(mark.len() as int));
    }
}

/// A text holds another.
pub open spec fn holds_text(text: Seq<char>, part: Seq<char>) -> bool {
    exists|i: int|
        0 <= i <= text.len() - part.len() && #[trigger] text.subrange(i, i + part.len()) == part
}

/// Codex is told whether it may write, and that it may only read where it may not.
pub proof fn law_exec_is_told_its_mode(
    session: Option<Seq<char>>,
    options: OptionsModel,
    prompt: Seq<char>,
    permissions: Seq<Seq<char>>,
)
    ensures
        ({
            let given = run_arguments(session, options, prompt, permissions).last();
            let told = preamble_of(given, prompt);
            if options.write_enabled {
                holds_text(told, "You are allowed to write files only inside the configured workspace"@)
            } else {
                holds_text(told, "You are running in read-only mode"@)
            }
        }),
{
    lemma_wrapped(prompt, options.write_enabled);
    lemma_preamble(options.write_enabled);
}

/// What the text for Codex is made of.
pub proof fn lemma_wrapped(prompt: Seq<char>, write_enabled: bool)
    ensures
        ({
            let given = wrapped_prompt(prompt, write_enabled);
            let bare = wrapped_prompt(Seq::empty(), write_enabled);
            &&& given == bare + prompt
            &&& ends_with(given, prompt)
            &&& preamble_of(given, prompt) == bare
            &&& ends_with(bare, "\n\nRequest:\n"@)
        }),
{
    let given = wrapped_prompt(prompt, write_enabled);
    let bare = wrapped_prompt(Seq::empty(), write_enabled);
    lemma_preamble(write_enabled);
    assert(given =~= bare + prompt);
    assert(given.skip(given.len() - prompt.len()) =~= prompt);
    assert(given.take(given.len() - prompt.len()) =~= bare);
}

/// What is said on the two modes.
pub proof fn lemma_preamble(write_enabled: bool)
    ensures
        ({
            let bare = wrapped_prompt(Seq::empty(), write_enabled);
            &&& ends_with(bare, "\n\nRequest:\n"@)
            &&& write_enabled ==> holds_text(bare, "You are allowed to write files only inside the configured workspace"@)
            &&& !write_enabled ==> holds_text(bare, "You are running in read-only mode"@)
        }),
{
    let bare = wrapped_prompt(Seq::empty(), write_enabled);
    let mark = "\n\nRequest:\n"@;
    reveal_strlit("\n\nRequest:\n");
    reveal_strlit(
        "You are Codex answering an A2A request from Hermes. Be direct and concise. You may read source material available through the Codex sandbox, including configured read-only disk access. You are allowed to write files only inside the configured workspace through the Codex sandbox. Keep changes minimal, preserve git traceability, and report changed files.\n\nRequest:\n",
    );
    reveal_strlit(
        "You are Codex answering an A2A request from Hermes. Be direct and concise. You are running in read-only mode for this service. Preserve context across this session.\n\nRequest:\n",
    );
    reveal_strlit("You are allowed to write files only inside the configured workspace");
    reveal_strlit("You are running in read-only mode");
    if write_enabled {
        assert(bare =~= "You are Codex answering an A2A request from Hermes. Be direct and concise. You may read source material available through the Codex sandbox, including configured read-only disk access. You are allowed to write files only inside the configured workspace through the Codex sandbox. Keep changes minimal, preserve git traceability, and report changed files.\n\nRequest:\n"@);
        let part = "You are allowed to write files only inside the configured workspace"@;
        assert(bare.subrange(185int, 185int + part.len()) =~= part);
    } else {
        assert(bare =~= "You are Codex answering an A2A request from Hermes. Be direct and concise. You are running in read-only mode for this service. Preserve context across this session.\n\nRequest:\n"@);
        let part = "You are running in read-only mode"@;
        assert(bare.subrange(75int, 75int + part.len()) =~= part);
    }
    assert(bare.skip(bare.len() - mark.len()) =~= mark);
}

/// A run without a session begins a new one in the working directory of its options, whether or
/// not it may write: `-C` and the directory stand right before the prompt.
pub proof fn law_new_sessions_begin_in_the_directory(
    options: OptionsModel,
    prompt: Seq<char>,
    permissions: Seq<Seq<char>>,
)
    ensures
        ({
            let arguments = run_arguments(None, options, prompt, permissions);
            let n = arguments.len() as int;
            &&& n >= 4
            &&& arguments[0] == "exec"@
            &&& arguments[1] != "resume"@
            &&& arguments[n - 3] == "-C"@
            &&& arguments[n - 2] == options.working_directory
        }),
{
    reveal_strlit("--json");
    reveal_strlit("resume");
    assert("--json"@[0] == '-' && "resume"@[0] == 'r');
    let arguments = run_arguments(None, options, prompt, permissions);
    assert(arguments[1] == "--json"@);
}

/// A run with a session goes on with that session, named right before the prompt.
pub proof fn law_sessions_are_gone_on_with(
    session: Seq<char>,
    options: OptionsModel,
    prompt: Seq<char>,
    permissions: Seq<Seq<char>>,
)
    ensures
        ({
            let arguments = run_arguments(Some(session), options, prompt, permissions);
            let n = arguments.len() as int;
            &&& n >= 4
            &&& arguments[0] == "exec"@
            &&& arguments[1] == "resume"@
            &&& arguments[n - 2] == session
        }),
{
}

/// Every run is kept in its sandbox and never asks: Codex is told the sandbox of the options, and
/// that no approval is to be asked for; and it writes its events as JSON.
pub proof fn law_exec_keeps_the_sandbox(
    session: Option<Seq<char>>,
    options: OptionsModel,
    prompt: Seq<char>,
    permissions: Seq<Seq<char>>,
)
    ensures
        ({
            let arguments = run_arguments(session, options, prompt, permissions);
            &&& arguments.contains("--json"@)
            &&& arguments.contains("--skip-git-repo-check"@)
            &&& side_by_side(arguments, "-c"@, "approval_policy=\"never\""@)
            &&& side_by_side(
                arguments,
                "-c"@,
                "sandbox_mode=\""@ + options.sandbox_mode + "\""@,
            )
        }),
{
    let arguments = run_arguments(session, options, prompt, permissions);
    let from: int = if session is Some {
        2
    } else {
        1
    };
    assert(arguments[from] == "--json"@);
    assert(arguments[from + 1] == "--skip-git-repo-check"@);
    assert(arguments[from + 2] == "-c"@ && arguments[from + 3] == "approval_policy=\"never\""@);
    assert(arguments[from + 4] == "-c"@ && arguments[from + 5] == "sandbox_mode=\""@
        + options.sandbox_mode + "\""@);
}

/// Permissions are granted to runs that may write, and to no others: without them the arguments
/// are those of a server that has none to grant.
pub proof fn law_permissions_are_for_writers(
    session: Option<Seq<char>>,
    options: OptionsModel,
    prompt: Seq<char>,
    permissions: Seq<Seq<char>>,
)
    ensures
        ({
            let arguments = run_arguments(session, options, prompt, permissions);
            let bare = run_arguments(session, options, prompt, Seq::empty());
            if options.write_enabled && permissions.len() > 0 {
                &&& arguments.len() == bare.len() + 2
                &&& side_by_side(
                    arguments,
                    "-c"@,
                    "sandbox_permissions="@ + quoted_toml_array(permissions),
                )
            } else {
                arguments == bare
            }
        }),
{
    let arguments = run_arguments(session, options, prompt, permissions);
    let bare = run_arguments(session, options, prompt, Seq::empty());
    let from: int = if session is Some {
        8
    } else {
        7
    };
    if options.write_enabled && permissions.len() > 0 {
        assert(arguments[from] == "-c"@ && arguments[from + 1] == "sandbox_permissions="@
            + quoted_toml_array(permissions));
    } else {
        assert(arguments =~= bare);
    }
}

/// What a reader takes from a TOML array of texts after its opening bracket or a comma.
pub open spec fn read_texts(s: Seq<char>) -> Option<Seq<Seq<char>>>
    decreases s.len(),
{
    if s.len() == 0 || s[0] != '"' {
        None
    } else {
        match read_quoted(s.skip(1)) {
            None => None,
            Some((text, rest)) => if rest.len() == 0 || rest.len() >= s.len() {
                None
            } else if rest == seq![']'] {
                Some(seq![text])
            } else if rest[0] == ',' {
                match read_texts(rest.skip(1)) {
                    Some(texts) => Some(seq![text] + texts),
                    None => None,
                }
            } else {
                None
            },
        }
    }
}

/// What a reader takes from a TOML array of texts.
pub open spec fn read_array(s: Seq<char>) -> Option<Seq<Seq<char>>> {
    if s == "[]"@ {
        Some(Seq::empty())
    } else if s.len() > 0 && s[0] == '[' {
        read_texts(s.skip(1))
    } else {
        None
    }
}

/// Parts that are joined begin with the first one.
pub proof fn lemma_joined_first(parts: Seq<Seq<char>>, separator: Seq<char>)
    requires
        parts.len() > 1,
    ensures
        joined(parts, separator) == parts[0] + separator + joined(parts.drop_first(), separator),
    decreases parts.len(),
{
    if parts.len() == 2 {
        assert(parts.drop_last() =~= seq![parts[0]]);
        assert(parts.drop_first() =~= seq![parts[1]]);
        assert(joined(seq![parts[0]], separator) == parts[0]);
        assert(joined(seq![parts[1]], separator) == parts[1]);
    } else {
        lemma_joined_first(parts.drop_last(), separator);
        assert(parts.drop_last().drop_first() =~= parts.drop_first().drop_last());
        let middle = joined(parts.drop_first().drop_last(), separator);
        assert(parts[0] + separator + middle + separator + parts.last() =~= parts[0] + separator
            + (middle + separator + parts.last()));
    }
}

/// A reader gets the texts of an array back.
proof fn lemma_array_texts(values: Seq<Seq<char>>)
    requires
        values.len() > 0,
    ensures
        read_texts(joined(values.map_values(|v: Seq<char>| quoted(v)), ","@) + "]"@) == Some(
            values,
        ),
    decreases values.len(),
{
    reveal_strlit("\"");
    reveal_strlit(",");
    reveal_strlit("]");
    let parts = values.map_values(|v: Seq<char>| quoted(v));
    let mark = "\""@;
    let text = values[0];
    if values.len() == 1 {
        let s = joined(parts, ","@) + "]"@;
        law_quoted_text_reads_back(text, "]"@);
        assert(s.skip(1) =~= escaped(text) + mark + "]"@);
        assert("]"@ =~= seq![']']);
        assert(s[0] == '"');
        assert(seq![text] =~= values);
    } else {
        let rest = values.drop_first();
        lemma_array_texts(rest);
        lemma_joined_first(parts, ","@);
        assert(parts.drop_first() =~= rest.map_values(|v: Seq<char>| quoted(v)));
        let tail = joined(rest.map_values(|v: Seq<char>| quoted(v)), ","@) + "]"@;
        let s = joined(parts, ","@) + "]"@;
        law_quoted_text_reads_back(text, ","@ + tail);
        assert(s.skip(1) =~= escaped(text) + mark + (","@ + tail));
        assert(s[0] == '"');
        assert((","@ + tail)[0] == ',');
        assert((","@ + tail).skip(1) =~= tail);
        assert((","@ + tail) != seq![']']) by {
            assert(seq![']'][0] == ']');
        }
        assert(seq![text] + rest =~= values);
    }
}

/// A reader of TOML gets the permissions back from the array that they are written as.
pub proof fn law_permissions_read_back(permissions: Seq<Seq<char>>)
    ensures
        read_array(toml_array(permissions)) == Some(permissions),
{
    reveal_strlit("[");
    reveal_strlit("]");
    reveal_strlit("[]");
    reveal_strlit("\"");
    let parts = permissions.map_values(|v: Seq<char>| quoted(v));
    let written = toml_array(permissions);
    if permissions.len() == 0 {
        assert(written =~= "[]"@);
        assert(permissions =~= Seq::empty());
    } else {
        lemma_array_texts(permissions);
        assert(written.skip(1) =~= joined(parts, ","@) + "]"@);
        assert(written[0] == '[');
        if written == "[]"@ {
            assert(read_texts(written.skip(1)) is Some);
            assert(written.skip(1)[0] == ']');
        }
    }
}

/// Replacing a character that does not occur changes nothing.
proof fn lemma_replaced_none(text: Seq<char>, c: char, with: Seq<char>)
    requires
        !text.contains(c),
    ensures
        replaced(text, c, with) == text,
    decreases text.len(),
{
    if text.len() > 0 {
        assert(text[text.len() - 1] != c);
        assert forall|x: char| !text.contains(x) implies !text.drop_last().contains(x) by {
            if text.drop_last().contains(x) {
                let i = choose|i: int| 0 <= i < text.drop_last().len() && text.drop_last()[i] == x;
                assert(text[i] == x);
            }
        }
        lemma_replaced_none(text.drop_last(), c, with);
        assert(text.drop_last() + seq![text.last()] =~= text);
    } else {
        assert(replaced(text, c, with) =~= text);
    }
}

/// A reader of quoted texts gets the array back that the setting holds, where there is no backslash
/// in it.
pub proof fn law_quoted_array_reads_back(permissions: Seq<Seq<char>>)
    requires
        !toml_array(permissions).contains('\\'),
    ensures
        quoted_toml_array(permissions).len() > 0,
        quoted_toml_array(permissions)[0] == '"',
        read_quoted(quoted_toml_array(permissions).skip(1)) == Some(
            (toml_array(permissions), Seq::<char>::empty()),
        ),
{
    reveal_strlit("\"");
    let array = toml_array(permissions);
    lemma_replaced_none(array, '\\', "\\\\"@);
    law_quoted_text_reads_back(array, Seq::empty());
    assert(quoted_toml_array(permissions).skip(1) =~= escaped(array) + "\""@ + Seq::<char>::empty());
}

/// What the agent says by an event of `codex exec`: the text of a completed agent message.
pub open spec fn spoken(event: Option<JsonTree>) -> Option<Seq<char>> {
    match event {
        Some(event) => if event.text_at("type"@) == Some("item.completed"@) && event.at(
            "item"@,
        ).text_at("type"@) == Some("agent_message"@) {
            event.at("item"@).text_at("text"@)
        } else {
            None
        },
        None => None,
    }
}

/// The event opens a thread.
pub open spec fn opens_thread(event: Option<JsonTree>) -> bool {
    event matches Some(event) && event.text_at("type"@) == Some("thread.started"@)
}

/// What was heard on lines after which the agent said no more.
proof fn lemma_heard_message(lines: Seq<Seq<char>>, at: int)
    requires
        -1 <= at < lines.len(),
        at >= 0 ==> spoken(event_on(lines[at])) is Some,
        forall|i: int| at < i < lines.len() ==> spoken(event_on(#[trigger] lines[i])) is None,
    ensures
        heard(lines).0 == (if at >= 0 {
            spoken(event_on(lines[at]))->0
        } else {
            Seq::empty()
        }),
    decreases lines.len(),
{
    if lines.len() > 0 {
        assert(lines[lines.len() - 1] == lines.last());
        if at < lines.len() - 1 {
            let rest = lines.drop_last();
            assert forall|i: int| at < i < rest.len() implies spoken(
                event_on(#[trigger] rest[i]),
            ) is None by {
                assert(rest[i] == lines[i]);
            }
            lemma_heard_message(rest, at);
            assert(spoken(event_on(lines[lines.len() - 1])) is None);
        }
    }
}

/// What was heard on lines after which no thread was opened.
proof fn lemma_heard_session(lines: Seq<Seq<char>>, at: int)
    requires
        -1 <= at < lines.len(),
        at >= 0 ==> opens_thread(event_on(lines[at])),
        forall|i: int| at < i < lines.len() ==> !opens_thread(event_on(#[trigger] lines[i])),
    ensures
        heard(lines).1 == (if at >= 0 {
            (event_on(lines[at])->0).text_at("thread_id"@)
        } else {
            None
        }),
    decreases lines.len(),
{
    if lines.len() > 0 {
        assert(lines[lines.len() - 1] == lines.last());
        if at < lines.len() - 1 {
            let rest = lines.drop_last();
            assert forall|i: int| at < i < rest.len() implies !opens_thread(
                event_on(#[trigger] rest[i]),
            ) by {
                assert(rest[i] == lines[i]);
            }
            lemma_heard_session(rest, at);
            assert(!opens_thread(event_on(lines[lines.len() - 1])));
        }
    }
}

/// A run that succeeds is answered with the last message of the agent, and with nothing where the
/// agent said none. `at` is the line of that message, or minus one.
pub proof fn law_exec_answers_with_the_last_message(stdout: Seq<char>, stderr: Seq<char>, at: int)
    requires
        -1 <= at < lines(stdout).len(),
        at >= 0 ==> spoken(event_on(lines(stdout)[at])) is Some,
        forall|i: int|
            at < i < lines(stdout).len() ==> spoken(event_on(#[trigger] lines(stdout)[i])) is None,
    ensures
        run_result(true, stdout, stderr).success,
        run_result(true, stdout, stderr).message == (if at >= 0 {
            spoken(event_on(lines(stdout)[at]))->0
        } else {
            Seq::empty()
        }),
{
    lemma_heard_message(lines(stdout), at);
}

/// A run that fails is answered with what it wrote to the error output, and where that is blank
/// with what it wrote to the output.
pub proof fn law_exec_failures_say_why(stdout: Seq<char>, stderr: Seq<char>)
    ensures
        !run_result(false, stdout, stderr).success,
        trimmed(stderr).len() > 0 ==> run_result(false, stdout, stderr).message == trimmed(stderr),
        trimmed(stderr).len() == 0 ==> run_result(false, stdout, stderr).message == trimmed(stdout),
{
}

/// Whether or not it succeeds, the session of a run is the one that its output named last, so that
/// later runs can go on with it. `at` is the line that named it, or minus one.
pub proof fn law_exec_names_its_session(
    success: bool,
    stdout: Seq<char>,
    stderr: Seq<char>,
    at: int,
)
    requires
        -1 <= at < lines(stdout).len(),
        at >= 0 ==> opens_thread(event_on(lines(stdout)[at])),
        forall|i: int|
            at < i < lines(stdout).len() ==> !opens_thread(event_on(#[trigger] lines(stdout)[i])),
    ensures
        run_result(success, stdout, stderr).resume_session_id == (if at >= 0 {
            (event_on(lines(stdout)[at])->0).text_at("thread_id"@)
        } else {
            None
        }),
{
    lemma_heard_session(lines(stdout), at);
}

/// The session files that are listed are the newest: as many as there are up to the limit, each
/// once, none newer than one before it, and none that is left out is newer than one of them. Of
/// files of one time the one that was found later comes first.
pub proof fn law_newest_session_files_are_listed(modified: Seq<u64>, limit: nat)
    ensures
        ({
            let chosen = newest_places(modified, limit);
            &&& chosen.len() == (if limit < modified.len() {
                limit
            } else {
                modified.len()
            })
            &&& chosen.no_duplicates()
            &&& forall|i: int|
                0 <= i < chosen.len() ==> 0 <= #[trigger] chosen[i] < modified.len()
            &&& forall|i: int, j: int|
                0 <= i < j < chosen.len() ==> modified[#[trigger] chosen[i]]
                    >= modified[#[trigger] chosen[j]]
            &&& forall|i: int, j: int|
                0 <= i < j < chosen.len() && modified[chosen[i]] == modified[chosen[j]]
                    ==> #[trigger] chosen[i] > #[trigger] chosen[j]
            &&& forall|i: int, k: int|
                0 <= i < chosen.len() && 0 <= k < modified.len() && !chosen.contains(k)
                    ==> #[trigger] modified[k] <= modified[#[trigger] chosen[i]]
        }),
{
    let time = |i: int| modified[i] as int;
    let items = places(modified.len()).reverse();
    let chosen = newest_places(modified, limit);
    law_newest_are_chosen(items, time, limit);
    assert(items.no_duplicates());
    assert forall|i: int| 0 <= i < chosen.len() implies 0 <= #[trigger] chosen[i]
        < modified.len() by {
        assert(items.contains(chosen[i]));
        let k = choose|k: int| 0 <= k < items.len() && items[k] == chosen[i];
        assert(0 <= items[k] < modified.len());
    }
    assert forall|i: int, k: int|
        0 <= i < chosen.len() && 0 <= k < modified.len() && !chosen.contains(
            k,
        ) implies #[trigger] modified[k] <= modified[#[trigger] chosen[i]] by {
        assert(items[modified.len() - 1 - k] == k);
        assert(items.contains(k));
        assert(time(k) <= time(chosen[i]));
    }
    assert forall|i: int, j: int|
        0 <= i < j < chosen.len() && modified[chosen[i]]
            == modified[chosen[j]] implies #[trigger] chosen[i] > #[trigger] chosen[j] by {
        let sorted = newest_first(items, time);
        assert(sorted[i] == chosen[i] && sorted[j] == chosen[j]);
        law_newest_first_sorts(items, time);
        law_items_of_one_time_keep_their_order(items, time, i, j);
        let (a, b) = choose|a: int, b: int|
            0 <= a < b < items.len() && #[trigger] items[a] == sorted[i] && #[trigger] items[b]
                == sorted[j];
        assert(items[a] == modified.len() - 1 - a && items[b] == modified.len() - 1 - b);
    }
    assert forall|i: int, j: int| 0 <= i < j < chosen.len() implies modified[#[trigger] chosen[i]]
        >= modified[#[trigger] chosen[j]] by {
        assert(time(chosen[i]) >= time(chosen[j]));
    }
}

/// A session file is one whose name is something and `.jsonl` after it.
pub proof fn law_session_files_end_in_jsonl(name: Seq<char>)
    ensures
        is_session_name(name) <==> exists|stem: Seq<char>|
            stem.len() > 0 && name == #[trigger] (stem + ".jsonl"@),
{
    reveal_strlit(".jsonl");
    let ending = ".jsonl"@;
    assert(ending.len() == 6);
    if is_session_name(name) {
        let stem = name.take(name.len() - 6);
        assert(name =~= stem + ending);
    }
    if exists|stem: Seq<char>| stem.len() > 0 && name == #[trigger] (stem + ending) {
        let stem = choose|stem: Seq<char>| stem.len() > 0 && name == #[trigger] (stem + ending);
        assert(name.skip(name.len() - 6) =~= ending);
    }
}

/// The text has the shape of a UUID: hexadecimal digits, in five groups with hyphens between them.
pub open spec fn has_uuid_shape(s: Seq<char>) -> bool {
    &&& s.len() == 36
    &&& forall|i: int|
        0 <= i < 36 ==> {
            if i == 8 || i == 13 || i == 18 || i == 23 {
                #[trigger] s[i] == '-'
            } else {
                ('0' <= s[i] <= '9') || ('a' <= s[i] <= 'f') || ('A' <= s[i] <= 'F')
            }
        }
}

/// A name that does not end in `.jsonl` is itself without it.
proof fn lemma_ending_goes_once(stem: Seq<char>)
    requires
        !ends_with(stem, ".jsonl"@),
    ensures
        without_ending(stem + ".jsonl"@, ".jsonl"@) == stem,
{
    reveal_strlit(".jsonl");
    let ending = ".jsonl"@;
    let name = stem + ending;
    assert(name.skip(name.len() - 6) =~= ending);
    assert(name.take(name.len() - 6) =~= stem);
    assert(without_ending(stem, ending) == stem);
}

/// A session is named after the UUID at the end of its file's name, whatever stands before that; a
/// file without one names its session by its whole name.
pub proof fn law_sessions_are_named_after_their_files(
    path: Seq<char>,
    start: Seq<char>,
    uuid: Seq<char>,
    modified: u64,
    content: Option<Seq<char>>,
)
    requires
        has_uuid_shape(uuid),
    ensures
        file_summary(path, start + uuid + ".jsonl"@, modified, content).id == uuid,
        start.len() < 36 && !ends_with(start, ".jsonl"@) ==> file_summary(
            path,
            start + ".jsonl"@,
            modified,
            content,
        ).id == start,
        file_summary(path, start, modified, content).path == path,
        file_summary(path, start, modified, content).modified_unix == modified,
{
    reveal_strlit(".jsonl");
    let stem = start + uuid;
    assert(!ends_with(stem, ".jsonl"@)) by {
        if ends_with(stem, ".jsonl"@) {
            assert(stem.skip(stem.len() - 6)[5] == 'l');
            assert(stem[stem.len() - 1] == uuid[35]);
        }
    }
    lemma_ending_goes_once(stem);
    assert(start + uuid + ".jsonl"@ =~= stem + ".jsonl"@);
    let tail = stem.skip(stem.len() - 36);
    assert(tail =~= uuid);
    assert(is_uuid(uuid)) by {
        assert forall|i: int| 0 <= i < uuid.len() implies fits_uuid(
            #[trigger] uuid[i],
            i,
        ) by {}
    }
    if !ends_with(start, ".jsonl"@) {
        lemma_ending_goes_once(start);
    }
}

/// The working directory that an event of a session tells: that of a turn.
pub open spec fn directory_told(event: Option<JsonTree>) -> JsonTree {
    match event {
        Some(event) => if event.text_at("type"@) == Some("turn_context"@) {
            event.at("payload"@).at("cwd"@)
        } else {
            JsonTree::Null
        },
        None => JsonTree::Null,
    }
}

/// An event of a session tells a text: it is the first among the parts of a response.
pub open spec fn tells_text(event: Option<JsonTree>, text: Seq<char>) -> bool {
    &&& event matches Some(event)
    &&& event.text_at("type"@) == Some("response_item"@)
    &&& event.at("payload"@).at("content"@) matches JsonTree::Array(parts)
    &&& exists|k: int|
        0 <= k < parts.len() && (#[trigger] parts[k]).text_at("text"@) == Some(text) && forall|
            j: int,
        |
            0 <= j < k ==> (#[trigger] parts[j]).text_at("text"@) is None
}

/// The first text among parts.
pub proof fn lemma_first_text(parts: Seq<JsonTree>, k: int)
    requires
        0 <= k <= parts.len(),
        k < parts.len() ==> parts[k].text_at("text"@) is Some,
        forall|j: int| 0 <= j < k ==> (#[trigger] parts[j]).text_at("text"@) is None,
    ensures
        first_text(parts) == (if k < parts.len() {
            parts[k].text_at("text"@)
        } else {
            None
        }),
    decreases k,
{
    if k > 0 {
        let rest = parts.drop_first();
        assert forall|j: int| 0 <= j < k - 1 implies (#[trigger] rest[j]).text_at(
            "text"@,
        ) is None by {
            assert(rest[j] == parts[j + 1]);
        }
        assert(parts[0].text_at("text"@) is None);
        if k < parts.len() {
            assert(rest[k - 1] == parts[k]);
        }
        lemma_first_text(rest, k - 1);
    }
}

/// The place of the first part with a text, or the number of parts.
spec fn first_place(parts: Seq<JsonTree>) -> int
    decreases parts.len(),
{
    if parts.len() == 0 || parts[0].text_at("text"@) is Some {
        0
    } else {
        1 + first_place(parts.drop_first())
    }
}

/// What the place of the first part with a text is.
proof fn lemma_first_place(parts: Seq<JsonTree>)
    ensures
        0 <= first_place(parts) <= parts.len(),
        first_place(parts) < parts.len() ==> parts[first_place(parts)].text_at("text"@) is Some,
        forall|j: int|
            0 <= j < first_place(parts) ==> (#[trigger] parts[j]).text_at("text"@) is None,
    decreases parts.len(),
{
    if parts.len() > 0 && parts[0].text_at("text"@) is None {
        let rest = parts.drop_first();
        lemma_first_place(rest);
        assert forall|j: int| 0 <= j < first_place(parts) implies (#[trigger] parts[j]).text_at(
            "text"@,
        ) is None by {
            if j > 0 {
                assert(rest[j - 1] == parts[j]);
            }
        }
    }
}

/// What an event tells of a text is the beginning of that text, and nothing where it tells none.
proof fn lemma_preview(event: Option<JsonTree>)
    ensures
        forall|text: Seq<char>|
            #[trigger] tells_text(event, text) ==> preview_in(event) == JsonTree::Text(
                first_chars(text, 240),
            ),
        (forall|text: Seq<char>| !#[trigger] tells_text(event, text)) ==> preview_in(event) is Null,
{
    match event {
        Some(e) => {
            match e.at("payload"@).at("content"@) {
                JsonTree::Array(parts) => {
                    assert forall|text: Seq<char>| #[trigger] tells_text(
                        event,
                        text,
                    ) implies preview_in(event) == JsonTree::Text(first_chars(text, 240)) by {
                        let k = choose|k: int|
                            0 <= k < parts.len() && (#[trigger] parts[k]).text_at("text"@) == Some(
                                text,
                            ) && forall|j: int|
                                0 <= j < k ==> (#[trigger] parts[j]).text_at("text"@) is None;
                        lemma_first_text(parts, k);
                    }
                    lemma_first_place(parts);
                    let k = first_place(parts);
                    lemma_first_text(parts, k);
                    if k < parts.len() && e.text_at("type"@) == Some("response_item"@) {
                        assert(tells_text(event, parts[k].text_at("text"@)->0));
                    }
                },
                _ => {},
            }
        },
        None => {},
    }
}

/// The first value that is told.
proof fn lemma_first_told(lines: Seq<Seq<char>>, of: spec_fn(Seq<char>) -> JsonTree, at: int)
    requires
        0 <= at <= lines.len(),
        at < lines.len() ==> !(of(lines[at]) is Null),
        forall|i: int| 0 <= i < at ==> of(#[trigger] lines[i]) is Null,
    ensures
        first_told(lines, of) == (if at < lines.len() {
            of(lines[at])
        } else {
            JsonTree::Null
        }),
    decreases at,
{
    if at > 0 {
        let rest = lines.drop_first();
        assert forall|i: int| 0 <= i < at - 1 implies of(#[trigger] rest[i]) is Null by {
            assert(rest[i] == lines[i + 1]);
        }
        assert(of(lines[0]) is Null);
        if at < lines.len() {
            assert(rest[at - 1] == lines[at]);
        }
        lemma_first_told(rest, of, at - 1);
    }
}

/// The working directory of a session is the one that its file tells last, within the last 400
/// lines. `at` is the line that tells it.
pub proof fn law_sessions_tell_their_directory(
    path: Seq<char>,
    name: Seq<char>,
    modified: u64,
    content: Seq<char>,
    at: int,
)
    requires
        0 <= at < lines(content).len(),
        lines(content).len() - at <= 400,
        !(directory_told(event_on(lines(content)[at])) is Null),
        forall|i: int|
            at < i < lines(content).len() ==> directory_told(
                event_on(#[trigger] lines(content)[i]),
            ) is Null,
    ensures
        file_summary(path, name, modified, Some(content)).cwd == directory_told(
            event_on(lines(content)[at]),
        ),
{
    let all = lines(content);
    let newest = latest_lines(content);
    let of = |line: Seq<char>| cwd_in(event_on(line));
    let spot = all.len() - 1 - at;
    assert forall|i: int| 0 <= i < newest.len() implies #[trigger] newest[i] == all[all.len() - 1
        - i] by {}
    assert(newest[spot] == all[at]);
    assert forall|i: int| 0 <= i < spot implies of(#[trigger] newest[i]) is Null by {
        assert(directory_told(event_on(all[all.len() - 1 - i])) is Null);
    }
    lemma_first_told(newest, of, spot);
}

/// The preview of a session is the beginning of the text that its file tells last, within the last
/// 400 lines. `at` is the line that tells it.
pub proof fn law_sessions_tell_their_last_text(
    path: Seq<char>,
    name: Seq<char>,
    modified: u64,
    content: Seq<char>,
    at: int,
    text: Seq<char>,
)
    requires
        0 <= at < lines(content).len(),
        lines(content).len() - at <= 400,
        tells_text(event_on(lines(content)[at]), text),
        forall|i: int, later: Seq<char>|
            at < i < lines(content).len() ==> !#[trigger] tells_text(
                event_on(lines(content)[i]),
                later,
            ),
    ensures
        ({
            let preview = file_summary(
                path,
                name,
                modified,
                Some(content),
            ).last_message_preview;
            &&& preview matches JsonTree::Text(shown)
            &&& shown.len() == (if text.len() <= 240 {
                text.len()
            } else {
                240
            })
            &&& shown == text.take(shown.len() as int)
        }),
{
    let all = lines(content);
    let newest = latest_lines(content);
    let of = |line: Seq<char>| preview_in(event_on(line));
    let spot = all.len() - 1 - at;
    assert forall|i: int| 0 <= i < newest.len() implies #[trigger] newest[i] == all[all.len() - 1
        - i] by {}
    assert(newest[spot] == all[at]);
    lemma_preview(event_on(all[at]));
    assert forall|i: int| 0 <= i < spot implies of(#[trigger] newest[i]) is Null by {
        let event = event_on(all[all.len() - 1 - i]);
        lemma_preview(event);
        assert forall|later: Seq<char>| !#[trigger] tells_text(event, later) by {
            assert(!tells_text(event_on(all[all.len() - 1 - i]), later));
        }
    }
    lemma_first_told(newest, of, spot);
    assert(first_chars(text, 240) =~= text.take(first_chars(text, 240).len() as int));
}

/// A session file that cannot be read, or whose last 400 lines tell nothing of it, tells neither a
/// directory nor a text.
pub proof fn law_silent_sessions_tell_nothing(
    path: Seq<char>,
    name: Seq<char>,
    modified: u64,
    content: Seq<char>,
)
    ensures
        file_summary(path, name, modified, None).cwd is Null,
        file_summary(path, name, modified, None).last_message_preview is Null,
        (forall|i: int|
            0 <= i < lines(content).len() && lines(content).len() - i <= 400 ==> directory_told(
                event_on(#[trigger] lines(content)[i]),
            ) is Null) ==> file_summary(path, name, modified, Some(content)).cwd is Null,
        (forall|i: int, text: Seq<char>|
            0 <= i < lines(content).len() && lines(content).len() - i <= 400
                ==> !#[trigger] tells_text(event_on(lines(content)[i]), text)) ==> file_summary(
            path,
            name,
            modified,
            Some(content),
        ).last_message_preview is Null,
{
    let all = lines(content);
    let newest = latest_lines(content);
    assert forall|i: int| 0 <= i < newest.len() implies #[trigger] newest[i] == all[all.len() - 1
        - i] by {}
    let cwd_of = |line: Seq<char>| cwd_in(event_on(line));
    let text_of = |line: Seq<char>| preview_in(event_on(line));
    if forall|i: int|
        0 <= i < all.len() && all.len() - i <= 400 ==> directory_told(
            event_on(#[trigger] all[i]),
        ) is Null {
        assert forall|i: int| 0 <= i < newest.len() implies cwd_of(
            #[trigger] newest[i],
        ) is Null by {
            assert(directory_told(event_on(all[all.len() - 1 - i])) is Null);
        }
        lemma_first_told(newest, cwd_of, newest.len() as int);
    }
    if forall|i: int, text: Seq<char>|
        0 <= i < all.len() && all.len() - i <= 400 ==> !#[trigger] tells_text(
            event_on(all[i]),
            text,
        ) {
        assert forall|i: int| 0 <= i < newest.len() implies text_of(
            #[trigger] newest[i],
        ) is Null by {
            let event = event_on(all[all.len() - 1 - i]);
            lemma_preview(event);
            assert forall|text: Seq<char>| !#[trigger] tells_text(event, text) by {
                assert(!tells_text(event_on(all[all.len() - 1 - i]), text));
            }
        }
        lemma_first_told(newest, text_of, newest.len() as int);
    }
}

} // verus!
