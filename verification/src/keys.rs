//! The key bindings of a session: a copy of those in use, with a shortcut to
//! detach, in a table of the session's own.

use vstd::prelude::*;
#[allow(unused_imports)]
use vstd::string::*;

use crate::bytes;
use crate::bytes::utf8_of;
use crate::error;
use crate::error::{message, message3, ErrorModel, ToolError};
use crate::identity;
use crate::identity::{session_key_tables, stable_hash};
use crate::layout;
use crate::path::join_text;
use crate::tasks;
use crate::tasks::{check, identify, Answer, AnswerModel};
use crate::text;
use crate::text::{
    chars_of, chars_start_with, decimal_text, lines_of, same_text, text_between, trimmed,
};
use crate::tmux::{CommandModel, TmuxCommand};

verus! {

/// A text with the first occurrence of a pattern, from a place on, replaced.
pub open spec fn replaced_from(
    line: Seq<char>,
    pattern: Seq<char>,
    replacement: Seq<char>,
    from: int,
) -> Seq<char>
    decreases line.len() + 1 - from,
{
    if from < 0 || from + pattern.len() > line.len() {
        line
    } else if line.subrange(from, from + pattern.len()) == pattern {
        line.take(from) + replacement + line.skip(from + pattern.len())
    } else {
        replaced_from(line, pattern, replacement, from + 1)
    }
}

/// A text with the first occurrence of a pattern replaced.
pub open spec fn replaced(
    line: Seq<char>,
    pattern: Seq<char>,
    replacement: Seq<char>,
) -> Seq<char> {
    replaced_from(line, pattern, replacement, 0)
}

fn replace_first(line: &str, pattern: &str, replacement: &str) -> (out: String)
    ensures
        out@ == replaced(line@, pattern@, replacement@),
{
    let chars: Vec<char> = chars_of(line);
    let wanted: Vec<char> = chars_of(pattern);
    let mut i: usize = 0;
    while i <= chars.len()
        invariant
            chars@ == line@,
            wanted@ == pattern@,
            i <= chars@.len() + 1,
            replaced_from(line@, pattern@, replacement@, i as int) == replaced(
                line@,
                pattern@,
                replacement@,
            ),
        decreases chars@.len() + 1 - i,
    {
        if chars.len() - i < wanted.len() {
            return line.to_owned();
        }
        if chars_start_with(chars.as_slice(), i, wanted.as_slice()) {
            assert(line@.subrange(i as int, i + pattern@.len()) =~= pattern@);
            let mut out: String = text_between(chars.as_slice(), 0, i);
            out.append(replacement);
            out.append(text_between(chars.as_slice(), i + wanted.len(), chars.len()).as_str());
            assert(out@ =~= line@.take(i as int) + replacement@ + line@.skip(
                i + pattern@.len(),
            ));
            return out;
        }
        assert(line@.subrange(i as int, i + pattern@.len()) != pattern@) by {
            assert(line@.skip(i as int).take(pattern@.len() as int) =~= line@.subrange(
                i as int,
                i + pattern@.len(),
            ));
        }
        assert(i < chars@.len()) by {
            if i == chars@.len() {
                assert(line@.skip(i as int).take(pattern@.len() as int) =~= pattern@);
            }
        }
        i = i + 1;
    }
    line.to_owned()
}

/// The bindings of one table, moved to another.
pub open spec fn moved(lines: Seq<Seq<char>>, active: Seq<char>, staging: Seq<char>) -> Seq<char>
    decreases lines.len(),
{
    if lines.len() == 0 {
        Seq::empty()
    } else {
        moved(lines.drop_last(), active, staging) + replaced(
            lines.last(),
            "-T "@ + active,
            "-T "@ + staging,
        ) + "\n"@
    }
}

/// What the new table is made of: the bindings in use, and the shortcut.
pub open spec fn bindings_of(
    listing: Seq<char>,
    active: Seq<char>,
    staging: Seq<char>,
) -> Seq<char> {
    moved(text::lines(listing), active, staging) + "bind-key -T "@ + staging
        + " C-] detach-client\n"@
}

pub fn bindings(listing: &str, active: &str, staging: &str) -> (out: String)
    ensures
        out@ == bindings_of(listing@, active@, staging@),
{
    let lines: Vec<String> = lines_of(listing);
    let ghost all = text::lines(listing@);
    let mut pattern: String = "-T ".to_owned();
    pattern.append(active);
    let mut replacement: String = "-T ".to_owned();
    replacement.append(staging);
    let mut out: String = String::new();
    let mut i: usize = 0;
    assert(out@ =~= moved(all.take(0), active@, staging@));
    while i < lines.len()
        invariant
            all == text::lines(listing@),
            text::views(lines@) == all,
            pattern@ == "-T "@ + active@,
            replacement@ == "-T "@ + staging@,
            i <= lines@.len(),
            out@ == moved(all.take(i as int), active@, staging@),
        decreases lines@.len() - i,
    {
        assert(all[i as int] == lines@[i as int]@);
        let line: String = replace_first(
            lines[i].as_str(),
            pattern.as_str(),
            replacement.as_str(),
        );
        out.append(line.as_str());
        out.append("\n");
        assert(all.take(i + 1).drop_last() =~= all.take(i as int));
        assert(all.take(i + 1).last() == all[i as int]);
        i = i + 1;
    }
    assert(lines@.len() == text::views(lines@).len());
    assert(all.take(i as int) =~= all);
    out.append("bind-key -T ");
    out.append(staging);
    out.append(" C-] detach-client\n");
    out
}

/// The table in use; without one of its own a session uses the root table.
pub open spec fn active_table(value: Seq<char>) -> Seq<char> {
    if text::trim(value).len() == 0 {
        "root"@
    } else {
        text::trim(value)
    }
}

/// The table to prepare: the one of the session's two that is not in use.
pub open spec fn staging_table(session: Seq<char>, active: Seq<char>) -> Seq<char> {
    if active == identity::key_tables(session).0 {
        identity::key_tables(session).1
    } else {
        identity::key_tables(session).0
    }
}

/// The table in use is one of the session's own, and no longer needed.
pub open spec fn retired(session: Seq<char>, active: Seq<char>) -> bool {
    (active == identity::key_tables(session).0 || active == identity::key_tables(session).1)
        && active != staging_table(session, active)
}

/// The table that is prepared is never the one in use, so a session has its
/// bindings at every moment; and only its own tables are ever retired.
pub proof fn staging_is_not_in_use(session: Seq<char>, active: Seq<char>)
    ensures
        staging_table(session, active) != active,
        retired(session, active) ==> active == identity::key_tables(session).0 || active
            == identity::key_tables(session).1,
{
    identity::key_tables_differ(session);
}

/// The directory for the bindings on their way to tmux.
pub open spec fn bindings_directory(temporary: Seq<u8>, staging: Seq<char>, process: nat) -> Seq<u8> {
    layout::below(
        temporary,
        ".david-key-table-"@ + identity::hash_text(staging) + "-"@ + text::decimal(process),
    )
}

pub open spec fn bindings_file(directory: Seq<u8>) -> Seq<u8> {
    layout::below(directory, "bindings.conf"@)
}

/// What comes next in giving a session its key table.
#[derive(Debug)]
pub enum KeyTask {
    Ask(TmuxCommand),
    /// Create a directory that only its owner can enter.
    MakeDirectory(Vec<u8>),
    /// Create a file that only its owner can read; it must not exist.
    CreateFile(Vec<u8>),
    WriteFile(Vec<u8>, Vec<u8>),
    RemoveFile(Vec<u8>),
    RemoveDirectory(Vec<u8>),
    Finish,
    Fail(ToolError),
}

#[verifier::ext_equal]
pub enum KeyModel {
    Ask(CommandModel),
    MakeDirectory(Seq<u8>),
    CreateFile(Seq<u8>),
    WriteFile(Seq<u8>, Seq<u8>),
    RemoveFile(Seq<u8>),
    RemoveDirectory(Seq<u8>),
    Finish,
    Fail(ErrorModel),
}

impl View for KeyTask {
    type V = KeyModel;

    open spec fn view(&self) -> KeyModel {
        match self {
            KeyTask::Ask(command) => KeyModel::Ask(command@),
            KeyTask::MakeDirectory(path) => KeyModel::MakeDirectory(path@),
            KeyTask::CreateFile(path) => KeyModel::CreateFile(path@),
            KeyTask::WriteFile(path, content) => KeyModel::WriteFile(path@, content@),
            KeyTask::RemoveFile(path) => KeyModel::RemoveFile(path@),
            KeyTask::RemoveDirectory(path) => KeyModel::RemoveDirectory(path@),
            KeyTask::Finish => KeyModel::Finish,
            KeyTask::Fail(e) => KeyModel::Fail(e@),
        }
    }
}

/// What could not be removed, and why.
pub open spec fn leftover(what: Seq<char>, answer: AnswerModel) -> Option<Seq<char>> {
    match answer {
        AnswerModel::Failed { not_found: _, detail } => Some(what + ": "@ + detail),
        _ => None,
    }
}

/// The complaint about what could not be removed.
pub open spec fn leftovers(
    file: Option<Seq<char>>,
    directory: Option<Seq<char>>,
) -> Option<Seq<char>> {
    match (file, directory) {
        (None, None) => None,
        (Some(one), None) => Some(
            "failed to remove temporary tmux configuration ("@ + one + ")"@,
        ),
        (None, Some(one)) => Some(
            "failed to remove temporary tmux configuration ("@ + one + ")"@,
        ),
        (Some(one), Some(two)) => Some(
            "failed to remove temporary tmux configuration ("@ + (one + ", "@ + two) + ")"@,
        ),
    }
}

/// Giving a session its key table: find out which one is in use, list its
/// bindings, and load them into the other one by way of a temporary file, which
/// is removed whatever happens. Only then switch to the new table, and empty the
/// old one if it was the session's own.
pub open spec fn key_task(
    session: Seq<char>,
    temporary: Seq<u8>,
    process: nat,
    answers: Seq<AnswerModel>,
) -> KeyModel {
    if answers.len() == 0 {
        KeyModel::Ask(CommandModel::ListSessions)
    } else {
        match tasks::identified(answers[0], session) {
            Err(e) => KeyModel::Fail(e),
            Ok(id) => if answers.len() == 1 {
                KeyModel::Ask(CommandModel::ShowOption { target: id, option: "key-table"@ })
            } else {
                match tasks::checked(answers[1]) {
                    Err(e) => KeyModel::Fail(e),
                    Ok(value) => prepare_task(
                        session,
                        active_table(value),
                        temporary,
                        process,
                        answers,
                    ),
                }
            },
        }
    }
}

pub open spec fn prepare_task(
    session: Seq<char>,
    active: Seq<char>,
    temporary: Seq<u8>,
    process: nat,
    answers: Seq<AnswerModel>,
) -> KeyModel {
    let staging = staging_table(session, active);
    if answers.len() == 2 {
        KeyModel::Ask(CommandModel::ListKeys { table: active })
    } else {
        match tasks::checked(answers[2]) {
            Err(e) => KeyModel::Fail(e),
            Ok(listing) => if answers.len() == 3 {
                KeyModel::Ask(CommandModel::ClearKeys { table: staging })
            } else {
                match tasks::checked(answers[3]) {
                    Err(e) => KeyModel::Fail(e),
                    Ok(_) => load_task(
                        session,
                        active,
                        bindings_of(listing, active, staging),
                        bindings_directory(temporary, staging, process),
                        answers,
                    ),
                }
            },
        }
    }
}

pub open spec fn load_task(
    session: Seq<char>,
    active: Seq<char>,
    content: Seq<char>,
    directory: Seq<u8>,
    answers: Seq<AnswerModel>,
) -> KeyModel {
    let file = bindings_file(directory);
    if answers.len() == 4 {
        KeyModel::MakeDirectory(directory)
    } else {
        match tasks::checked(answers[4]) {
            Err(e) => KeyModel::Fail(e),
            Ok(_) => if answers.len() == 5 {
                KeyModel::CreateFile(file)
            } else {
                match tasks::checked(answers[5]) {
                    Err(e) => unload_task(session, active, directory, false, Some(e), answers, 6),
                    Ok(_) => if answers.len() == 6 {
                        KeyModel::WriteFile(file, vstd::utf8::encode_utf8(content))
                    } else {
                        match tasks::checked(answers[6]) {
                            Err(e) => unload_task(
                                session,
                                active,
                                directory,
                                true,
                                Some(e),
                                answers,
                                7,
                            ),
                            Ok(_) => if answers.len() == 7 {
                                KeyModel::Ask(CommandModel::SourceFile { path: file })
                            } else {
                                unload_task(
                                    session,
                                    active,
                                    directory,
                                    true,
                                    match tasks::checked(answers[7]) {
                                        Err(e) => Some(e),
                                        Ok(_) => None,
                                    },
                                    answers,
                                    8,
                                )
                            },
                        }
                    },
                }
            },
        }
    }
}

/// Removing the temporary file, if there is one, and its directory.
pub open spec fn unload_task(
    session: Seq<char>,
    active: Seq<char>,
    directory: Seq<u8>,
    has_file: bool,
    failure: Option<ErrorModel>,
    answers: Seq<AnswerModel>,
    at: int,
) -> KeyModel {
    let next = if has_file {
        at + 1
    } else {
        at
    };
    if has_file && answers.len() == at {
        KeyModel::RemoveFile(bindings_file(directory))
    } else if answers.len() == next {
        KeyModel::RemoveDirectory(directory)
    } else {
        let file = if has_file {
            leftover("file"@, answers[at])
        } else {
            None
        };
        match (failure, leftovers(file, leftover("directory"@, answers[next]))) {
            (Some(e), Some(complaint)) => KeyModel::Fail(
                ErrorModel::Message(error::error_text(e) + "; "@ + complaint),
            ),
            (Some(e), None) => KeyModel::Fail(e),
            (None, Some(complaint)) => KeyModel::Fail(ErrorModel::Message(complaint)),
            (None, None) => switch_task(session, active, answers, next + 1),
        }
    }
}

/// Switching to the new table.
pub open spec fn switch_task(
    session: Seq<char>,
    active: Seq<char>,
    answers: Seq<AnswerModel>,
    at: int,
) -> KeyModel {
    if answers.len() == at {
        KeyModel::Ask(CommandModel::ListSessions)
    } else {
        match tasks::identified(answers[at], session) {
            Err(e) => KeyModel::Fail(e),
            Ok(id) => if answers.len() == at + 1 {
                KeyModel::Ask(
                    CommandModel::SetOption {
                        target: id,
                        option: "key-table"@,
                        value: staging_table(session, active),
                    },
                )
            } else {
                match tasks::checked(answers[at + 1]) {
                    Err(e) => KeyModel::Fail(e),
                    Ok(_) => if !retired(session, active) {
                        KeyModel::Finish
                    } else if answers.len() == at + 2 {
                        KeyModel::Ask(CommandModel::ClearKeys { table: active })
                    } else {
                        match tasks::checked(answers[at + 2]) {
                            Err(e) => KeyModel::Fail(e),
                            Ok(_) => KeyModel::Finish,
                        }
                    },
                }
            },
        }
    }
}

fn prepared_table(session: &str, active: &str) -> (staging: String)
    ensures
        staging@ == staging_table(session@, active@),
{
    let (first, second): (String, String) = session_key_tables(session);
    if same_text(active, first.as_str()) {
        second
    } else {
        first
    }
}

pub fn configure_key_table(session: &str, temporary: &[u8], process: u32, answers: &Vec<Answer>) -> (task:
    KeyTask)
    ensures
        task@ == key_task(
            session@,
            temporary@,
            process as nat,
            tasks::answer_views(answers@),
        ),
{
    let ghost all = tasks::answer_views(answers@);
    if answers.len() == 0 {
        return KeyTask::Ask(TmuxCommand::ListSessions);
    }
    assert(all[0] == answers@[0]@);
    let id: String = match identify(&answers[0], session) {
        Ok(id) => id,
        Err(e) => {
            return KeyTask::Fail(e);
        },
    };
    if answers.len() == 1 {
        return KeyTask::Ask(
            TmuxCommand::ShowOption { target: id, option: "key-table".to_owned() },
        );
    }
    assert(all[1] == answers@[1]@);
    let value: String = match check(&answers[1]) {
        Ok(value) => trimmed(value.as_str()),
        Err(e) => {
            return KeyTask::Fail(e);
        },
    };
    let active: String = if value.as_str().is_empty() {
        "root".to_owned()
    } else {
        value
    };
    let staging: String = prepared_table(session, active.as_str());
    if answers.len() == 2 {
        return KeyTask::Ask(TmuxCommand::ListKeys { table: active });
    }
    assert(all[2] == answers@[2]@);
    let listing: String = match check(&answers[2]) {
        Ok(listing) => listing,
        Err(e) => {
            return KeyTask::Fail(e);
        },
    };
    if answers.len() == 3 {
        return KeyTask::Ask(TmuxCommand::ClearKeys { table: staging });
    }
    assert(all[3] == answers@[3]@);
    if let Err(e) = check(&answers[3]) {
        return KeyTask::Fail(e);
    }
    let mut name: String = ".david-key-table-".to_owned();
    name.append(stable_hash(staging.as_str()).as_str());
    name.append("-");
    name.append(decimal_text(process as u128).as_str());
    let directory: Vec<u8> = join_text(temporary, name.as_str());
    load(session, active.as_str(), listing.as_str(), staging.as_str(), directory, answers)
}

fn load(
    session: &str,
    active: &str,
    listing: &str,
    staging: &str,
    directory: Vec<u8>,
    answers: &Vec<Answer>,
) -> (task: KeyTask)
    requires
        answers@.len() >= 4,
    ensures
        task@ == load_task(
            session@,
            active@,
            bindings_of(listing@, active@, staging@),
            directory@,
            tasks::answer_views(answers@),
        ),
{
    let ghost all = tasks::answer_views(answers@);
    let file: Vec<u8> = join_text(directory.as_slice(), "bindings.conf");
    if answers.len() == 4 {
        return KeyTask::MakeDirectory(directory);
    }
    assert(all[4] == answers@[4]@);
    if let Err(e) = check(&answers[4]) {
        return KeyTask::Fail(e);
    }
    if answers.len() == 5 {
        return KeyTask::CreateFile(file);
    }
    assert(all[5] == answers@[5]@);
    if let Err(e) = check(&answers[5]) {
        return unload(session, active, directory, false, Some(e), answers, 6);
    }
    if answers.len() == 6 {
        return KeyTask::WriteFile(file, utf8_of(bindings(listing, active, staging).as_str()));
    }
    assert(all[6] == answers@[6]@);
    if let Err(e) = check(&answers[6]) {
        return unload(session, active, directory, true, Some(e), answers, 7);
    }
    if answers.len() == 7 {
        return KeyTask::Ask(TmuxCommand::SourceFile { path: file });
    }
    assert(all[7] == answers@[7]@);
    match check(&answers[7]) {
        Ok(_) => unload(session, active, directory, true, None, answers, 8),
        Err(e) => unload(session, active, directory, true, Some(e), answers, 8),
    }
}

fn left_over(what: &str, answer: &Answer) -> (out: Option<String>)
    ensures
        match out {
            Some(text) => leftover(what@, answer@) == Some(text@),
            None => leftover(what@, answer@) is None,
        },
{
    match answer {
        Answer::Failed(failure) => {
            let mut text: String = what.to_owned();
            text.append(": ");
            text.append(failure.detail.as_str());
            Some(text)
        },
        _ => None,
    }
}

fn cleanup_complaint(file: Option<String>, directory: Option<String>) -> (out: Option<String>)
    ensures
        ({
            let complaint = leftovers(
                match file {
                    Some(text) => Some(text@),
                    None => None,
                },
                match directory {
                    Some(text) => Some(text@),
                    None => None,
                },
            );
            match out {
                Some(text) => complaint == Some(text@),
                None => complaint is None,
            }
        }),
{
    let problems: String = match (file, directory) {
        (None, None) => {
            return None;
        },
        (Some(one), None) => one,
        (None, Some(one)) => one,
        (Some(one), Some(two)) => {
            let mut both: String = one;
            both.append(", ");
            both.append(two.as_str());
            both
        },
    };
    let mut text: String = "failed to remove temporary tmux configuration (".to_owned();
    text.append(problems.as_str());
    text.append(")");
    Some(text)
}

fn unload(
    session: &str,
    active: &str,
    directory: Vec<u8>,
    has_file: bool,
    failure: Option<ToolError>,
    answers: &Vec<Answer>,
    at: usize,
) -> (task: KeyTask)
    requires
        at <= answers@.len(),
        at < 100,
    ensures
        task@ == unload_task(
            session@,
            active@,
            directory@,
            has_file,
            match failure {
                Some(e) => Some(e@),
                None => None,
            },
            tasks::answer_views(answers@),
            at as int,
        ),
{
    let ghost all = tasks::answer_views(answers@);
    if has_file && answers.len() == at {
        return KeyTask::RemoveFile(join_text(directory.as_slice(), "bindings.conf"));
    }
    let next: usize = if has_file {
        at + 1
    } else {
        at
    };
    if answers.len() == next {
        return KeyTask::RemoveDirectory(directory);
    }
    let file: Option<String> = if has_file {
        assert(all[at as int] == answers@[at as int]@);
        left_over("file", &answers[at])
    } else {
        None
    };
    assert(all[next as int] == answers@[next as int]@);
    let complaint: Option<String> = cleanup_complaint(
        file,
        left_over("directory", &answers[next]),
    );
    match (failure, complaint) {
        (Some(e), Some(complaint)) => KeyTask::Fail(
            message3(e.text().as_str(), "; ", complaint.as_str()),
        ),
        (Some(e), None) => KeyTask::Fail(e),
        (None, Some(complaint)) => KeyTask::Fail(message(complaint.as_str())),
        (None, None) => switch(session, active, answers, next + 1),
    }
}

fn switch(session: &str, active: &str, answers: &Vec<Answer>, at: usize) -> (task: KeyTask)
    requires
        at <= answers@.len(),
        at < 200,
    ensures
        task@ == switch_task(
            session@,
            active@,
            tasks::answer_views(answers@),
            at as int,
        ),
{
    let ghost all = tasks::answer_views(answers@);
    if answers.len() == at {
        return KeyTask::Ask(TmuxCommand::ListSessions);
    }
    assert(all[at as int] == answers@[at as int]@);
    let id: String = match identify(&answers[at], session) {
        Ok(id) => id,
        Err(e) => {
            return KeyTask::Fail(e);
        },
    };
    let staging: String = prepared_table(session, active);
    if answers.len() == at + 1 {
        return KeyTask::Ask(
            TmuxCommand::SetOption {
                target: id,
                option: "key-table".to_owned(),
                value: staging,
            },
        );
    }
    assert(all[at + 1] == answers@[at + 1]@);
    if let Err(e) = check(&answers[at + 1]) {
        return KeyTask::Fail(e);
    }
    let (first, second): (String, String) = session_key_tables(session);
    if !((same_text(active, first.as_str()) || same_text(active, second.as_str())) && !same_text(
        active,
        staging.as_str(),
    )) {
        return KeyTask::Finish;
    }
    if answers.len() == at + 2 {
        return KeyTask::Ask(TmuxCommand::ClearKeys { table: active.to_owned() });
    }
    assert(all[at + 2] == answers@[at + 2]@);
    match check(&answers[at + 2]) {
        Ok(_) => KeyTask::Finish,
        Err(e) => KeyTask::Fail(e),
    }
}

/// The directory is made when the first answers are all good, and from then on it
/// is the loading that goes on.
proof fn lemma_loading(
    session: Seq<char>,
    temporary: Seq<u8>,
    process: nat,
    answers: Seq<AnswerModel>,
) -> (known: (Seq<char>, Seq<char>, Seq<u8>))
    requires
        answers.len() >= 4,
        key_task(session, temporary, process, answers.take(4)) is MakeDirectory,
    ensures
        key_task(session, temporary, process, answers.take(4)) == KeyModel::MakeDirectory(known.2),
        forall|m: int|
            4 <= m <= answers.len() ==> #[trigger] key_task(
                session,
                temporary,
                process,
                answers.take(m),
            ) == load_task(session, known.0, known.1, known.2, answers.take(m)),
{
    let first = answers.take(4);
    assert(first[0] == answers[0] && first[1] == answers[1]);
    assert(first[2] == answers[2] && first[3] == answers[3]);
    let active = active_table(tasks::checked(answers[1])->Ok_0);
    let staging = staging_table(session, active);
    let content = bindings_of(tasks::checked(answers[2])->Ok_0, active, staging);
    let directory = bindings_directory(temporary, staging, process);
    assert forall|m: int| 4 <= m <= answers.len() implies #[trigger] key_task(
        session,
        temporary,
        process,
        answers.take(m),
    ) == load_task(session, active, content, directory, answers.take(m)) by {
        let some = answers.take(m);
        assert(some[0] == answers[0] && some[1] == answers[1]);
        assert(some[2] == answers[2] && some[3] == answers[3]);
    }
    (active, content, directory)
}

/// Once the temporary directory exists, there is no end before its removal was
/// asked for, and once the file exists, none before that of the file.
pub proof fn temporary_files_are_removed(
    session: Seq<char>,
    temporary: Seq<u8>,
    process: nat,
    directory: Seq<u8>,
    answers: Seq<AnswerModel>,
)
    requires
        answers.len() > 4,
        key_task(session, temporary, process, answers.take(4)) == KeyModel::MakeDirectory(
            directory,
        ),
        tasks::checked(answers[4]) is Ok,
        ({
            let task = key_task(session, temporary, process, answers);
            task is Finish || task is Fail
        }),
    ensures
        exists|n: int|
            4 < n < answers.len() && #[trigger] key_task(
                session,
                temporary,
                process,
                answers.take(n),
            ) == KeyModel::RemoveDirectory(directory),
        answers.len() > 5,
        tasks::checked(answers[5]) is Ok ==> exists|n: int|
            5 < n < answers.len() && #[trigger] key_task(
                session,
                temporary,
                process,
                answers.take(n),
            ) == KeyModel::RemoveFile(bindings_file(directory)),
{
    let (active, content, _) = lemma_loading(session, temporary, process, answers);
    assert(answers.take(answers.len() as int) =~= answers);
    let (file, folder): (int, int) = if tasks::checked(answers[5]) is Err {
        (6, 6)
    } else if tasks::checked(answers[6]) is Err {
        (7, 8)
    } else {
        (8, 9)
    };
    assert(load_task(session, active, content, directory, answers.take(folder))
        == KeyModel::RemoveDirectory(directory));
    assert(key_task(session, temporary, process, answers.take(folder))
        == KeyModel::RemoveDirectory(directory));
    if tasks::checked(answers[5]) is Ok {
        assert(load_task(session, active, content, directory, answers.take(file))
            == KeyModel::RemoveFile(bindings_file(directory)));
        assert(key_task(session, temporary, process, answers.take(file))
            == KeyModel::RemoveFile(bindings_file(directory)));
    }
}

/// An option is set only behind the loading.
proof fn lemma_switched_when_loaded(
    session: Seq<char>,
    active: Seq<char>,
    content: Seq<char>,
    directory: Seq<u8>,
    answers: Seq<AnswerModel>,
)
    requires
        answers.len() >= 4,
        load_task(session, active, content, directory, answers) matches KeyModel::Ask(command)
            && command is SetOption,
    ensures
        answers.len() > 8,
        tasks::checked(answers[4]) is Ok,
        tasks::checked(answers[5]) is Ok,
        tasks::checked(answers[6]) is Ok,
        tasks::checked(answers[7]) is Ok,
        load_task(session, active, content, directory, answers)->Ask_0->SetOption_value
            == staging_table(session, active),
{
}

/// A session is switched to its new table only when the bindings of the old one
/// were listed and loaded into it.
pub proof fn tables_are_loaded_before_the_switch(
    session: Seq<char>,
    temporary: Seq<u8>,
    process: nat,
    answers: Seq<AnswerModel>,
)
    requires
        key_task(session, temporary, process, answers) matches KeyModel::Ask(command)
            && command is SetOption,
    ensures
        answers.len() > 8,
        forall|i: int| 0 <= i < 8 ==> tasks::checked(#[trigger] answers[i]) is Ok,
        key_task(session, temporary, process, answers)->Ask_0->SetOption_value == staging_table(
            session,
            active_table(tasks::checked(answers[1])->Ok_0),
        ),
{
    assert(answers.len() >= 4);
    let active = active_table(tasks::checked(answers[1])->Ok_0);
    let staging = staging_table(session, active);
    let content = bindings_of(tasks::checked(answers[2])->Ok_0, active, staging);
    let directory = bindings_directory(temporary, staging, process);
    lemma_switched_when_loaded(session, active, content, directory, answers);
    assert forall|i: int| 0 <= i < 8 implies tasks::checked(#[trigger] answers[i]) is Ok by {
        assert(i == 0 || i == 1 || i == 2 || i == 3 || i == 4 || i == 5 || i == 6 || i == 7);
    }
}

/// A binding: what stands between the command and the table, which are flags, and
/// what stands behind the table, which is the key and what it does.
pub struct Binding {
    pub flags: Seq<char>,
    pub action: Seq<char>,
}

/// A binding as tmux lists it for a table.
pub open spec fn binding_line(binding: Binding, table: Seq<char>) -> Seq<char> {
    "bind-key"@ + binding.flags + "-T "@ + table + binding.action
}

/// The bindings of a table as tmux lists them.
pub open spec fn listing_of(list: Seq<Binding>, table: Seq<char>) -> Seq<char>
    decreases list.len(),
{
    if list.len() == 0 {
        Seq::empty()
    } else {
        listing_of(list.drop_last(), table) + binding_line(list.last(), table) + "\n"@
    }
}

/// The shortcut to detach.
pub open spec fn shortcut() -> Binding {
    Binding { flags: " "@, action: " C-] detach-client"@ }
}

/// A binding takes up one line, and its flags name no table.
pub open spec fn is_plain(binding: Binding) -> bool {
    &&& !binding.flags.contains('T')
    &&& !binding.flags.contains('\n')
    &&& !binding.action.contains('\n')
    &&& binding.action.len() > 0
    &&& binding.action.last() != '\r'
}

proof fn lemma_replaced_at(
    line: Seq<char>,
    pattern: Seq<char>,
    replacement: Seq<char>,
    from: int,
    at: int,
)
    requires
        0 <= from <= at,
        at + pattern.len() <= line.len(),
        forall|j: int|
            from <= j < at ==> #[trigger] line.subrange(j, j + pattern.len()) != pattern,
        line.subrange(at, at + pattern.len()) == pattern,
    ensures
        replaced_from(line, pattern, replacement, from) == line.take(at) + replacement + line.skip(
            at + pattern.len(),
        ),
    decreases at - from,
{
    if from < at {
        assert(line.subrange(from, from + pattern.len()) != pattern);
        lemma_replaced_at(line, pattern, replacement, from + 1, at);
    }
}

/// A binding keeps its flags, its key and what it does in the other table.
proof fn lemma_binding_moves(binding: Binding, active: Seq<char>, staging: Seq<char>)
    requires
        is_plain(binding),
    ensures
        replaced(binding_line(binding, active), "-T "@ + active, "-T "@ + staging) == binding_line(
            binding,
            staging,
        ),
{
    reveal_strlit("bind-key");
    reveal_strlit("-T ");
    let line = binding_line(binding, active);
    let pattern = "-T "@ + active;
    let head = "bind-key"@ + binding.flags;
    let at = head.len() as int;
    assert(line =~= head + pattern + binding.action);
    assert(line.subrange(at, at + pattern.len()) =~= pattern);
    assert(line.take(at) =~= head);
    assert(line.skip(at + pattern.len()) =~= binding.action);
    assert forall|j: int| 0 <= j < at implies #[trigger] line.subrange(j, j + pattern.len())
        != pattern by {
        assert(line.subrange(j, j + pattern.len())[1] == line[j + 1]);
        assert(pattern[1] == 'T');
        if j + 1 < at {
            assert(line[j + 1] == head[j + 1]);
            if j + 1 >= 8 {
                assert(head[j + 1] == binding.flags[j + 1 - 8]);
                assert(binding.flags.contains(binding.flags[j + 1 - 8]));
            }
        } else {
            assert(line[at] == pattern[0]);
        }
    }
    lemma_replaced_at(line, pattern, "-T "@ + staging, 0, at);
    assert(head + ("-T "@ + staging) + binding.action =~= binding_line(binding, staging));
}

/// The lines of a text that is a sequence of lines, with one more behind them.
proof fn lemma_line_behind(before: Seq<char>, line: Seq<char>)
    requires
        before.len() > 0 ==> before.last() == '\n',
        !line.contains('\n'),
        line.len() > 0 ==> line.last() != '\r',
    ensures
        text::lines(before + line + "\n"@) == text::lines(before).push(line),
    decreases before.len(),
{
    reveal_strlit("\n");
    let whole = before + line + "\n"@;
    text::lemma_find(before, '\n');
    let k = text::find(before, '\n');
    if before.len() == 0 {
        let n = line.len() as int;
        assert forall|i: int| 0 <= i < n implies whole[i] != '\n' by {
            assert(whole[i] == line[i]);
            assert(line.contains(line[i]));
        }
        text::lemma_find_is(whole, '\n', n);
        assert(whole.take(n) =~= line);
        assert(whole.skip(n + 1) =~= before);
        assert(whole.take(n) == text::without_cr(line));
        assert(text::lines(whole) == seq![line] + text::lines(before));
    } else {
        assert(before.contains(before.last()));
        let rest = before.skip(k + 1);
        text::lemma_find_is(whole, '\n', k);
        assert(whole.take(k) =~= before.take(k));
        assert(whole.skip(k + 1) =~= rest + line + "\n"@);
        lemma_line_behind(rest, line);
        assert(text::lines(whole) =~= text::lines(before).push(line));
    }
}

/// The bindings that are listed, one by one.
proof fn lemma_listed(list: Seq<Binding>, table: Seq<char>)
    requires
        forall|i: int| 0 <= i < list.len() ==> is_plain(#[trigger] list[i]),
        !table.contains('\n'),
    ensures
        text::lines(listing_of(list, table)) == list.map_values(
            |binding: Binding| binding_line(binding, table),
        ),
        listing_of(list, table).len() > 0 ==> listing_of(list, table).last() == '\n',
    decreases list.len(),
{
    reveal_strlit("\n");
    let to_line = |binding: Binding| binding_line(binding, table);
    if list.len() == 0 {
        assert(text::lines(listing_of(list, table)) =~= list.map_values(to_line));
    } else {
        let before = list.drop_last();
        let last = list.last();
        assert forall|i: int| 0 <= i < before.len() implies is_plain(#[trigger] before[i]) by {
            assert(before[i] == list[i]);
        }
        assert(is_plain(list[list.len() - 1]));
        lemma_listed(before, table);
        lemma_one_line(last, table);
        lemma_line_behind(listing_of(before, table), binding_line(last, table));
        assert(list.map_values(to_line) =~= before.map_values(to_line).push(to_line(last)));
    }
}

proof fn lemma_one_line(binding: Binding, table: Seq<char>)
    requires
        is_plain(binding),
        !table.contains('\n'),
    ensures
        !binding_line(binding, table).contains('\n'),
        binding_line(binding, table).last() == binding.action.last(),
{
    reveal_strlit("bind-key");
    reveal_strlit("-T ");
    let line = binding_line(binding, table);
    let a = 8 + binding.flags.len();
    let b = a + 3 + table.len();
    assert forall|i: int| 0 <= i < line.len() implies line[i] != '\n' by {
        if 8 <= i < a {
            assert(line[i] == binding.flags[i - 8]);
            assert(binding.flags.contains(binding.flags[i - 8]));
        } else if a + 3 <= i < b {
            assert(line[i] == table[i - a - 3]);
            assert(table.contains(table[i - a - 3]));
        } else if b <= i {
            assert(line[i] == binding.action[i - b]);
            assert(binding.action.contains(binding.action[i - b]));
        }
    }
}

/// What is loaded into the new table is what the old one holds, binding by binding,
/// and the shortcut to detach.
pub proof fn bindings_are_kept(list: Seq<Binding>, active: Seq<char>, staging: Seq<char>)
    requires
        forall|i: int| 0 <= i < list.len() ==> is_plain(#[trigger] list[i]),
        !active.contains('\n'),
    ensures
        bindings_of(listing_of(list, active), active, staging) == listing_of(
            list.push(shortcut()),
            staging,
        ),
{
    lemma_listed(list, active);
    lemma_moved(list, active, staging);
    assert(list.push(shortcut()).drop_last() =~= list);
    reveal_strlit("bind-key");
    reveal_strlit("-T ");
    reveal_strlit(" ");
    reveal_strlit("bind-key -T ");
    reveal_strlit(" C-] detach-client");
    reveal_strlit(" C-] detach-client\n");
    reveal_strlit("\n");
    assert("bind-key"@ + " "@ + "-T "@ =~= "bind-key -T "@);
    assert(" C-] detach-client"@ + "\n"@ =~= " C-] detach-client\n"@);
    assert(bindings_of(listing_of(list, active), active, staging) =~= listing_of(list, staging) + (
    ("bind-key"@ + " "@ + "-T "@) + staging + " C-] detach-client"@) + "\n"@);
}

proof fn lemma_moved(list: Seq<Binding>, active: Seq<char>, staging: Seq<char>)
    requires
        forall|i: int| 0 <= i < list.len() ==> is_plain(#[trigger] list[i]),
    ensures
        moved(
            list.map_values(|binding: Binding| binding_line(binding, active)),
            active,
            staging,
        ) == listing_of(list, staging),
    decreases list.len(),
{
    let to_line = |binding: Binding| binding_line(binding, active);
    let lines = list.map_values(to_line);
    if list.len() > 0 {
        let before = list.drop_last();
        assert forall|i: int| 0 <= i < before.len() implies is_plain(#[trigger] before[i]) by {
            assert(before[i] == list[i]);
        }
        assert(is_plain(list[list.len() - 1]));
        lemma_moved(before, active, staging);
        lemma_binding_moves(list.last(), active, staging);
        assert(lines.drop_last() =~= before.map_values(to_line));
        assert(lines.last() == to_line(list.last()));
    }
}

/// The table that a session has in use when its configuration starts.
pub open spec fn table_before(answers: Seq<AnswerModel>) -> Seq<char> {
    active_table(tasks::checked(answers[1])->Ok_0)
}

/// The table that a configuration prepares.
pub open spec fn table_after(session: Seq<char>, answers: Seq<AnswerModel>) -> Seq<char> {
    staging_table(session, table_before(answers))
}

/// The table is one of the session's own.
pub open spec fn is_own(session: Seq<char>, table: Seq<char>) -> bool {
    table == identity::key_tables(session).0 || table == identity::key_tables(session).1
}

/// At no time is a table cleared, or switched to, that is not the session's own, and
/// nothing is loaded but the file of the configuration. All other commands only read.
pub proof fn only_own_tables_change(
    session: Seq<char>,
    temporary: Seq<u8>,
    process: nat,
    answers: Seq<AnswerModel>,
)
    ensures
        key_task(session, temporary, process, answers) matches KeyModel::Ask(command) ==> (
        match command {
            CommandModel::ListSessions => true,
            CommandModel::ShowOption { .. } => true,
            CommandModel::ListKeys { .. } => true,
            CommandModel::ClearKeys { table } => is_own(session, table),
            CommandModel::SetOption { target: _, option, value } => option == "key-table"@
                && is_own(session, value),
            CommandModel::SourceFile { path } => path == bindings_file(
                bindings_directory(temporary, table_after(session, answers), process),
            ),
            _ => false,
        }),
{
}

/// A configuration that succeeds has taken all its steps: it has loaded the bindings
/// of the table in use into the other one, removed what that took, switched, and
/// cleared the old table if it is the session's own.
pub proof fn configurations_take_their_course(
    session: Seq<char>,
    temporary: Seq<u8>,
    process: nat,
    answers: Seq<AnswerModel>,
)
    requires
        key_task(session, temporary, process, answers) is Finish,
    ensures
        answers.len() >= 12,
        ({
            let before = table_before(answers);
            let after = table_after(session, answers);
            let directory = bindings_directory(temporary, after, process);
            let file = bindings_file(directory);
            let task = |n: int| key_task(session, temporary, process, answers.take(n));
            &&& task(2) == KeyModel::Ask(CommandModel::ListKeys { table: before })
            &&& task(3) == KeyModel::Ask(CommandModel::ClearKeys { table: after })
            &&& task(4) == KeyModel::MakeDirectory(directory)
            &&& task(5) == KeyModel::CreateFile(file)
            &&& task(6) == KeyModel::WriteFile(
                file,
                vstd::utf8::encode_utf8(
                    bindings_of(tasks::checked(answers[2])->Ok_0, before, after),
                ),
            )
            &&& task(7) == KeyModel::Ask(CommandModel::SourceFile { path: file })
            &&& task(8) == KeyModel::RemoveFile(file)
            &&& task(9) == KeyModel::RemoveDirectory(directory)
            &&& !(answers[8] is Failed) && !(answers[9] is Failed)
            &&& task(11) == KeyModel::Ask(
                CommandModel::SetOption {
                    target: tasks::identified(answers[10], session)->Ok_0,
                    option: "key-table"@,
                    value: after,
                },
            )
            &&& is_own(session, before) ==> answers.len() >= 13 && task(12) == KeyModel::Ask(
                CommandModel::ClearKeys { table: before },
            )
        }),
{
    staging_is_not_in_use(session, table_before(answers));
    assert(answers.len() >= 4);
    assert(tasks::checked(answers[4]) is Ok && tasks::checked(answers[5]) is Ok);
    assert(tasks::checked(answers[6]) is Ok && tasks::checked(answers[7]) is Ok);
    assert(answers.len() >= 12);
    assert forall|n: int, i: int| 0 <= i < n <= answers.len() implies #[trigger] answers.take(n)[i]
        == answers[i] by {}
}

/// Two configurations of a session, of which the second finds in use what the first
/// has switched to, give it different tables of its own. The second one loads the
/// bindings of the first table, together with the shortcut to detach, switches, and
/// clears the first table; its temporary file and directory are removed.
pub proof fn configurations_alternate(
    session: Seq<char>,
    temporary: Seq<u8>,
    process: nat,
    first: Seq<AnswerModel>,
    other_temporary: Seq<u8>,
    other_process: nat,
    second: Seq<AnswerModel>,
    list: Seq<Binding>,
)
    requires
        key_task(session, temporary, process, first) is Finish,
        key_task(session, other_temporary, other_process, second) is Finish,
        text::trim(tasks::checked(second[1])->Ok_0) == table_after(session, first),
        tasks::checked(second[2]) == Ok::<Seq<char>, ErrorModel>(
            listing_of(list, table_after(session, first)),
        ),
        forall|i: int| 0 <= i < list.len() ==> is_plain(#[trigger] list[i]),
    ensures
        first.len() >= 12,
        second.len() >= 13,
        ({
            let one = table_after(session, first);
            let two = table_after(session, second);
            let directory = bindings_directory(other_temporary, two, other_process);
            let file = bindings_file(directory);
            let before = |n: int| key_task(session, temporary, process, first.take(n));
            let task = |n: int| key_task(session, other_temporary, other_process, second.take(n));
            &&& one != two
            &&& is_own(session, one) && is_own(session, two)
            &&& before(11) == KeyModel::Ask(
                CommandModel::SetOption {
                    target: tasks::identified(first[10], session)->Ok_0,
                    option: "key-table"@,
                    value: one,
                },
            )
            &&& task(6) == KeyModel::WriteFile(
                file,
                vstd::utf8::encode_utf8(listing_of(list.push(shortcut()), two)),
            )
            &&& task(7) == KeyModel::Ask(CommandModel::SourceFile { path: file })
            &&& task(8) == KeyModel::RemoveFile(file)
            &&& task(9) == KeyModel::RemoveDirectory(directory)
            &&& !(second[8] is Failed) && !(second[9] is Failed)
            &&& task(11) == KeyModel::Ask(
                CommandModel::SetOption {
                    target: tasks::identified(second[10], session)->Ok_0,
                    option: "key-table"@,
                    value: two,
                },
            )
            &&& task(12) == KeyModel::Ask(CommandModel::ClearKeys { table: one })
        }),
{
    let one = table_after(session, first);
    configurations_take_their_course(session, temporary, process, first);
    configurations_take_their_course(session, other_temporary, other_process, second);
    identity::lemma_key_table(session);
    assert(table_before(second) == one);
    staging_is_not_in_use(session, one);
    bindings_are_kept(list, one, table_after(session, second));
}

/// All answers that were given so far are good ones.
pub open spec fn goes_well(session: Seq<char>, answers: Seq<AnswerModel>) -> bool {
    &&& answers.len() > 0 ==> tasks::identified(answers[0], session) is Ok
    &&& forall|i: int| 1 <= i < 8 && i < answers.len() ==> tasks::checked(#[trigger] answers[i]) is Ok
    &&& answers.len() > 8 ==> !(answers[8] is Failed)
    &&& answers.len() > 9 ==> !(answers[9] is Failed)
    &&& answers.len() > 10 ==> tasks::identified(answers[10], session) is Ok
    &&& answers.len() > 11 ==> tasks::checked(answers[11]) is Ok
    &&& answers.len() > 12 ==> tasks::checked(answers[12]) is Ok
}

/// As long as all answers are good, a session is given its new key table, one thing after
/// the other, and then the configuration ends well.
pub proof fn key_tables_are_given(
    session: Seq<char>,
    temporary: Seq<u8>,
    process: nat,
    answers: Seq<AnswerModel>,
)
    requires
        answers.len() <= 13,
        goes_well(session, answers),
    ensures
        ({
            let before = table_before(answers);
            let after = table_after(session, answers);
            let directory = bindings_directory(temporary, after, process);
            let file = bindings_file(directory);
            let id = tasks::identified(answers[0], session)->Ok_0;
            let content = bindings_of(tasks::checked(answers[2])->Ok_0, before, after);
            let n = answers.len();
            key_task(session, temporary, process, answers) == (if n == 0 || n == 10 {
                KeyModel::Ask(CommandModel::ListSessions)
            } else if n == 1 {
                KeyModel::Ask(CommandModel::ShowOption { target: id, option: "key-table"@ })
            } else if n == 2 {
                KeyModel::Ask(CommandModel::ListKeys { table: before })
            } else if n == 3 {
                KeyModel::Ask(CommandModel::ClearKeys { table: after })
            } else if n == 4 {
                KeyModel::MakeDirectory(directory)
            } else if n == 5 {
                KeyModel::CreateFile(file)
            } else if n == 6 {
                KeyModel::WriteFile(file, vstd::utf8::encode_utf8(content))
            } else if n == 7 {
                KeyModel::Ask(CommandModel::SourceFile { path: file })
            } else if n == 8 {
                KeyModel::RemoveFile(file)
            } else if n == 9 {
                KeyModel::RemoveDirectory(directory)
            } else if n == 11 {
                KeyModel::Ask(
                    CommandModel::SetOption {
                        target: tasks::identified(answers[10], session)->Ok_0,
                        option: "key-table"@,
                        value: after,
                    },
                )
            } else if n == 12 && is_own(session, before) {
                KeyModel::Ask(CommandModel::ClearKeys { table: before })
            } else {
                KeyModel::Finish
            })
        }),
{
    staging_is_not_in_use(session, table_before(answers));
    assert(answers.len() > 1 ==> tasks::checked(answers[1]) is Ok);
    assert(answers.len() > 2 ==> tasks::checked(answers[2]) is Ok);
    assert(answers.len() > 3 ==> tasks::checked(answers[3]) is Ok);
    assert(answers.len() > 4 ==> tasks::checked(answers[4]) is Ok);
    assert(answers.len() > 5 ==> tasks::checked(answers[5]) is Ok);
    assert(answers.len() > 6 ==> tasks::checked(answers[6]) is Ok);
    assert(answers.len() > 7 ==> tasks::checked(answers[7]) is Ok);
}

/// A session without a table of its own uses the root table; and it is given the first
/// of its two tables, unless it uses that already.
pub proof fn tables_are_told_apart(session: Seq<char>, value: Seq<char>)
    ensures
        text::is_blank(value) ==> active_table(value) == "root"@,
        !text::is_blank(value) ==> active_table(value) == text::trim(value),
        staging_table(session, identity::key_tables(session).0) == identity::key_tables(session).1,
        value != identity::key_tables(session).0 ==> staging_table(session, value)
            == identity::key_tables(session).0,
        retired(session, value) <==> is_own(session, value),
{
    text::lemma_trim_blank(value);
    identity::key_tables_differ(session);
}

/// What the bindings are written to is named after the table and the process.
pub proof fn bindings_have_a_place_of_their_own(
    temporary: Seq<u8>,
    table: Seq<char>,
    process: nat,
)
    requires
        temporary.len() > 0,
        temporary.last() != 47,
    ensures
        bindings_file(bindings_directory(temporary, table, process)) == temporary
            + vstd::utf8::encode_utf8(
            "/.david-key-table-"@ + identity::hash_text(table) + "-"@ + text::decimal(process)
                + "/bindings.conf"@,
        ),
{
    let name = ".david-key-table-"@ + identity::hash_text(table) + "-"@ + text::decimal(process);
    reveal_strlit(".david-key-table-");
    reveal_strlit("/.david-key-table-");
    reveal_strlit("bindings.conf");
    reveal_strlit("/bindings.conf");
    reveal_strlit("-");
    layout::lemma_below(temporary, name);
    let directory = bindings_directory(temporary, table, process);
    text::lemma_decimal_plain(process);
    assert(name.last() == text::decimal(process).last());
    bytes::lemma_last_byte(seq!['/'] + name);
    layout::lemma_below(directory, "bindings.conf"@);
    bytes::lemma_encode_concat(seq!['/'] + name, seq!['/'] + "bindings.conf"@);
    assert("/.david-key-table-"@ =~= seq!['/'] + ".david-key-table-"@);
    assert("/bindings.conf"@ =~= seq!['/'] + "bindings.conf"@);
    assert("/.david-key-table-"@ + identity::hash_text(table) + "-"@ + text::decimal(process)
        + "/bindings.conf"@ =~= (seq!['/'] + name) + (seq!['/'] + "bindings.conf"@));
    assert(bindings_file(directory) =~= temporary + (vstd::utf8::encode_utf8(seq!['/'] + name)
        + vstd::utf8::encode_utf8(seq!['/'] + "bindings.conf"@)));
}

/// A configuration that fails while it loads its bindings is answered with that failure,
/// and with what could not be removed, if anything.
pub proof fn failed_loads_are_told(
    session: Seq<char>,
    temporary: Seq<u8>,
    process: nat,
    answers: Seq<AnswerModel>,
    e: ErrorModel,
)
    requires
        answers.len() >= 10,
        goes_well(session, answers.take(7)),
        tasks::checked(answers[7]) == Err::<Seq<char>, ErrorModel>(e),
    ensures
        !(answers[8] is Failed) && !(answers[9] is Failed) ==> key_task(
            session,
            temporary,
            process,
            answers,
        ) == KeyModel::Fail(e),
        answers[8] matches AnswerModel::Failed { not_found: _, detail } ==> !(answers[9] is Failed)
            ==> key_task(session, temporary, process, answers) == KeyModel::Fail(
            ErrorModel::Message(
                error::error_text(e) + "; "@ + (
                "failed to remove temporary tmux configuration ("@ + ("file"@ + ": "@ + detail)
                    + ")"@),
            ),
        ),
{
    let some = answers.take(7);
    assert(some[0] == answers[0] && some[1] == answers[1] && some[2] == answers[2]);
    assert(some[3] == answers[3] && some[4] == answers[4] && some[5] == answers[5]);
    assert(some[6] == answers[6]);
}

} // verus!
