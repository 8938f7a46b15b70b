//! Carrying out actions on Linux.

use vstd::prelude::*;
use crate::ids::Uuid;
use crate::linux;
use crate::linux::{AppFacts, LinuxDecision, PathFacts, Tool};
use crate::protocol::ResolvedResource;
use crate::resource::ResourceKind;
use crate::text;

verus! {

/// A path is opened exactly when the resolved resource is the one that the action names,
/// its path starts at the root, is unchanged and readable, what stands there is of the
/// registered kind, and the opener is there. It is never skipped.
pub proof fn sound_paths_are_opened(
    resource_id: Uuid,
    resolved: Option<ResolvedResource>,
    facts: PathFacts,
)
    ensures
        linux::path_plan(resource_id, resolved, facts) == LinuxDecision::Run <==> {
            &&& resolved is Some
            &&& resolved->0.resource_id == resource_id
            &&& resolved->0.canonical_locator@.len() > 0
            &&& resolved->0.canonical_locator@[0] == '/'
            &&& facts.unchanged
            &&& facts.readable
            &&& resolved->0.kind == ResourceKind::File && facts.is_file || resolved->0.kind
                == ResourceKind::Directory && facts.is_directory
            &&& facts.opener_available
        },
        linux::path_plan(resource_id, resolved, facts) != LinuxDecision::Skip,
{
}

/// An application is launched exactly when its identifier is one, its entry and its program
/// are known, it is not running yet and the launcher is there; where it is running it is
/// left alone, launcher or not.
pub proof fn applications_are_launched_once(app_id: Seq<char>, facts: AppFacts)
    ensures
        ({
            let startable = 1 <= app_id.len() <= 128 && (forall|i: int|
                0 <= i < app_id.len() ==> is_word_char(#[trigger] app_id[i])) && facts.entry_found
                && facts.program_known;
            &&& linux::app_plan(app_id, facts) == LinuxDecision::Run <==> startable
                && !facts.running && facts.launcher_available
            &&& linux::app_plan(app_id, facts) == LinuxDecision::Skip <==> startable
                && facts.running
        }),
{
    if 1 <= app_id.len() <= 128 {
        assert forall|i: int| 0 <= i < app_id.len() implies (is_word_char(#[trigger] app_id[i])
            <==> crate::ritual::is_app_id_char(app_id[i])) by {}
    }
}

/// The letters, digits and marks of identifiers.
pub open spec fn is_word_char(c: char) -> bool {
    'a' <= c <= 'z' || 'A' <= c <= 'Z' || '0' <= c <= '9' || c == '-' || c == '_' || c == '.'
}

/// A desktop entry is a file named like the entry with the extension behind it, and no
/// other file is one.
pub proof fn entries_are_named_by_their_files(name: Seq<char>, id: Seq<char>)
    ensures
        linux::entry_of_file(name) == Some(id) <==> id.len() > 0 && name == id + ".desktop"@,
        linux::entry_of_file(name) is None <==> !exists|stem: Seq<char>|
            stem.len() > 0 && name == #[trigger] (stem + ".desktop"@),
{
    let extension = ".desktop"@;
    let stem = name.take(name.len() - extension.len());
    if linux::entry_of_file(name) is Some {
        assert(name =~= stem + extension);
    }
    if exists|stem: Seq<char>| stem.len() > 0 && name == #[trigger] (stem + extension) {
        let other = choose|stem: Seq<char>|
            stem.len() > 0 && name == #[trigger] (stem + extension);
        assert(name.skip(name.len() - extension.len()) =~= extension);
        assert(stem =~= other);
    }
    if id.len() > 0 && name == id + extension {
        assert(name.skip(name.len() - extension.len()) =~= extension);
        assert(stem =~= id);
    }
}

/// Desktop entries are looked for below every directory that the environment names, then
/// below the two that every system has, in this order and nowhere else.
pub proof fn every_named_directory_is_searched(
    data_home: Option<&str>,
    home: Option<&str>,
    data_dirs: Seq<String>,
    i: int,
)
    ensures
        ({
            let list = linux::directories(data_home, home, data_dirs);
            let own: int = if data_home is Some {
                1
            } else {
                0
            };
            let user: int = if home is Some {
                1
            } else {
                0
            };
            &&& list.len() == own + user + data_dirs.len() + 2
            &&& data_home is Some ==> list[0] == crate::paths::joined(
                data_home->0@,
                "applications"@,
            )
            &&& home is Some ==> list[own] == crate::paths::joined(
                home->0@,
                ".local/share/applications"@,
            )
            &&& 0 <= i < data_dirs.len() ==> list[own + user + i] == crate::paths::joined(
                data_dirs[i]@,
                "applications"@,
            )
            &&& list[list.len() - 2] == "/usr/local/share/applications"@
            &&& list[list.len() - 1] == "/usr/share/applications"@
        }),
{
}

/// The line of a desktop entry that says what is executed names the last component of the
/// first word, whatever directory stands before it and whatever arguments follow.
pub proof fn executed_lines_name_their_program(
    directory: Seq<char>,
    name: Seq<char>,
    arguments: Seq<char>,
)
    requires
        directory.len() == 0 || directory.last() == '/',
        name.len() > 0,
        name != seq!['.'],
        name != seq!['.', '.'],
        forall|i: int| 0 <= i < directory.len() ==> !text::is_white_space(#[trigger] directory[i]),
        forall|i: int|
            0 <= i < name.len() ==> !text::is_white_space(#[trigger] name[i]) && name[i] != '/',
        arguments.len() == 0 || text::is_white_space(arguments[0]),
    ensures
        linux::program_in_line("Exec="@ + (directory + name + arguments)) == Some(name),
{
    let key = "Exec="@;
    let word = directory + name;
    let rest = word + arguments;
    let line = key + rest;
    assert(line.take(key.len() as int) =~= key);
    assert(line.skip(key.len() as int) =~= rest);
    let n = word.len() as int;
    assert(!text::is_white_space(rest[0])) by {
        if directory.len() == 0 {
            assert(rest[0] == name[0]);
        } else {
            assert(rest[0] == directory[0]);
        }
    }
    assert forall|i: int| 0 <= i < n implies !text::is_white_space(#[trigger] rest[i]) by {
        if i < directory.len() {
            assert(rest[i] == directory[i]);
        } else {
            assert(rest[i] == name[i - directory.len()]);
        }
    }
    assert(arguments.len() > 0 ==> rest[n] == arguments[0]);
    word_ends(rest, 0, n);
    assert(rest.subrange(0, n) =~= word);
    let d = directory.len() as int;
    assert forall|i: int| d <= i < n implies #[trigger] word[i] != '/' by {
        assert(word[i] == name[i - d]);
    }
    assert(d > 0 ==> word[d - 1] == '/');
    component_begins(word, n, d);
    assert(word.subrange(d, n) =~= name);
}

proof fn word_ends(rest: Seq<char>, from: int, n: int)
    requires
        0 <= from <= n <= rest.len(),
        forall|i: int| from <= i < n ==> !text::is_white_space(#[trigger] rest[i]),
        n == rest.len() || text::is_white_space(rest[n]),
    ensures
        linux::next_place(rest, from, true) == n,
    decreases n - from,
{
    if from < n {
        word_ends(rest, from + 1, n);
    }
}

proof fn component_begins(path: Seq<char>, end: int, start: int)
    requires
        0 <= start <= end <= path.len(),
        forall|i: int| start <= i < end ==> #[trigger] path[i] != '/',
        start > 0 ==> path[start - 1] == '/',
    ensures
        linux::component_start(path, end) == start,
    decreases end - start,
{
    if start < end {
        component_begins(path, end - 1, start);
    }
}

/// A desktop entry starts what the first of its lines starts that starts anything.
pub proof fn first_executed_line_counts(line: Seq<char>, rest: Seq<char>)
    requires
        forall|i: int| 0 <= i < line.len() ==> #[trigger] line[i] != '\n',
    ensures
        linux::program_from(line, 0) == linux::program_in_line(line),
        linux::program_in_line(line) is Some ==> linux::program_from(
            line.push('\n') + rest,
            0,
        ) == linux::program_in_line(line),
        linux::program_in_line(line) is None ==> linux::program_from(line.push('\n') + rest, 0)
            == linux::program_from(rest, 0),
{
    reveal_strlit("Exec=");
    let content = line.push('\n') + rest;
    let n = line.len() as int;
    assert forall|i: int| 0 <= i < n implies #[trigger] content[i] != '\n' by {
        assert(content[i] == line[i]);
    }
    assert(content[n] == '\n');
    line_ends(content, 0, n);
    assert(content.subrange(0, n) =~= line);
    line_ends(line, 0, n);
    assert(line.subrange(0, n) =~= line);
    later_lines(content, n + 1, rest, 0);
}

proof fn line_ends(content: Seq<char>, from: int, n: int)
    requires
        0 <= from <= n <= content.len(),
        forall|i: int| from <= i < n ==> #[trigger] content[i] != '\n',
        n == content.len() || content[n] == '\n',
    ensures
        linux::line_end(content, from) == n,
    decreases n - from,
{
    if from < n {
        line_ends(content, from + 1, n);
    }
}

proof fn shifted_line_end(content: Seq<char>, skipped: int, rest: Seq<char>, from: int)
    requires
        0 <= skipped <= content.len(),
        content.skip(skipped) == rest,
        0 <= from <= rest.len(),
    ensures
        linux::line_end(content, skipped + from) == skipped + linux::line_end(rest, from),
        from <= linux::line_end(rest, from) <= rest.len(),
    decreases rest.len() - from,
{
    if from < rest.len() {
        assert(rest[from] == content[skipped + from]);
        if rest[from] != '\n' {
            shifted_line_end(content, skipped, rest, from + 1);
        }
    }
}

proof fn later_lines(content: Seq<char>, skipped: int, rest: Seq<char>, from: int)
    requires
        0 <= skipped <= content.len(),
        content.skip(skipped) =~= rest,
        0 <= from <= rest.len(),
    ensures
        linux::program_from(content, skipped + from) == linux::program_from(rest, from),
    decreases rest.len() - from,
{
    if from < rest.len() {
        shifted_line_end(content, skipped, rest, from);
        let end = linux::line_end(rest, from);
        assert(content.subrange(skipped + from, skipped + end) =~= rest.subrange(from, end));
        if end < rest.len() {
            later_lines(content, skipped, rest, end + 1);
        }
    }
}

/// What a tool reports is told apart: another code and another message for each, and a
/// failure of each in words of its own.
pub proof fn tools_report_apart(a: Tool, b: Tool)
    requires
        a != b,
    ensures
        linux::success_code(a).0@ != linux::success_code(b).0@,
        linux::success_code(a).1@ != linux::success_code(b).1@,
        linux::failure_text(a)@ != linux::failure_text(b)@,
{
    reveal_strlit("launched");
    reveal_strlit("opened");
    reveal_strlit("sent");
    reveal_strlit("application launch requested");
    reveal_strlit("path open requested");
    reveal_strlit("notification sent");
    reveal_strlit("application launch failed");
    reveal_strlit("path open failed");
    reveal_strlit("notification failed");
    assert("launched"@.len() == 8 && "opened"@.len() == 6 && "sent"@.len() == 4);
    assert("application launch requested"@.len() == 28 && "path open requested"@.len() == 19
        && "notification sent"@.len() == 17);
    assert("application launch failed"@.len() == 25 && "path open failed"@.len() == 16
        && "notification failed"@.len() == 19);
}

/// A program is taken to run exactly when a process has its name and does not belong to
/// somebody else.
pub proof fn own_processes_count(
    owner: Option<u32>,
    user: u32,
    name: Option<Seq<char>>,
    program: Seq<char>,
)
    ensures
        linux::runs_program(owner, user, name, program) <==> name is Some && name->0 == program
            && !(owner is Some && owner->0 != user),
{
}

/// A notification is shown exactly when the notifier is there, and is never skipped.
pub proof fn notifications_are_shown(notifier_available: bool)
    ensures
        linux::notification_plan(notifier_available) == LinuxDecision::Run <==> notifier_available,
        linux::notification_plan(notifier_available) != LinuxDecision::Skip,
{
}

} // verus!
