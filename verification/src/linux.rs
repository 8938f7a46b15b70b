//! What the Linux adapter decides: which applications it knows, and what it does for an
//! action.

use vstd::prelude::*;
use crate::adapter::LINUX_ADAPTER_ID;
use crate::ids::Uuid;
use crate::order;
use crate::paths;
use crate::protocol::{
    ActionResult, AdapterActionStatus, AdapterHello, AdapterRequestEnvelope, AdapterResponseBody,
    AdapterResponseEnvelope, AdapterStatusSnapshot, AdapterToolStatus, ResolvedResource,
};
use crate::resource;
use crate::resource::ResourceKind;
use crate::ritual;
use crate::text;

verus! {

/// Which of the three tools are there.
#[derive(Clone, Copy, Debug, PartialEq, Eq, Structural)]
pub struct Tools {
    pub gtk_launch: bool,
    pub xdg_open: bool,
    pub notify_send: bool,
}

pub open spec fn is_tool(status: AdapterToolStatus, name: Seq<char>, available: bool) -> bool {
    status.name@ == name && status.available == available
}

/// The state that the adapter reports.
pub fn linux_status(tools: Tools, desktop_entry_ids: Vec<String>) -> (status: AdapterStatusSnapshot)
    ensures
        status.tools@.len() == 3,
        is_tool(status.tools@[0], "gtk-launch"@, tools.gtk_launch),
        is_tool(status.tools@[1], "xdg-open"@, tools.xdg_open),
        is_tool(status.tools@[2], "notify-send"@, tools.notify_send),
        status.desktop_entry_ids == desktop_entry_ids,
        status.permitted_resource_ids@.len() == 0,
{
    let mut list: Vec<AdapterToolStatus> = Vec::new();
    list.push(AdapterToolStatus { name: "gtk-launch".to_owned(), available: tools.gtk_launch });
    list.push(AdapterToolStatus { name: "xdg-open".to_owned(), available: tools.xdg_open });
    list.push(AdapterToolStatus { name: "notify-send".to_owned(), available: tools.notify_send });
    AdapterStatusSnapshot {
        tools: list,
        desktop_entry_ids,
        permitted_resource_ids: Vec::new(),
    }
}

/// Introduces the adapter to the daemon.
pub fn linux_hello(instance_id: Uuid, version: &str, status: AdapterStatusSnapshot) -> (hello:
    AdapterHello)
    ensures
        hello.adapter_id@ == LINUX_ADAPTER_ID@,
        hello.adapter_version@ == version@,
        hello.instance_id == instance_id,
        hello.action_capabilities@.len() == 3,
        hello.action_capabilities@[0]@ == "linux.app.ensure_running.v1"@,
        hello.action_capabilities@[1]@ == "linux.path.open.v1"@,
        hello.action_capabilities@[2]@ == "desktop.notification.show.v1"@,
        hello.event_capabilities@.len() == 0,
        hello.status == status,
{
    let mut action_capabilities: Vec<String> = Vec::new();
    action_capabilities.push("linux.app.ensure_running.v1".to_owned());
    action_capabilities.push("linux.path.open.v1".to_owned());
    action_capabilities.push("desktop.notification.show.v1".to_owned());
    AdapterHello {
        adapter_id: LINUX_ADAPTER_ID.to_owned(),
        adapter_version: version.to_owned(),
        instance_id,
        action_capabilities,
        event_capabilities: Vec::new(),
        status,
    }
}

/// The directories in which desktop entries are looked for.
pub open spec fn directories(
    data_home: Option<&str>,
    home: Option<&str>,
    data_dirs: Seq<String>,
) -> Seq<Seq<char>> {
    let own = match data_home {
        Some(path) => seq![paths::joined(path@, "applications"@)],
        None => Seq::empty(),
    };
    let user = match home {
        Some(path) => seq![paths::joined(path@, ".local/share/applications"@)],
        None => Seq::empty(),
    };
    own + user + data_dirs.map_values(|path: String| paths::joined(path@, "applications"@)) + seq![
        "/usr/local/share/applications"@,
        "/usr/share/applications"@,
    ]
}

pub open spec fn texts(list: Seq<String>) -> Seq<Seq<char>> {
    list.map_values(|item: String| item@)
}

/// Lists the directories in which desktop entries are looked for: those that the
/// environment names, then those that every system has.
pub fn application_directories(
    data_home: Option<&str>,
    home: Option<&str>,
    data_dirs: &Vec<String>,
) -> (list: Vec<String>)
    ensures
        texts(list@) == directories(data_home, home, data_dirs@),
{
    let mut list: Vec<String> = Vec::new();
    let ghost own: Seq<Seq<char>> = match data_home {
        Some(path) => seq![paths::joined(path@, "applications"@)],
        None => Seq::empty(),
    };
    if let Some(path) = data_home {
        list.push(paths::join(path, "applications"));
    }
    assert(texts(list@) =~= own);
    let ghost user: Seq<Seq<char>> = match home {
        Some(path) => seq![paths::joined(path@, ".local/share/applications"@)],
        None => Seq::empty(),
    };
    if let Some(path) = home {
        list.push(paths::join(path, ".local/share/applications"));
    }
    assert(texts(list@) =~= own + user);
    let ghost named = data_dirs@.map_values(|path: String| paths::joined(path@, "applications"@));
    for i in 0..data_dirs.len()
        invariant
            named == data_dirs@.map_values(|path: String| paths::joined(path@, "applications"@)),
            texts(list@) == own + user + named.take(i as int),
    {
        let ghost before = list@;
        let directory = paths::join(data_dirs[i].as_str(), "applications");
        list.push(directory);
        assert(texts(list@) =~= texts(before).push(directory@));
        assert(named.take(i + 1) =~= named.take(i as int).push(named[i as int]));
        assert(texts(list@) =~= own + user + named.take(i + 1));
    }
    list.push("/usr/local/share/applications".to_owned());
    list.push("/usr/share/applications".to_owned());
    assert(named.take(named.len() as int) =~= named);
    assert(texts(list@) =~= own + user + named + seq![
        "/usr/local/share/applications"@,
        "/usr/share/applications"@,
    ]);
    list
}

/// Desktop entries are looked for only in directories that are called so.
pub proof fn directories_are_application_directories(
    data_home: Option<&str>,
    home: Option<&str>,
    data_dirs: Seq<String>,
    i: int,
)
    requires
        0 <= i < directories(data_home, home, data_dirs).len(),
    ensures
        exists|head: Seq<char>|
            directories(data_home, home, data_dirs)[i] == #[trigger] (head + "applications"@),
{
    reveal_strlit("applications");
    reveal_strlit(".local/share/applications");
    reveal_strlit("/usr/local/share/applications");
    reveal_strlit("/usr/share/applications");
    let path = directories(data_home, home, data_dirs)[i];
    let own = if data_home is Some { 1int } else { 0int };
    let user = if home is Some { 1int } else { 0int };
    let tail = "applications"@;
    let n = data_dirs.len() as int;
    if i < own {
        assert(path == paths::joined(data_home->0@, tail));
        assert(tail.skip(0) =~= tail);
        ends_in(data_home->0@, tail, tail);
    } else if i < own + user {
        assert(path == paths::joined(home->0@, ".local/share/applications"@));
        assert(".local/share/applications"@.skip(13) =~= tail);
        ends_in(home->0@, ".local/share/applications"@, tail);
    } else if i < own + user + n {
        assert(path == paths::joined(data_dirs[i - own - user]@, tail));
        assert(tail.skip(0) =~= tail);
        ends_in(data_dirs[i - own - user]@, tail, tail);
    } else if i == own + user + n {
        assert(path =~= path.take(17) + tail);
    } else {
        assert(path =~= path.take(11) + tail);
    }
}

proof fn ends_in(base: Seq<char>, name: Seq<char>, tail: Seq<char>)
    requires
        tail.len() <= name.len(),
        name.skip(name.len() - tail.len()) == tail,
    ensures
        exists|head: Seq<char>| paths::joined(base, name) == #[trigger] (head + tail),
{
    let all = paths::joined(base, name);
    let head = all.take(all.len() - tail.len());
    assert forall|i: int| 0 <= i < tail.len() implies all[head.len() + i] == tail[i] by {
        assert(tail[i] == name.skip(name.len() - tail.len())[i]);
    }
    assert(all =~= head + tail);
}

/// The entry that a file of a directory is: its name without the extension.
pub open spec fn entry_of_file(name: Seq<char>) -> Option<Seq<char>> {
    let extension = ".desktop"@;
    let stem = name.take(name.len() - extension.len());
    if name.len() > extension.len() && name.skip(name.len() - extension.len()) == extension {
        Some(stem)
    } else {
        None
    }
}

/// The entry that a file is, if it is one.
pub fn entry_id(name: &str) -> (r: Option<String>)
    ensures
        match entry_of_file(name@) {
            Some(id) => r is Some && r->0@ == id,
            None => r is None,
        },
{
    let chars = text::chars_of(name);
    let extension = text::chars_of(".desktop");
    if chars.len() <= extension.len() {
        return None;
    }
    let stem_len: usize = chars.len() - extension.len();
    let ghost tail = name@.skip(stem_len as int);
    for i in 0..extension.len()
        invariant
            chars@ == name@,
            extension@ == ".desktop"@,
            stem_len + extension.len() == chars.len(),
            stem_len > 0,
            tail == name@.skip(stem_len as int),
            forall|j: int| 0 <= j < i ==> tail[j] == extension@[j],
    {
        if chars[stem_len + i] != extension[i] {
            assert(tail[i as int] != extension@[i as int]);
            return None;
        }
        assert(tail[i as int] == extension@[i as int]);
    }
    assert(tail =~= extension@);
    let mut stem: Vec<char> = Vec::new();
    for i in 0..stem_len
        invariant
            chars@ == name@,
            stem_len <= chars@.len(),
            stem@ == name@.take(i as int),
    {
        stem.push(chars[i]);
        assert(stem@ =~= name@.take(i + 1));
    }
    Some(text::text_of(stem.as_slice()))
}

pub open spec fn sorts_before(a: Seq<char>, b: Seq<char>) -> bool {
    order::lex_before(order::code_points(a), order::code_points(b))
}

/// In order, and nothing twice.
pub open spec fn is_strictly_sorted(list: Seq<String>) -> bool {
    forall|i: int, j: int|
        0 <= i < j < list.len() ==> sorts_before((#[trigger] list[i])@, (#[trigger] list[j])@)
}

/// Puts texts into order and drops repetitions.
pub fn sort_and_dedup(unsorted: Vec<String>) -> (list: Vec<String>)
    ensures
        is_strictly_sorted(list@),
        texts(list@).to_set() == texts(unsorted@).to_set(),
{
    let mut list: Vec<String> = Vec::new();
    let ghost all = texts(unsorted@);
    proof {
        assert(texts(list@).to_set() =~= all.take(0).to_set());
    }
    for n in 0..unsorted.len()
        invariant
            all == texts(unsorted@),
            is_strictly_sorted(list@),
            texts(list@).to_set() == all.take(n as int).to_set(),
    {
        let item = unsorted[n].clone();
        let ghost before = list@;
        let mut at: usize = 0;
        while at < list.len() && order::text_before(list[at].as_str(), item.as_str())
            invariant
                at <= list@.len(),
                list@ == before,
                forall|j: int| 0 <= j < at ==> sorts_before((#[trigger] list@[j])@, item@),
            decreases list@.len() - at,
        {
            at = at + 1;
        }
        proof {
            assert(all.take(n + 1) =~= all.take(n as int).push(item@));
            set_of_push(all.take(n as int), item@);
        }
        if at < list.len() && text::same(list[at].as_str(), item.as_str()) {
            proof {
                assert(texts(list@)[at as int] == item@);
                assert(texts(list@).contains(item@));
                assert(texts(list@).to_set().contains(item@));
                assert(texts(list@).to_set().insert(item@) =~= texts(list@).to_set());
            }
        } else {
            proof {
                if at < before.len() {
                    order::lex_total(
                        order::code_points(before[at as int]@),
                        order::code_points(item@),
                    );
                    order::code_points_injective(before[at as int]@, item@);
                    assert(sorts_before(item@, before[at as int]@));
                }
                assert forall|j: int| at <= j < before.len() implies sorts_before(
                    item@,
                    (#[trigger] before[j])@,
                ) by {
                    if j > at {
                        order::lex_transitive(
                            order::code_points(item@),
                            order::code_points(before[at as int]@),
                            order::code_points(before[j]@),
                        );
                    }
                }
            }
            let ghost added = item;
            list.insert(at, item);
            proof {
                assert(texts(list@) =~= texts(before).insert(at as int, added@));
                set_of_insert(texts(before), at as int, added@);
                assert forall|i: int, j: int| 0 <= i < j < list@.len() implies sorts_before(
                    (#[trigger] list@[i])@,
                    (#[trigger] list@[j])@,
                ) by {
                    let x = if i < at { i } else { i - 1 };
                    let y = if j < at { j } else { j - 1 };
                    if i != at {
                        assert(list@[i] == before[x]);
                    }
                    if j != at {
                        assert(list@[j] == before[y]);
                    }
                }
            }
        }
    }
    proof {
        assert(all.take(all.len() as int) =~= all);
    }
    list
}

proof fn set_of_push(s: Seq<Seq<char>>, x: Seq<char>)
    ensures
        s.push(x).to_set() == s.to_set().insert(x),
{
    set_of_insert(s, s.len() as int, x);
    assert(s.push(x) =~= s.insert(s.len() as int, x));
}

proof fn set_of_insert(s: Seq<Seq<char>>, at: int, x: Seq<char>)
    requires
        0 <= at <= s.len(),
    ensures
        s.insert(at, x).to_set() == s.to_set().insert(x),
{
    let longer = s.insert(at, x);
    assert forall|y: Seq<char>| longer.contains(y) <==> s.contains(y) || y == x by {
        if longer.contains(y) {
            let k = choose|k: int| 0 <= k < longer.len() && longer[k] == y;
            if k < at {
                assert(s[k] == y);
            } else if k > at {
                assert(s[k - 1] == y);
            }
        }
        if s.contains(y) {
            let k = choose|k: int| 0 <= k < s.len() && s[k] == y;
            if k < at {
                assert(longer[k] == y);
            } else {
                assert(longer[k + 1] == y);
            }
        }
        if y == x {
            assert(longer[at] == y);
        }
    }
    assert(longer.to_set() =~= s.to_set().insert(x));
}

/// The first place from `from` on at which a line is over.
pub open spec fn line_end(content: Seq<char>, from: int) -> int
    decreases content.len() - from,
{
    if from < 0 || from >= content.len() || content[from] == '\n' {
        from
    } else {
        line_end(content, from + 1)
    }
}

/// The first place from `from` on at which there is white space, or there is none.
pub open spec fn next_place(text: Seq<char>, from: int, white: bool) -> int
    decreases text.len() - from,
{
    if from < 0 || from >= text.len() || text::is_white_space(text[from]) == white {
        from
    } else {
        next_place(text, from + 1, white)
    }
}

/// The first word of a text.
pub open spec fn first_word(text: Seq<char>) -> Option<Seq<char>> {
    let start = next_place(text, 0, false);
    if start >= text.len() {
        None
    } else {
        Some(text.subrange(start, next_place(text, start, true)))
    }
}

/// The place behind the last slash before `end`.
pub open spec fn component_start(path: Seq<char>, end: int) -> int
    decreases end,
{
    if end <= 0 || end > path.len() || path[end - 1] == '/' {
        end
    } else {
        component_start(path, end - 1)
    }
}

/// The last component of the part of a path before `end`; those that stay where they are
/// are passed over, and one that leads upwards is none.
pub open spec fn base_name_before(path: Seq<char>, end: int) -> Option<Seq<char>>
    decreases end,
    when 0 <= end <= path.len()
    via base_name_shrinks
{
    let start = component_start(path, end);
    let component = path.subrange(start, end);
    if component.len() == 0 || component == seq!['.'] {
        if start <= 0 {
            None
        } else {
            base_name_before(path, start - 1)
        }
    } else if component == seq!['.', '.'] {
        None
    } else {
        Some(component)
    }
}

#[via_fn]
proof fn base_name_shrinks(path: Seq<char>, end: int) {
    start_is_within(path, end);
}

proof fn start_is_within(path: Seq<char>, end: int)
    requires
        0 <= end <= path.len(),
    ensures
        0 <= component_start(path, end) <= end,
    decreases end,
{
    if end > 0 && path[end - 1] != '/' {
        start_is_within(path, end - 1);
    }
}

pub open spec fn base_name(path: Seq<char>) -> Option<Seq<char>> {
    base_name_before(path, path.len() as int)
}

/// The program that a line of a desktop entry starts.
pub open spec fn program_in_line(line: Seq<char>) -> Option<Seq<char>> {
    let key = "Exec="@;
    if !text::starts_with_of(line, key) {
        None
    } else {
        match first_word(line.skip(key.len() as int)) {
            Some(word) => base_name(word),
            None => None,
        }
    }
}

/// The program that the first line from `from` on which starts one starts.
pub open spec fn program_from(content: Seq<char>, from: int) -> Option<Seq<char>>
    decreases content.len() - from,
    when 0 <= from
    via program_advances
{
    if from >= content.len() {
        None
    } else {
        let end = line_end(content, from);
        match program_in_line(content.subrange(from, end)) {
            Some(program) => Some(program),
            None => if end >= content.len() {
                None
            } else {
                program_from(content, end + 1)
            },
        }
    }
}

#[via_fn]
proof fn program_advances(content: Seq<char>, from: int) {
    line_end_is_behind(content, from);
}

proof fn line_end_is_behind(content: Seq<char>, from: int)
    requires
        0 <= from,
    ensures
        from <= line_end(content, from),
        from <= content.len() ==> line_end(content, from) <= content.len(),
    decreases content.len() - from,
{
    if from < content.len() && content[from] != '\n' {
        line_end_is_behind(content, from + 1);
    }
}

fn find_line_end(content: &Vec<char>, from: usize) -> (k: usize)
    requires
        from <= content@.len(),
    ensures
        from <= k <= content@.len(),
        k == line_end(content@, from as int),
    decreases content@.len() - from,
{
    if from < content.len() && content[from] != '\n' {
        find_line_end(content, from + 1)
    } else {
        from
    }
}

fn find_place(chars: &Vec<char>, from: usize, white: bool) -> (k: usize)
    requires
        from <= chars@.len(),
    ensures
        from <= k <= chars@.len(),
        k == next_place(chars@, from as int, white),
    decreases chars@.len() - from,
{
    if from < chars.len() && text::white_space(chars[from]) != white {
        find_place(chars, from + 1, white)
    } else {
        from
    }
}

fn find_component(path: &Vec<char>, end: usize) -> (start: usize)
    requires
        end <= path@.len(),
    ensures
        start <= end,
        start == component_start(path@, end as int),
    decreases end,
{
    if end > 0 && path[end - 1] != '/' {
        find_component(path, end - 1)
    } else {
        end
    }
}

fn find_base_name(path: &Vec<char>) -> (r: Option<Vec<char>>)
    ensures
        match base_name(path@) {
            Some(name) => r is Some && r->0@ == name,
            None => r is None,
        },
{
    let mut end: usize = path.len();
    loop
        invariant
            end <= path@.len(),
            base_name(path@) == base_name_before(path@, end as int),
        decreases end,
    {
        let start: usize = find_component(path, end);
        let component = text::part_of(path, start, end);
        let here: bool = component.len() == 1 && component[0] == '.';
        if component.len() == 0 || here {
            proof {
                if here {
                    assert(component@ =~= seq!['.']);
                }
            }
            if start == 0 {
                return None;
            }
            end = start - 1;
        } else if component.len() == 2 && component[0] == '.' && component[1] == '.' {
            proof {
                assert(component@ =~= seq!['.', '.']);
            }
            return None;
        } else {
            return Some(component);
        }
    }
}

fn find_program_in_line(line: &Vec<char>) -> (r: Option<Vec<char>>)
    ensures
        match program_in_line(line@) {
            Some(program) => r is Some && r->0@ == program,
            None => r is None,
        },
{
    let key = text::chars_of("Exec=");
    if key.len() > line.len() {
        return None;
    }
    let ghost head = line@.take(key@.len() as int);
    for i in 0..key.len()
        invariant
            key@ == "Exec="@,
            key@.len() <= line@.len(),
            head == line@.take(key@.len() as int),
            forall|j: int| 0 <= j < i ==> head[j] == key@[j],
    {
        if line[i] != key[i] {
            assert(head[i as int] != key@[i as int]);
            return None;
        }
        assert(head[i as int] == key@[i as int]);
    }
    assert(head =~= key@);
    let rest = text::part_of(line, key.len(), line.len());
    assert(rest@ =~= line@.skip(key@.len() as int));
    let start: usize = find_place(&rest, 0, false);
    if start >= rest.len() {
        return None;
    }
    let stop: usize = find_place(&rest, start, true);
    let word = text::part_of(&rest, start, stop);
    find_base_name(&word)
}

/// Finds the program that a desktop entry starts.
pub fn desktop_exec_basename(content: &str) -> (r: Option<String>)
    ensures
        match program_from(content@, 0) {
            Some(program) => r is Some && r->0@ == program,
            None => r is None,
        },
{
    let chars = text::chars_of(content);
    let mut from: usize = 0;
    while from < chars.len()
        invariant
            chars@ == content@,
            from <= chars.len(),
            program_from(content@, 0) == program_from(content@, from as int),
        decreases chars.len() - from,
    {
        let end: usize = find_line_end(&chars, from);
        let line = text::part_of(&chars, from, end);
        if let Some(program) = find_program_in_line(&line) {
            return Some(text::text_of(program.as_slice()));
        }
        if end >= chars.len() {
            return None;
        }
        from = end + 1;
    }
    None
}

/// Whether a directory of the process table is that of a process.
pub fn is_process(name: &str) -> (r: bool)
    ensures
        r == forall|i: int| 0 <= i < name@.len() ==> text::is_digit(#[trigger] name@[i]),
{
    for c in it: name.chars()
        invariant
            it.seq() == name@,
            forall|i: int| 0 <= i < it.index() ==> text::is_digit(#[trigger] name@[i]),
    {
        if c < '0' || c > '9' {
            assert(!text::is_digit(name@[it.index()]));
            return false;
        }
    }
    true
}

/// Whether a process of an owner and a name is a program of a user. A process without a
/// known owner may be anybody's.
pub open spec fn runs_program(
    owner: Option<u32>,
    current_user: u32,
    name: Option<Seq<char>>,
    program: Seq<char>,
) -> bool {
    (owner is None || owner == Some(current_user)) && name == Some(program)
}

/// Whether a process is the running program: of the same user, as far as that is known,
/// and with the same base name.
pub fn is_running_program(
    owner: Option<u32>,
    current_user: u32,
    name: Option<&str>,
    program: &str,
) -> (r: bool)
    ensures
        r == ((owner is None || owner->0 == current_user) && name is Some && name->0@ == program@),
        r == runs_program(
            owner,
            current_user,
            match name {
                Some(name) => Some(name@),
                None => None,
            },
            program@,
        ),
{
    match owner {
        Some(owner) => if owner != current_user {
            return false;
        },
        None => {},
    }
    match name {
        Some(name) => text::same(name, program),
        None => false,
    }
}

/// What the adapter does for an action.
#[derive(Clone, Copy, Debug, PartialEq, Eq)]
pub enum LinuxDecision {
    /// Start the tool that belongs to the action.
    Run,
    /// Nothing: it is as it should be.
    Skip,
    /// Nothing: it cannot be done.
    Fail(&'static str),
}

/// What was found of an application.
#[derive(Clone, Copy, Debug, PartialEq, Eq, Structural)]
pub struct AppFacts {
    pub entry_found: bool,
    pub program_known: bool,
    pub running: bool,
    pub launcher_available: bool,
}

pub open spec fn app_plan(app_id: Seq<char>, facts: AppFacts) -> LinuxDecision {
    if !ritual::is_app_id(app_id) {
        LinuxDecision::Fail("invalid desktop entry id")
    } else if !facts.entry_found {
        LinuxDecision::Fail("desktop entry not found")
    } else if !facts.program_known {
        LinuxDecision::Fail("desktop entry has no fixed executable")
    } else if facts.running {
        LinuxDecision::Skip
    } else if !facts.launcher_available {
        LinuxDecision::Fail("gtk-launch is unavailable")
    } else {
        LinuxDecision::Run
    }
}

/// Decides how to get an application running.
pub fn plan_app(app_id: &str, facts: AppFacts) -> (r: LinuxDecision)
    ensures
        r == app_plan(app_id@, facts),
{
    if ritual::validate_app_id(app_id).is_err() {
        return LinuxDecision::Fail("invalid desktop entry id");
    }
    if !facts.entry_found {
        return LinuxDecision::Fail("desktop entry not found");
    }
    if !facts.program_known {
        return LinuxDecision::Fail("desktop entry has no fixed executable");
    }
    if facts.running {
        return LinuxDecision::Skip;
    }
    if !facts.launcher_available {
        return LinuxDecision::Fail("gtk-launch is unavailable");
    }
    LinuxDecision::Run
}

/// What was found at the path of a resource.
#[derive(Clone, Copy, Debug, PartialEq, Eq, Structural)]
pub struct PathFacts {
    /// Whether the path exists and resolves to itself.
    pub unchanged: bool,
    /// Whether it could be looked at.
    pub readable: bool,
    pub is_file: bool,
    pub is_directory: bool,
    pub opener_available: bool,
}

pub open spec fn path_plan(
    resource_id: Uuid,
    resolved: Option<ResolvedResource>,
    facts: PathFacts,
) -> LinuxDecision {
    match resolved {
        None => LinuxDecision::Fail("resolved resource is required"),
        Some(resolved) => if resolved.resource_id != resource_id {
            LinuxDecision::Fail("resource identity mismatch")
        } else if !resource::is_absolute_path(resolved.canonical_locator@) || !facts.unchanged {
            LinuxDecision::Fail("resource changed")
        } else if !facts.readable {
            LinuxDecision::Fail("resource unavailable")
        } else if !(match resolved.kind {
            ResourceKind::File => facts.is_file,
            ResourceKind::Directory => facts.is_directory,
            ResourceKind::WebPage => false,
        }) {
            LinuxDecision::Fail("resource type changed")
        } else if !facts.opener_available {
            LinuxDecision::Fail("xdg-open is unavailable")
        } else {
            LinuxDecision::Run
        },
    }
}

/// Decides how to open a path.
pub fn plan_path(resource_id: Uuid, resolved: &Option<ResolvedResource>, facts: PathFacts) -> (r:
    LinuxDecision)
    ensures
        r == path_plan(resource_id, *resolved, facts),
{
    let resolved = match resolved {
        Some(resolved) => resolved,
        None => return LinuxDecision::Fail("resolved resource is required"),
    };
    if resolved.resource_id != resource_id {
        return LinuxDecision::Fail("resource identity mismatch");
    }
    if !resource::absolute_path(resolved.canonical_locator.as_str()) || !facts.unchanged {
        return LinuxDecision::Fail("resource changed");
    }
    if !facts.readable {
        return LinuxDecision::Fail("resource unavailable");
    }
    let kind_matches: bool = match resolved.kind {
        ResourceKind::File => facts.is_file,
        ResourceKind::Directory => facts.is_directory,
        ResourceKind::WebPage => false,
    };
    if !kind_matches {
        return LinuxDecision::Fail("resource type changed");
    }
    if !facts.opener_available {
        return LinuxDecision::Fail("xdg-open is unavailable");
    }
    LinuxDecision::Run
}

pub open spec fn notification_plan(notifier_available: bool) -> LinuxDecision {
    if notifier_available {
        LinuxDecision::Run
    } else {
        LinuxDecision::Fail("notify-send is unavailable")
    }
}

/// Decides how to show a notification.
pub fn plan_notification(notifier_available: bool) -> (r: LinuxDecision)
    ensures
        r == (if notifier_available {
            LinuxDecision::Run
        } else {
            LinuxDecision::Fail("notify-send is unavailable")
        }),
        r == notification_plan(notifier_available),
{
    if !notifier_available {
        return LinuxDecision::Fail("notify-send is unavailable");
    }
    LinuxDecision::Run
}

/// The tools that the adapter starts.
#[derive(Clone, Copy, Debug, PartialEq, Eq, Structural)]
pub enum Tool {
    GtkLaunch,
    XdgOpen,
    NotifySend,
}

pub open spec fn success_code(tool: Tool) -> (&'static str, &'static str) {
    match tool {
        Tool::GtkLaunch => ("launched", "application launch requested"),
        Tool::XdgOpen => ("opened", "path open requested"),
        Tool::NotifySend => ("sent", "notification sent"),
    }
}

pub open spec fn failure_text(tool: Tool) -> &'static str {
    match tool {
        Tool::GtkLaunch => "application launch failed",
        Tool::XdgOpen => "path open failed",
        Tool::NotifySend => "notification failed",
    }
}

/// Whether a result says that.
pub open spec fn says(
    result: ActionResult,
    status: AdapterActionStatus,
    code: Seq<char>,
    message: Seq<char>,
) -> bool {
    result.status == status && result.result_code@ == code && result.redacted_message@ == message
}

/// The result of an action that could not be done.
pub fn failed(message: &str) -> (result: ActionResult)
    ensures
        says(result, AdapterActionStatus::Failed, "action_failed"@, message@),
{
    ActionResult {
        status: AdapterActionStatus::Failed,
        result_code: "action_failed".to_owned(),
        redacted_message: message.to_owned(),
    }
}

/// The result of an action for which there was nothing to do.
pub fn already_running() -> (result: ActionResult)
    ensures
        says(
            result,
            AdapterActionStatus::Skipped,
            "already_running"@,
            "application already running"@,
        ),
{
    ActionResult {
        status: AdapterActionStatus::Skipped,
        result_code: "already_running".to_owned(),
        redacted_message: "application already running".to_owned(),
    }
}

/// The result of an action whose tool was started and ended so.
pub fn tool_result(tool: Tool, success: bool) -> (result: ActionResult)
    ensures
        if success {
            says(
                result,
                AdapterActionStatus::Succeeded,
                success_code(tool).0@,
                success_code(tool).1@,
            )
        } else {
            says(
                result,
                AdapterActionStatus::Failed,
                "action_failed"@,
                failure_text(tool)@,
            )
        },
{
    if !success {
        return match tool {
            Tool::GtkLaunch => failed("application launch failed"),
            Tool::XdgOpen => failed("path open failed"),
            Tool::NotifySend => failed("notification failed"),
        };
    }
    let (code, message): (&'static str, &'static str) = match tool {
        Tool::GtkLaunch => ("launched", "application launch requested"),
        Tool::XdgOpen => ("opened", "path open requested"),
        Tool::NotifySend => ("sent", "notification sent"),
    };
    ActionResult {
        status: AdapterActionStatus::Succeeded,
        result_code: code.to_owned(),
        redacted_message: message.to_owned(),
    }
}

/// Puts an answer into its envelope: it carries the identifiers of the request.
pub fn answer(request: &AdapterRequestEnvelope, body: AdapterResponseBody) -> (response:
    AdapterResponseEnvelope)
    ensures
        response == (AdapterResponseEnvelope {
            protocol_version: crate::protocol::current_version(),
            request_id: request.request_id,
            action_execution_id: request.action_execution_id,
            body,
        }),
{
    AdapterResponseEnvelope {
        protocol_version: crate::protocol::current_protocol_version(),
        request_id: request.request_id,
        action_execution_id: request.action_execution_id,
        body,
    }
}

} // verus!
