//! Connected adapters and what they can do.

use vstd::prelude::*;
use crate::adapter;
use crate::adapter::{
    AdapterConnection, AdapterDispatchErrorKind, AdapterKind, DispatchReply, EligibleAdapter,
    PendingRequest,
};
use crate::clock::Timestamp;
use crate::ids::Uuid;
use crate::laws::rituals;
use crate::native_host::ExtensionHello;
use crate::protocol::{
    ActionResult, AdapterHello, AdapterReport, AdapterResponseBody, AdapterResponseEnvelope,
};
use crate::ritual::ActionSpec;
use crate::text;

verus! {

/// Whether a text stands somewhere in a list.
pub open spec fn lists(texts: Seq<String>, wanted: Seq<char>) -> bool {
    exists|i: int| 0 <= i < texts.len() && (#[trigger] texts[i])@ == wanted
}

/// Whether an adapter has a tool that works.
pub open spec fn has_working(hello: AdapterHello, tool: Seq<char>) -> bool {
    exists|i: int|
        0 <= i < hello.status.tools@.len() && (#[trigger] hello.status.tools@[i]).name@ == tool
            && hello.status.tools@[i].available
}

/// Whether an adapter, all by itself, can carry an action out.
pub open spec fn can_do(hello: AdapterHello, action: ActionSpec) -> bool {
    match action {
        ActionSpec::LinuxAppEnsureRunning { app_id } => {
            &&& hello.adapter_id@ == "dev.fubun.linux"@
            &&& lists(hello.action_capabilities@, "linux.app.ensure_running.v1"@)
            &&& has_working(hello, "gtk-launch"@)
            &&& lists(hello.status.desktop_entry_ids@, app_id@)
        },
        ActionSpec::LinuxPathOpen { .. } => {
            &&& hello.adapter_id@ == "dev.fubun.linux"@
            &&& lists(hello.action_capabilities@, "linux.path.open.v1"@)
            &&& has_working(hello, "xdg-open"@)
        },
        ActionSpec::DesktopNotificationShow { .. } => {
            &&& hello.adapter_id@ == "dev.fubun.linux"@
            &&& lists(hello.action_capabilities@, "desktop.notification.show.v1"@)
            &&& has_working(hello, "notify-send"@)
        },
        ActionSpec::BrowserTabEnsureOpen { resource_id } => {
            &&& hello.adapter_id@ == "dev.fubun.browser.chromium"@
            &&& lists(hello.action_capabilities@, "browser.tab.ensure_open.v1"@)
            &&& hello.status.permitted_resource_ids@.contains(resource_id)
        },
    }
}

/// No two adapters have one identifier.
pub proof fn identifiers_differ()
    ensures
        "dev.fubun.linux"@ != "dev.fubun.browser.chromium"@,
        "dev.fubun.linux"@ != "dev.fubun.vscode"@,
        "dev.fubun.browser.chromium"@ != "dev.fubun.vscode"@,
{
    reveal_strlit("dev.fubun.linux");
    reveal_strlit("dev.fubun.browser.chromium");
    reveal_strlit("dev.fubun.vscode");
    assert("dev.fubun.linux"@.len() == 15);
    assert("dev.fubun.browser.chromium"@.len() == 26);
    assert("dev.fubun.vscode"@.len() == 16);
}

proof fn types_differ()
    ensures
        "linux.app.ensure_running.v1"@ != "linux.path.open.v1"@,
        "linux.app.ensure_running.v1"@ != "desktop.notification.show.v1"@,
        "linux.app.ensure_running.v1"@ != "browser.tab.ensure_open.v1"@,
        "linux.path.open.v1"@ != "desktop.notification.show.v1"@,
        "linux.path.open.v1"@ != "browser.tab.ensure_open.v1"@,
        "desktop.notification.show.v1"@ != "browser.tab.ensure_open.v1"@,
{
    reveal_strlit("linux.app.ensure_running.v1");
    reveal_strlit("linux.path.open.v1");
    reveal_strlit("desktop.notification.show.v1");
    reveal_strlit("browser.tab.ensure_open.v1");
    assert("linux.app.ensure_running.v1"@.len() == 27);
    assert("linux.path.open.v1"@.len() == 18);
    assert("desktop.notification.show.v1"@.len() == 28);
    assert("browser.tab.ensure_open.v1"@.len() == 26);
}

/// The three adapters that there are, by their identifiers.
pub proof fn adapters_are_known_by_their_identifiers(id: Seq<char>)
    ensures
        adapter::kind_of(id) == Some(AdapterKind::Linux) <==> id == "dev.fubun.linux"@,
        adapter::kind_of(id) == Some(AdapterKind::Browser) <==> id == "dev.fubun.browser.chromium"@,
        adapter::kind_of(id) == Some(AdapterKind::Vscode) <==> id == "dev.fubun.vscode"@,
{
    identifiers_differ();
}

/// An instance satisfies what an action requires exactly when it can carry the action out.
pub proof fn satisfying_is_being_able(hello: AdapterHello, action: ActionSpec)
    ensures
        adapter::satisfies(hello, adapter::requirements_of(action)) <==> can_do(hello, action),
{
    adapters_are_known_by_their_identifiers(hello.adapter_id@);
    types_differ();
    identifiers_differ();
}

/// An action is offered by exactly one kind of adapter; editors offer none.
pub proof fn actions_have_their_adapters(action: ActionSpec, kind: AdapterKind)
    ensures
        adapter::offers_action(kind, action.kind_name()@) <==> kind == (if action
            is BrowserTabEnsureOpen {
            AdapterKind::Browser
        } else {
            AdapterKind::Linux
        }),
{
    types_differ();
}

/// While some adapter is connected, a desktop entry is known exactly when it stands
/// somewhere in the list of one of them; else nothing is known of it.
pub proof fn entries_are_known_wherever_listed(
    connections: Seq<AdapterConnection>,
    entry: Seq<char>,
)
    ensures
        connections.len() == 0 ==> adapter::entry_known(connections, entry) is None,
        connections.len() > 0 ==> adapter::entry_known(connections, entry) == Some(
            exists|i: int, k: int|
                0 <= i < connections.len() && 0 <= k
                    < connections[i].hello.status.desktop_entry_ids@.len() && (
                #[trigger] connections[i].hello.status.desktop_entry_ids@[k])@ == entry,
        ),
{
    if connections.len() > 0 {
        if exists|i: int, k: int|
            0 <= i < connections.len() && 0 <= k
                < connections[i].hello.status.desktop_entry_ids@.len() && (
            #[trigger] connections[i].hello.status.desktop_entry_ids@[k])@ == entry {
            let (i, k) = choose|i: int, k: int|
                0 <= i < connections.len() && 0 <= k
                    < connections[i].hello.status.desktop_entry_ids@.len() && (
                #[trigger] connections[i].hello.status.desktop_entry_ids@[k])@ == entry;
            assert(adapter::has_text(connections[i].hello.status.desktop_entry_ids@, entry));
        }
    }
}

/// A tool is there exactly when it works at one of the connected adapters, and a page may be
/// seen exactly when one of the connected browsers is permitted to see it.
pub proof fn abilities_add_up(
    connections: Seq<AdapterConnection>,
    tool: Seq<char>,
    resource_id: Uuid,
)
    ensures
        adapter::any_has_tool(connections, tool) <==> exists|i: int|
            0 <= i < connections.len() && has_working((#[trigger] connections[i]).hello, tool),
        adapter::permitted(connections).contains(resource_id) <==> exists|i: int|
            0 <= i < connections.len() && (#[trigger] connections[i]).hello.adapter_id@
                == "dev.fubun.browser.chromium"@
                && connections[i].hello.status.permitted_resource_ids@.contains(resource_id),
    decreases connections.len(),
{
    if exists|i: int|
        0 <= i < connections.len() && has_working((#[trigger] connections[i]).hello, tool) {
        let i = choose|i: int|
            0 <= i < connections.len() && has_working((#[trigger] connections[i]).hello, tool);
        assert(adapter::has_tool(connections[i].hello.status.tools@, tool));
    }
    if adapter::any_has_tool(connections, tool) {
        let i = choose|i: int|
            0 <= i < connections.len() && adapter::has_tool(
                (#[trigger] connections[i]).hello.status.tools@,
                tool,
            );
        assert(has_working(connections[i].hello, tool));
    }
    if connections.len() > 0 {
        let rest = connections.drop_last();
        abilities_add_up(rest, tool, resource_id);
        adapters_are_known_by_their_identifiers(connections.last().hello.adapter_id@);
        if adapter::permitted(connections).contains(resource_id) {
            if adapter::permitted(rest).contains(resource_id) {
                let i = choose|i: int|
                    0 <= i < rest.len() && (#[trigger] rest[i]).hello.adapter_id@
                        == "dev.fubun.browser.chromium"@
                        && rest[i].hello.status.permitted_resource_ids@.contains(resource_id);
                assert(connections[i] == rest[i]);
            } else {
                assert(connections[connections.len() - 1] == connections.last());
            }
        }
        if exists|i: int|
            0 <= i < connections.len() && (#[trigger] connections[i]).hello.adapter_id@
                == "dev.fubun.browser.chromium"@
                && connections[i].hello.status.permitted_resource_ids@.contains(resource_id) {
            let i = choose|i: int|
                0 <= i < connections.len() && (#[trigger] connections[i]).hello.adapter_id@
                    == "dev.fubun.browser.chromium"@
                    && connections[i].hello.status.permitted_resource_ids@.contains(resource_id);
            if i < rest.len() {
                assert(rest[i] == connections[i]);
            }
        }
    }
}

/// The connections to one kind of adapter are counted one by one.
pub proof fn kinds_are_counted(connections: Seq<AdapterConnection>, kind: AdapterKind)
    ensures
        adapter::of_kind(connections, kind) == connections.filter(
            |connection: AdapterConnection|
                connection.hello.adapter_id@ == (match kind {
                    AdapterKind::Linux => "dev.fubun.linux"@,
                    AdapterKind::Browser => "dev.fubun.browser.chromium"@,
                    AdapterKind::Vscode => "dev.fubun.vscode"@,
                }),
        ).len(),
    decreases connections.len(),
{
    reveal(Seq::filter);
    if connections.len() > 0 {
        kinds_are_counted(connections.drop_last(), kind);
        adapters_are_known_by_their_identifiers(connections.last().hello.adapter_id@);
    }
}

/// A capability that an adapter of some identifier may declare, among its actions or among
/// its events.
pub open spec fn is_own_capability(id: Seq<char>, capability: Seq<char>, action: bool) -> bool {
    if id == "dev.fubun.linux"@ {
        action && (capability == "linux.app.ensure_running.v1"@ || capability
            == "linux.path.open.v1"@ || capability == "desktop.notification.show.v1"@)
    } else if id == "dev.fubun.browser.chromium"@ {
        capability == (if action {
            "browser.tab.ensure_open.v1"@
        } else {
            "dev.fubun.browser.resource.opened.v1"@
        })
    } else {
        id == "dev.fubun.vscode"@ && !action && capability == "dev.fubun.vscode.workspace.opened.v1"@
    }
}

/// A list of different capabilities that an adapter may declare.
pub open spec fn are_own(id: Seq<char>, capabilities: Seq<String>, action: bool) -> bool {
    &&& capabilities.len() <= 16
    &&& forall|i: int|
        0 <= i < capabilities.len() ==> is_own_capability(
            id,
            (#[trigger] capabilities[i])@,
            action,
        )
    &&& forall|i: int, j: int|
        0 <= i < j < capabilities.len() ==> (#[trigger] capabilities[i])@ != (
        #[trigger] capabilities[j])@
}

proof fn own_capabilities_are_texts(id: Seq<char>, capability: Seq<char>, action: bool)
    requires
        is_own_capability(id, capability, action),
    ensures
        adapter::is_capability_text(capability),
{
    reveal_strlit("linux.app.ensure_running.v1");
    reveal_strlit("linux.path.open.v1");
    reveal_strlit("desktop.notification.show.v1");
    reveal_strlit("browser.tab.ensure_open.v1");
    reveal_strlit("dev.fubun.browser.resource.opened.v1");
    reveal_strlit("dev.fubun.vscode.workspace.opened.v1");
    vstd::utf8::is_ascii_chars_encode_utf8(capability);
}

proof fn capabilities_are_checked(
    id: Seq<char>,
    kind: AdapterKind,
    capabilities: Seq<String>,
    action: bool,
    from: int,
)
    requires
        adapter::kind_of(id) == Some(kind),
        0 <= from <= capabilities.len(),
    ensures
        adapter::capability_fault(kind, capabilities, action, from) is None <==> {
            &&& forall|i: int|
                from <= i < capabilities.len() ==> is_own_capability(
                    id,
                    (#[trigger] capabilities[i])@,
                    action,
                )
            &&& forall|i: int, j: int|
                0 <= i < j < capabilities.len() && from <= j ==> (#[trigger] capabilities[i])@ != (
                #[trigger] capabilities[j])@
        },
    decreases capabilities.len() - from,
{
    adapters_are_known_by_their_identifiers(id);
    identifiers_differ();
    if from < capabilities.len() {
        capabilities_are_checked(id, kind, capabilities, action, from + 1);
        let here = capabilities[from]@;
        assert(adapter::may_declare(kind, here, action) <==> is_own_capability(id, here, action));
        if is_own_capability(id, here, action) {
            own_capabilities_are_texts(id, here, action);
        }
        if adapter::capability_fault(kind, capabilities, action, from) is None {
            assert forall|i: int, j: int|
                0 <= i < j < capabilities.len() && from <= j implies (
            #[trigger] capabilities[i])@ != (#[trigger] capabilities[j])@ by {
                if j == from {
                    assert(!adapter::occurs_before(capabilities, from));
                }
            }
        }
    }
}

/// An introduction is accepted exactly when it is of a known adapter, with a version of 1 to
/// 128 plain bytes, and declares at least one and at most sixteen actions and events of its
/// own kind, none of them twice.
pub proof fn sound_introductions_are_accepted(hello: AdapterHello)
    ensures
        adapter::hello_fault(hello) is None <==> {
            let id = hello.adapter_id@;
            &&& id == "dev.fubun.linux"@ || id == "dev.fubun.browser.chromium"@ || id
                == "dev.fubun.vscode"@
            &&& 1 <= text::byte_len(hello.adapter_version@) <= 128
            &&& rituals::is_plain(hello.adapter_version@)
            &&& hello.action_capabilities@.len() + hello.event_capabilities@.len() > 0
            &&& are_own(id, hello.action_capabilities@, true)
            &&& are_own(id, hello.event_capabilities@, false)
        },
{
    let id = hello.adapter_id@;
    adapters_are_known_by_their_identifiers(id);
    rituals::plain_has_no_control(hello.adapter_version@);
    if adapter::kind_of(id) is Some {
        let kind = adapter::kind_of(id)->0;
        capabilities_are_checked(id, kind, hello.action_capabilities@, true, 0);
        capabilities_are_checked(id, kind, hello.event_capabilities@, false, 0);
    }
}

/// What an end of a connection or of a request leaves is everything else, in its order.
pub proof fn ends_leave_the_rest(
    connections: Seq<AdapterConnection>,
    pending: Seq<PendingRequest>,
    id: Uuid,
)
    ensures
        adapter::without_instance(connections, id) == connections.filter(
            |connection: AdapterConnection| connection.hello.instance_id != id,
        ),
        adapter::without_token(connections, id) == connections.filter(
            |connection: AdapterConnection| connection.token != id,
        ),
        adapter::without_request(pending, id) == pending.filter(
            |request: PendingRequest| request.request_id != id,
        ),
        adapter::pending_over(pending, id, true) == pending.filter(
            |request: PendingRequest| request.token == id,
        ),
        adapter::pending_over(pending, id, false) == pending.filter(
            |request: PendingRequest| request.token != id,
        ),
    decreases connections.len() + pending.len(),
{
    reveal(Seq::filter);
    if connections.len() > 0 {
        ends_leave_the_rest(connections.drop_last(), pending, id);
    }
    if pending.len() > 0 {
        ends_leave_the_rest(connections, pending.drop_last(), id);
    }
}

/// Hearing of an instance changes when it was last heard of, and nothing else of it or of
/// any other.
pub proof fn hearing_changes_one_time(
    connections: Seq<AdapterConnection>,
    id: Uuid,
    now: Timestamp,
    i: int,
)
    requires
        0 <= i < connections.len(),
    ensures
        ({
            let after = adapter::touched(connections, id, now);
            &&& after.len() == connections.len()
            &&& after[i].token == connections[i].token
            &&& after[i].hello == connections[i].hello
            &&& after[i].connected_at == connections[i].connected_at
            &&& after[i].last_seen_at == (if connections[i].hello.instance_id == id {
                now
            } else {
                connections[i].last_seen_at
            })
        }),
{
}

/// A request is found exactly where it waits, and at the first place of all.
pub proof fn requests_are_found(pending: Seq<PendingRequest>, id: Uuid)
    ensures
        match adapter::request_at(pending, id, 0) {
            Some(k) => 0 <= k < pending.len() && pending[k].request_id == id && forall|i: int|
                0 <= i < k ==> (#[trigger] pending[i]).request_id != id,
            None => forall|i: int| 0 <= i < pending.len() ==> (#[trigger] pending[i]).request_id
                != id,
        },
{
    found_from(pending, id, 0);
}

proof fn found_from(pending: Seq<PendingRequest>, id: Uuid, from: int)
    requires
        0 <= from <= pending.len(),
    ensures
        match adapter::request_at(pending, id, from) {
            Some(k) => from <= k < pending.len() && pending[k].request_id == id && forall|i: int|
                from <= i < k ==> (#[trigger] pending[i]).request_id != id,
            None => forall|i: int| from <= i < pending.len() ==> (#[trigger] pending[i]).request_id
                != id,
        },
    decreases pending.len() - from,
{
    if from < pending.len() && pending[from].request_id != id {
        found_from(pending, id, from + 1);
    }
}

/// A response is taken for the result of a request exactly when it belongs to the same
/// execution and is a result; and then it is that result. Any other breaks the protocol.
pub proof fn results_answer_their_requests(
    pending: PendingRequest,
    response: AdapterResponseEnvelope,
    result: ActionResult,
)
    ensures
        adapter::answer_of(pending, response) == Ok::<ActionResult, AdapterDispatchErrorKind>(
            result,
        ) <==> response.action_execution_id == pending.action_execution_id && response.body
            == AdapterResponseBody::ActionResult(result),
        adapter::answer_of(pending, response) matches Err(kind) ==> kind
            == AdapterDispatchErrorKind::Protocol,
{
}

/// A dispatch succeeds exactly when the adapter replied with a result; it always says which
/// adapter it went to, and a timeout is told from a lost connection.
pub proof fn dispatches_say_what_happened(identity: EligibleAdapter, reply: DispatchReply)
    ensures
        match adapter::dispatch_outcome(identity, reply) {
            Ok(dispatched) => dispatched.identity == identity && reply == DispatchReply::Replied(
                Ok(dispatched.result),
            ),
            Err(error) => {
                &&& error.identity == Some(identity)
                &&& reply == DispatchReply::TimedOut ==> error.kind
                    == AdapterDispatchErrorKind::Timeout
                &&& reply == DispatchReply::Closed || reply == DispatchReply::SendFailed
                    ==> error.kind == AdapterDispatchErrorKind::Disconnected
                &&& reply matches DispatchReply::Replied(answer) ==> answer == Err::<
                    ActionResult,
                    AdapterDispatchErrorKind,
                >(error.kind)
            },
        },
{
}

/// The adapter that is chosen for an action can carry it out, and of those that can it is
/// the one with the smallest identifier.
pub proof fn smallest_able_adapter_is_chosen(
    connections: Seq<AdapterConnection>,
    action: ActionSpec,
    k: int,
)
    ensures
        adapter::is_selected(connections, adapter::requirements_of(action), k) <==> {
            &&& 0 <= k < connections.len()
            &&& can_do(connections[k].hello, action)
            &&& forall|i: int|
                0 <= i < connections.len() && can_do((#[trigger] connections[i]).hello, action)
                    ==> connections[k].hello.instance_id.value
                    <= connections[i].hello.instance_id.value
        },
        adapter::none_satisfies(connections, adapter::requirements_of(action)) <==> forall|i: int|
            0 <= i < connections.len() ==> !can_do((#[trigger] connections[i]).hello, action),
{
    let requirements = adapter::requirements_of(action);
    assert forall|i: int| 0 <= i < connections.len() implies (adapter::satisfies(
        (#[trigger] connections[i]).hello,
        requirements,
    ) <==> can_do(connections[i].hello, action)) by {
        satisfying_is_being_able(connections[i].hello, action);
    }
    if adapter::is_selected(connections, requirements, k) {
        assert forall|i: int|
            0 <= i < connections.len() && can_do(
                (#[trigger] connections[i]).hello,
                action,
            ) implies connections[k].hello.instance_id.value
            <= connections[i].hello.instance_id.value by {
            assert(adapter::satisfies(connections[i].hello, requirements));
        }
    }
    if 0 <= k < connections.len() && can_do(connections[k].hello, action) && forall|i: int|
        0 <= i < connections.len() && can_do((#[trigger] connections[i]).hello, action)
            ==> connections[k].hello.instance_id.value <= connections[i].hello.instance_id.value {
        assert forall|i: int|
            0 <= i < connections.len() && adapter::satisfies(
                (#[trigger] connections[i]).hello,
                requirements,
            ) implies connections[k].hello.instance_id.value
            <= connections[i].hello.instance_id.value by {
            assert(can_do(connections[i].hello, action));
        }
    }
}

/// What is said of a connected adapter is what it said of itself, and when it was heard of.
pub proof fn reports_say_what_adapters_said(report: AdapterReport, connection: AdapterConnection)
    requires
        adapter::is_report_of(report, connection),
    ensures
        report.connected,
        report.adapter_id@ == connection.hello.adapter_id@,
        report.version@ == connection.hello.adapter_version@,
        report.instance_id == connection.hello.instance_id,
        report.capabilities@ == connection.hello.action_capabilities@,
        report.event_capabilities@ == connection.hello.event_capabilities@,
        report.permitted_resource_ids@ == connection.hello.status.permitted_resource_ids@,
        connection.connected_at.written() is Some ==> report.connected_at@
            == connection.connected_at.written()->0,
        connection.last_seen_at.written() is Some ==> report.last_seen_at@
            == connection.last_seen_at.written()->0,
{
}

/// An extension that the host introduces can open exactly the pages that it may see, and can
/// do nothing else.
pub proof fn extensions_open_what_they_may_see(
    introduction: AdapterHello,
    hello: ExtensionHello,
    version: Seq<char>,
    action: ActionSpec,
)
    requires
        crate::native_host::introduces(introduction, hello, version),
    ensures
        can_do(introduction, action) <==> action is BrowserTabEnsureOpen
            && hello.permitted_resource_ids@.contains(action->BrowserTabEnsureOpen_resource_id),
        introduction.instance_id == hello.extension_instance_id,
        introduction.adapter_version@ == version,
        lists(introduction.event_capabilities@, "dev.fubun.browser.resource.opened.v1"@),
{
    identifiers_differ();
    types_differ();
    assert(introduction.action_capabilities@[0]@ == "browser.tab.ensure_open.v1"@);
    assert(introduction.event_capabilities@[0]@ == "dev.fubun.browser.resource.opened.v1"@);
}

} // verus!
