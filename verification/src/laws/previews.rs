//! Previewing a ritual, and the check before it runs.

use vstd::prelude::*;
use crate::adapter;
use crate::adapter::{AdapterConnection, AdapterManager};
use crate::laws::adapters;
use crate::laws::rituals;
use crate::preview;
use crate::preview::ResourceFacts;
use crate::protocol::PreviewAction;
use crate::resource::ResourceKind;
use crate::ritual::{ActionSpec, Approval, Ritual, RitualStatus, RitualVersion};
use crate::runner;

verus! {

/// Whether the resource that an action names is still what it was: a path unmoved and of
/// its registered kind, a page under active observation.
pub open spec fn is_in_place(action: ActionSpec, facts: ResourceFacts) -> bool {
    match action {
        ActionSpec::LinuxPathOpen { .. } => {
            &&& facts.resource is Some
            &&& facts.exists
            &&& facts.resolved_path is Some
            &&& facts.resolved_path->0@ == facts.resource->0.canonical_locator@
            &&& facts.found_kind == Some(facts.resource->0.kind)
        },
        ActionSpec::BrowserTabEnsureOpen { .. } => {
            &&& facts.resource is Some
            &&& facts.resource->0.kind == ResourceKind::WebPage
            &&& facts.scope_active
        },
        ActionSpec::LinuxAppEnsureRunning { .. } => true,
        ActionSpec::DesktopNotificationShow { .. } => true,
    }
}

/// Whether an action can be carried out: its inputs are sound, its resource is in place, and
/// one connected adapter can do all of it.
pub open spec fn is_ready(
    connections: Seq<AdapterConnection>,
    action: ActionSpec,
    facts: ResourceFacts,
) -> bool {
    &&& rituals::is_sound_action(action)
    &&& is_in_place(action, facts)
    &&& exists|i: int|
        0 <= i < connections.len() && adapters::can_do((#[trigger] connections[i]).hello, action)
}

/// Nothing is said to stand in the way of an action exactly when it can be carried out.
pub proof fn ready_actions_have_no_warning(
    connections: Seq<AdapterConnection>,
    action: ActionSpec,
    facts: ResourceFacts,
)
    ensures
        preview::warning_of(connections, action, facts) is None <==> is_ready(
            connections,
            action,
            facts,
        ),
{
    rituals::sound_actions_are_valid(action);
    let requirements = adapter::requirements_of(action);
    if exists|i: int|
        0 <= i < connections.len() && adapters::can_do((#[trigger] connections[i]).hello, action) {
        let i = choose|i: int|
            0 <= i < connections.len() && adapters::can_do(
                (#[trigger] connections[i]).hello,
                action,
            );
        let hello = connections[i].hello;
        adapters::satisfying_is_being_able(hello, action);
        assert(adapter::satisfies(connections[i].hello, requirements));
        assert(adapter::offers(connections[i].hello, requirements.capability@));
        if let ActionSpec::LinuxAppEnsureRunning { app_id } = action {
            assert(adapter::has_text(connections[i].hello.status.desktop_entry_ids@, app_id@));
            assert(adapter::entry_known(connections, app_id@) == Some(true));
        }
    }
    if !adapter::none_satisfies(connections, requirements) {
        let i = choose|i: int|
            0 <= i < connections.len() && adapter::satisfies(
                (#[trigger] connections[i]).hello,
                requirements,
            );
        adapters::satisfying_is_being_able(connections[i].hello, action);
        assert(adapters::can_do(connections[i].hello, action));
    }
}

/// An application is known wherever in the list of a connected adapter its entry stands: if
/// that adapter can start it, nothing stands in its way.
pub proof fn listed_applications_can_be_started(
    connections: Seq<AdapterConnection>,
    action: ActionSpec,
    facts: ResourceFacts,
    i: int,
    k: int,
)
    requires
        action is LinuxAppEnsureRunning,
        rituals::is_sound_action(action),
        0 <= i < connections.len(),
        0 <= k < connections[i].hello.status.desktop_entry_ids@.len(),
        connections[i].hello.status.desktop_entry_ids@[k]@ == action->app_id@,
        connections[i].hello.adapter_id@ == "dev.fubun.linux"@,
        adapters::lists(
            connections[i].hello.action_capabilities@,
            "linux.app.ensure_running.v1"@,
        ),
        adapters::has_working(connections[i].hello, "gtk-launch"@),
    ensures
        preview::entry_found(connections, action) == Some(true),
        preview::warning_of(connections, action, facts) is None,
{
    assert(adapters::lists(connections[i].hello.status.desktop_entry_ids@, action->app_id@));
    assert(adapters::can_do(connections[i].hello, action));
    ready_actions_have_no_warning(connections, action, facts);
    adapters::entries_are_known_wherever_listed(connections, action->app_id@);
}

/// A ritual is said to be executable exactly when all of its actions can be carried out.
pub proof fn ready_rituals_are_executable(
    connections: Seq<AdapterConnection>,
    actions: Seq<ActionSpec>,
    facts: Seq<ResourceFacts>,
)
    ensures
        preview::unobstructed(connections, actions, facts) <==> forall|i: int|
            0 <= i < actions.len() ==> is_ready(connections, #[trigger] actions[i], facts[i]),
{
    assert forall|i: int| 0 <= i < actions.len() implies (preview::warning_of(
        connections,
        #[trigger] actions[i],
        facts[i],
    ) is None <==> is_ready(connections, actions[i], facts[i])) by {
        ready_actions_have_no_warning(connections, actions[i], facts[i]);
    }
    if preview::unobstructed(connections, actions, facts) {
        assert forall|i: int| 0 <= i < actions.len() implies is_ready(
            connections,
            #[trigger] actions[i],
            facts[i],
        ) by {
            assert(preview::warning_of(connections, actions[i], facts[i]) is None);
        }
    }
    if forall|i: int|
        0 <= i < actions.len() ==> is_ready(connections, #[trigger] actions[i], facts[i]) {
        assert forall|i: int| 0 <= i < actions.len() implies preview::warning_of(
            connections,
            #[trigger] actions[i],
            facts[i],
        ) is None by {
            assert(is_ready(connections, actions[i], facts[i]));
        }
    }
}

/// Every action that cannot be carried out has its line among the warnings.
pub proof fn every_obstacle_is_listed(
    connections: Seq<AdapterConnection>,
    actions: Seq<ActionSpec>,
    facts: Seq<ResourceFacts>,
    n: int,
    k: int,
)
    requires
        0 <= k < n <= actions.len(),
        !is_ready(connections, actions[k], facts[k]),
    ensures
        preview::warning_of(connections, actions[k], facts[k]) is Some,
        preview::warning_lines(connections, actions, facts, n).contains(
            preview::warning_line(
                k,
                preview::warning_of(connections, actions[k], facts[k])->0@,
            ),
        ),
    decreases n,
{
    ready_actions_have_no_warning(connections, actions[k], facts[k]);
    let line = preview::warning_line(k, preview::warning_of(connections, actions[k], facts[k])->0@);
    let lines = preview::warning_lines(connections, actions, facts, n);
    let before = preview::warning_lines(connections, actions, facts, n - 1);
    if k == n - 1 {
        assert(lines[lines.len() - 1] == line);
    } else {
        every_obstacle_is_listed(connections, actions, facts, n - 1, k);
        let j = choose|j: int| 0 <= j < before.len() && before[j] == line;
        assert(lines[j] == line);
    }
}

/// What is said to stand in the way is what does: unsound inputs before everything else, then
/// what is wrong with the resource or the application, then what the adapters lack.
pub proof fn warnings_name_the_obstacle(
    connections: Seq<AdapterConnection>,
    action: ActionSpec,
    facts: ResourceFacts,
)
    ensures
        !rituals::is_sound_action(action) ==> preview::warning_of(connections, action, facts)
            == Some("action validation failed"),
        action is LinuxPathOpen || action is BrowserTabEnsureOpen ==> {
            &&& facts.resource is None ==> preview::warning_of(connections, action, facts) == Some(
                "resource was not found",
            )
            &&& facts.resource is Some && action is LinuxPathOpen && !(facts.exists
                && facts.found_kind == Some(facts.resource->0.kind)) ==> preview::warning_of(
                connections,
                action,
                facts,
            ) == Some("resource type changed")
            &&& facts.resource is Some && action is BrowserTabEnsureOpen && facts.resource->0.kind
                != ResourceKind::WebPage ==> preview::warning_of(connections, action, facts)
                == Some("resource type changed")
            &&& facts.resource is Some && action is BrowserTabEnsureOpen && facts.resource->0.kind
                == ResourceKind::WebPage && !facts.scope_active ==> preview::warning_of(
                connections,
                action,
                facts,
            ) == Some("observation scope is not active")
        },
        action is LinuxAppEnsureRunning && rituals::is_sound_action(action) && (forall|i: int|
            0 <= i < connections.len() ==> !adapters::lists(
                (#[trigger] connections[i]).hello.status.desktop_entry_ids@,
                action->app_id@,
            )) ==> preview::warning_of(connections, action, facts) == Some(
            "desktop entry was not found",
        ),
        rituals::is_sound_action(action) && is_in_place(action, facts) && !(action
            is LinuxAppEnsureRunning) && connections.len() == 0 ==> preview::warning_of(
            connections,
            action,
            facts,
        ) == Some(
            if action is BrowserTabEnsureOpen {
                "required adapter capability is unavailable"
            } else {
                "required executable is unavailable"
            },
        ),
{
    rituals::sound_actions_are_valid(action);
    if action is LinuxAppEnsureRunning && (forall|i: int|
        0 <= i < connections.len() ==> !adapters::lists(
            (#[trigger] connections[i]).hello.status.desktop_entry_ids@,
            action->app_id@,
        )) {
        assert forall|i: int| 0 <= i < connections.len() implies !adapter::has_text(
            (#[trigger] connections[i]).hello.status.desktop_entry_ids@,
            action->app_id@,
        ) by {
            assert(!adapters::lists(
                connections[i].hello.status.desktop_entry_ids@,
                action->app_id@,
            ));
        }
    }
}

/// The program that an action is carried out with, where one is.
pub open spec fn program_of(action: ActionSpec) -> Option<Seq<char>> {
    match action {
        ActionSpec::LinuxAppEnsureRunning { .. } => Some("gtk-launch"@),
        ActionSpec::LinuxPathOpen { .. } => Some("xdg-open"@),
        ActionSpec::DesktopNotificationShow { .. } => Some("notify-send"@),
        ActionSpec::BrowserTabEnsureOpen { .. } => None,
    }
}

/// Whether an adapter of the right kind declares an action.
pub open spec fn is_offered_by(connection: AdapterConnection, action: ActionSpec) -> bool {
    &&& connection.hello.adapter_id@ == (if action is BrowserTabEnsureOpen {
        "dev.fubun.browser.chromium"@
    } else {
        "dev.fubun.linux"@
    })
    &&& adapters::lists(connection.hello.action_capabilities@, action.kind_name()@)
}

proof fn offers_are_declared(connection: AdapterConnection, action: ActionSpec)
    ensures
        adapter::offers(connection.hello, action.kind_name()@) <==> is_offered_by(
            connection,
            action,
        ),
{
    adapters::adapters_are_known_by_their_identifiers(connection.hello.adapter_id@);
    adapters::actions_have_their_adapters(action, adapter::AdapterKind::Linux);
    adapters::actions_have_their_adapters(action, adapter::AdapterKind::Browser);
    adapters::actions_have_their_adapters(action, adapter::AdapterKind::Vscode);
    adapters::identifiers_differ();
}

proof fn offers_add_up(connections: Seq<AdapterConnection>, action: ActionSpec)
    ensures
        adapter::any_offers(connections, action.kind_name()@) <==> exists|i: int|
            0 <= i < connections.len() && is_offered_by(#[trigger] connections[i], action),
        program_of(action) matches Some(tool) ==> (adapter::any_offers_with_tool(
            connections,
            action.kind_name()@,
            tool,
        ) <==> exists|i: int|
            0 <= i < connections.len() && is_offered_by(#[trigger] connections[i], action)
                && adapters::has_working(connections[i].hello, tool)),
{
    let capability = action.kind_name()@;
    assert forall|i: int| 0 <= i < connections.len() implies (adapter::offers(
        (#[trigger] connections[i]).hello,
        capability,
    ) <==> is_offered_by(connections[i], action)) by {
        offers_are_declared(connections[i], action);
    }
    if adapter::any_offers(connections, capability) {
        let i = choose|i: int|
            0 <= i < connections.len() && adapter::offers(
                (#[trigger] connections[i]).hello,
                capability,
            );
        assert(is_offered_by(connections[i], action));
    }
    if exists|i: int|
        0 <= i < connections.len() && is_offered_by(#[trigger] connections[i], action) {
        let i = choose|i: int|
            0 <= i < connections.len() && is_offered_by(#[trigger] connections[i], action);
        assert(adapter::offers(connections[i].hello, capability));
    }
    if let Some(tool) = program_of(action) {
        if adapter::any_offers_with_tool(connections, capability, tool) {
            let i = choose|i: int|
                0 <= i < connections.len() && adapter::offers(
                    (#[trigger] connections[i]).hello,
                    capability,
                ) && adapter::has_tool(connections[i].hello.status.tools@, tool);
            assert(is_offered_by(connections[i], action));
            assert(adapters::has_working(connections[i].hello, tool));
        }
        if exists|i: int|
            0 <= i < connections.len() && is_offered_by(#[trigger] connections[i], action)
                && adapters::has_working(connections[i].hello, tool) {
            let i = choose|i: int|
                0 <= i < connections.len() && is_offered_by(#[trigger] connections[i], action)
                    && adapters::has_working(connections[i].hello, tool);
            assert(adapter::offers(connections[i].hello, capability));
            assert(adapter::has_tool(connections[i].hello.status.tools@, tool));
        }
    }
}

/// The preview of an action shows its type and its risk, whether an adapter for it is
/// connected, whether one of these has the program that it needs, whether the application is
/// known, what has become of its resource, and a warning exactly where it cannot be carried
/// out.
pub proof fn previews_show_what_there_is(
    shown: PreviewAction,
    index: int,
    action: ActionSpec,
    connections: Seq<AdapterConnection>,
    facts: ResourceFacts,
)
    requires
        preview::is_preview_of(shown, index, action, connections, facts),
    ensures
        shown.step_index == index,
        shown.action_type@ == action.kind_name()@,
        shown.required_capability@ == action.kind_name()@,
        shown.risk_level@ == (if action is DesktopNotificationShow {
            "R0"@
        } else {
            "R1"@
        }),
        shown.idempotency@ == (if action is DesktopNotificationShow {
            "NonIdempotent"@
        } else {
            "BestEffort"@
        }),
        shown.revertability@ == (match action {
            ActionSpec::LinuxAppEnsureRunning { .. } => "NotRevertable"@,
            ActionSpec::BrowserTabEnsureOpen { .. } => "PartiallyRevertable"@,
            _ => "NoStateChange"@,
        }),
        shown.adapter_connected <==> exists|i: int|
            0 <= i < connections.len() && is_offered_by(#[trigger] connections[i], action),
        shown.required_tool_available is Some <==> program_of(action) is Some,
        program_of(action) is Some ==> (shown.required_tool_available->0 <==> exists|i: int|
            0 <= i < connections.len() && is_offered_by(#[trigger] connections[i], action)
                && adapters::has_working(connections[i].hello, program_of(action)->0)),
        shown.desktop_entry_exists is Some <==> action is LinuxAppEnsureRunning && connections.len()
            > 0,
        action is LinuxAppEnsureRunning && connections.len() > 0 ==> (shown.desktop_entry_exists->0
            <==> exists|i: int|
            0 <= i < connections.len() && adapters::lists(
                (#[trigger] connections[i]).hello.status.desktop_entry_ids@,
                action->app_id@,
            )),
        action is LinuxPathOpen && facts.resource is Some ==> {
            &&& shown.resource_exists == Some(facts.exists)
            &&& shown.resource_path_matches == Some(
                facts.exists && facts.resolved_path is Some && facts.resolved_path->0@
                    == facts.resource->0.canonical_locator@,
            )
            &&& shown.resource_kind_matches == Some(
                facts.exists && facts.found_kind == Some(facts.resource->0.kind),
            )
        },
        shown.warning is None <==> is_ready(connections, action, facts),
{
    ready_actions_have_no_warning(connections, action, facts);
    rituals::registry_fits_the_actions(action);
    offers_add_up(connections, action);
    if let ActionSpec::LinuxAppEnsureRunning { app_id } = action {
        if exists|i: int|
            0 <= i < connections.len() && adapters::lists(
                (#[trigger] connections[i]).hello.status.desktop_entry_ids@,
                app_id@,
            ) {
            let i = choose|i: int|
                0 <= i < connections.len() && adapters::lists(
                    (#[trigger] connections[i]).hello.status.desktop_entry_ids@,
                    app_id@,
                );
            assert(adapter::has_text(connections[i].hello.status.desktop_entry_ids@, app_id@));
        }
        if connections.len() > 0 && adapter::entry_known(connections, app_id@) == Some(true) {
            let i = choose|i: int|
                0 <= i < connections.len() && adapter::has_text(
                    (#[trigger] connections[i]).hello.status.desktop_entry_ids@,
                    app_id@,
                );
            assert(adapters::lists(connections[i].hello.status.desktop_entry_ids@, app_id@));
        }
    }
}

/// A ritual starts exactly when it is active, all of its actions can be carried out, and
/// each of them is approved for this very version and its content.
pub proof fn ready_and_approved_rituals_start(
    ritual: Ritual,
    version: RitualVersion,
    actions: Seq<ActionSpec>,
    approvals: Seq<Approval>,
    adapters: AdapterManager,
    facts: Seq<ResourceFacts>,
)
    requires
        facts.len() == actions.len(),
    ensures
        runner::start_fault(ritual, version, actions, approvals, adapters, facts) is None <==> {
            &&& ritual.status == RitualStatus::Active
            &&& forall|i: int|
                0 <= i < actions.len() ==> is_ready(
                    adapters.connections@,
                    #[trigger] actions[i],
                    facts[i],
                )
            &&& forall|i: int|
                0 <= i < actions.len() ==> exists|j: int|
                    0 <= j < approvals.len() && preview::covers(
                        #[trigger] approvals[j],
                        version,
                        #[trigger] actions[i],
                    )
        },
{
    runner::only_approved_rituals_start(ritual, version, actions, approvals, adapters, facts);
    ready_rituals_are_executable(adapters.connections@, actions, facts);
    assert forall|i: int| 0 <= i < actions.len() implies (preview::is_approved(
        approvals,
        version,
        #[trigger] actions[i],
    ) <==> exists|j: int|
        0 <= j < approvals.len() && preview::covers(#[trigger] approvals[j], version, actions[i]))
        by {}
}

/// A ritual is refused for the first of its actions that may not run.
pub proof fn first_obstacle_stops_a_run(
    connections: Seq<AdapterConnection>,
    approvals: Seq<Approval>,
    version: RitualVersion,
    actions: Seq<ActionSpec>,
    facts: Seq<ResourceFacts>,
    from: int,
    k: int,
)
    requires
        0 <= from <= k < actions.len(),
        facts.len() == actions.len(),
        forall|i: int|
            from <= i < k ==> is_ready(connections, #[trigger] actions[i], facts[i])
                && preview::is_approved(approvals, version, actions[i]),
        !(is_ready(connections, actions[k], facts[k]) && preview::is_approved(
            approvals,
            version,
            actions[k],
        )),
    ensures
        preview::first_fault(connections, approvals, version, actions, facts, from) is Some,
        preview::first_fault(connections, approvals, version, actions, facts, from)
            == preview::action_fault(connections, approvals, version, actions[k], facts[k]),
    decreases k - from,
{
    approved_and_ready_actions_run(connections, approvals, version, actions[from], facts[from]);
    if from < k {
        assert(is_ready(connections, actions[from], facts[from]));
        first_obstacle_stops_a_run(
            connections,
            approvals,
            version,
            actions,
            facts,
            from + 1,
            k,
        );
    }
}

/// An action may run exactly when it can be carried out and is approved.
pub proof fn approved_and_ready_actions_run(
    connections: Seq<AdapterConnection>,
    approvals: Seq<Approval>,
    version: RitualVersion,
    action: ActionSpec,
    facts: ResourceFacts,
)
    ensures
        preview::action_fault(connections, approvals, version, action, facts) is None <==> is_ready(
            connections,
            action,
            facts,
        ) && preview::is_approved(approvals, version, action),
{
    ready_actions_have_no_warning(connections, action, facts);
    crate::policy::every_action_is_permitted(action);
}

/// An action that may not run is refused with a code for its reason: unsound inputs first,
/// then an adapter or a program that is missing, then a missing approval, then what is wrong
/// with its resource or its application.
pub proof fn refusals_name_the_reason(
    connections: Seq<AdapterConnection>,
    approvals: Seq<Approval>,
    version: RitualVersion,
    action: ActionSpec,
    facts: ResourceFacts,
)
    ensures
        ({
            let fault = preview::action_fault(connections, approvals, version, action, facts);
            let offered = exists|i: int|
                0 <= i < connections.len() && is_offered_by(#[trigger] connections[i], action);
            let equipped = program_of(action) is None || exists|i: int|
                0 <= i < connections.len() && is_offered_by(#[trigger] connections[i], action)
                    && adapters::has_working(connections[i].hello, program_of(action)->0);
            let approved = preview::is_approved(approvals, version, action);
            let sound = rituals::is_sound_action(action);
            &&& !sound ==> fault is Some && fault->0.code@ == "invalid_ritual"@
            &&& sound && !offered ==> fault is Some && fault->0.code@ == "capability_unavailable"@
            &&& sound && offered && !equipped ==> fault is Some && fault->0.code@
                == "tool_unavailable"@
            &&& sound && offered && equipped && !approved ==> fault is Some && fault->0.code@
                == "ritual_not_approved"@
            &&& sound && offered && equipped && approved ==> {
                &&& !is_in_place(action, facts) && facts.resource is None ==> fault is Some
                    && fault->0.code@ == "resource_not_found"@
                &&& !is_in_place(action, facts) && facts.resource is Some ==> fault is Some
                    && fault->0.code@ == "resource_changed"@
                &&& action is LinuxAppEnsureRunning && (forall|i: int|
                    0 <= i < connections.len() ==> !adapters::lists(
                        (#[trigger] connections[i]).hello.status.desktop_entry_ids@,
                        action->app_id@,
                    )) ==> fault is Some && fault->0.code@ == "desktop_entry_not_found"@
            }
        }),
{
    rituals::sound_actions_are_valid(action);
    rituals::registry_fits_the_actions(action);
    crate::policy::every_action_is_permitted(action);
    offers_add_up(connections, action);
    if action is LinuxAppEnsureRunning && (forall|i: int|
        0 <= i < connections.len() ==> !adapters::lists(
            (#[trigger] connections[i]).hello.status.desktop_entry_ids@,
            action->app_id@,
        )) {
        assert forall|i: int| 0 <= i < connections.len() implies !adapter::has_text(
            (#[trigger] connections[i]).hello.status.desktop_entry_ids@,
            action->app_id@,
        ) by {
            assert(!adapters::lists(
                connections[i].hello.status.desktop_entry_ids@,
                action->app_id@,
            ));
        }
    }
}

/// A warning says which action it is about, counted from one.
pub proof fn warnings_count_from_one(index: int, message: Seq<char>)
    requires
        index >= 0,
    ensures
        exists|digits: Seq<char>|
            {
                &&& preview::warning_line(index, message) == "action "@ + #[trigger] (digits
                    + ": "@) + message
                &&& crate::text::all_digits(digits)
                &&& crate::text::digits_value(digits) == index + 1
            },
{
    let digits = crate::text::decimal_of((index + 1) as nat);
    crate::text::decimal_reads_back((index + 1) as nat);
    assert(preview::warning_line(index, message) =~= "action "@ + (digits + ": "@) + message);
}

} // verus!
