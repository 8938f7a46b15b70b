//! Discovering repeated workspace starts.

use vstd::prelude::*;
use crate::ids::Uuid;
use crate::mining;
use crate::mining::evidence;
use crate::mining::median;
use crate::mining::selection;
use crate::mining::session::{Observation, SessionModel};
use crate::mining::{DiscoveryInput, DiscoveryOutput};

verus! {

/// Whether an observation falls into the first ten minutes of a session, to the whole
/// second.
pub open spec fn is_early(item: Observation, session: SessionModel) -> bool {
    item.received_at.instant() - session.started_at.instant() < 601_000_000_000
}

/// A session of the workspace in whose first ten minutes something was opened.
pub open spec fn counts_for(session: SessionModel, workspace: Uuid) -> bool {
    &&& session.workspace == workspace
    &&& exists|i: int|
        0 <= i < session.opened.len() && is_early(#[trigger] session.opened[i], session)
}

/// A session of the workspace whose first openings in the first ten minutes are the given
/// pages, in their order.
pub open spec fn begins_with(session: SessionModel, workspace: Uuid, pages: Seq<Uuid>) -> bool {
    let early = session.opened.filter(|item: Observation| is_early(item, session));
    &&& session.workspace == workspace
    &&& pages.len() <= early.len()
    &&& forall|i: int| 0 <= i < pages.len() ==> (#[trigger] early[i]).resource_id == pages[i]
}

proof fn start_is_filtered(opened: Seq<Observation>, session: SessionModel)
    ensures
        evidence::startup_of(opened, session.started_at) == opened.filter(
            |item: Observation| is_early(item, session),
        ),
    decreases opened.len(),
{
    reveal(Seq::filter);
    if opened.len() > 0 {
        start_is_filtered(opened.drop_last(), session);
    }
}

/// What counts as the start of a session is what was opened in its first ten minutes, in
/// the order in which it was opened.
pub proof fn starts_last_ten_minutes(session: SessionModel, workspace: Uuid, pages: Seq<Uuid>)
    ensures
        session.startup() == session.opened.filter(|item: Observation| is_early(item, session)),
        session.workspace == workspace && session.eligible() <==> counts_for(session, workspace),
        session.supports(workspace, pages) <==> begins_with(session, workspace, pages),
{
    broadcast use vstd::seq_lib::group_filter_ensures;

    let early = |item: Observation| is_early(item, session);
    start_is_filtered(session.opened, session);
    if session.eligible() {
        let first = session.startup()[0];
        assert(session.opened.filter(early).contains(first));
        assert(early(first));
        early_item_was_opened(session.opened, early, 0);
        let i = choose|i: int| 0 <= i < session.opened.len() && session.opened[i] == first;
        assert(is_early(session.opened[i], session));
    }
    if counts_for(session, workspace) {
        let i = choose|i: int|
            0 <= i < session.opened.len() && is_early(#[trigger] session.opened[i], session);
        assert(early(session.opened[i]));
        assert(session.opened.filter(early).contains(session.opened[i]));
    }
    let all = session.actions();
    if session.supports(workspace, pages) {
        assert forall|i: int| 0 <= i < pages.len() implies (
        #[trigger] session.startup()[i]).resource_id == pages[i] by {
            assert(all.take(pages.len() as int)[i] == all[i]);
        }
    }
    if begins_with(session, workspace, pages) {
        assert(all.take(pages.len() as int) =~= pages);
    }
}

proof fn early_item_was_opened(opened: Seq<Observation>, early: spec_fn(Observation) -> bool, n: int)
    requires
        0 <= n < opened.filter(early).len(),
    ensures
        exists|i: int| 0 <= i < opened.len() && opened[i] == opened.filter(early)[n],
    decreases opened.len(),
{
    reveal(Seq::filter);
    if opened.len() > 0 {
        let before = opened.drop_last().filter(early);
        if n < before.len() {
            early_item_was_opened(opened.drop_last(), early, n);
            let i = choose|i: int|
                0 <= i < opened.drop_last().len() && opened.drop_last()[i] == before[n];
            assert(opened[i] == opened.filter(early)[n]);
        } else {
            assert(opened[opened.len() - 1] == opened.filter(early)[n]);
        }
    }
}

/// The support of a prefix is the number of sessions of its workspace that begin with it,
/// and what it is weighed against is the number of sessions of that workspace that count.
pub proof fn evidence_is_counted_by_workspace(
    sessions: Seq<SessionModel>,
    workspace: Uuid,
    pages: Seq<Uuid>,
)
    ensures
        evidence::supporters(sessions, workspace, pages) == sessions.filter(
            |session: SessionModel| begins_with(session, workspace, pages),
        ),
        evidence::eligible_count(sessions, workspace) == sessions.filter(
            |session: SessionModel| counts_for(session, workspace),
        ).len(),
    decreases sessions.len(),
{
    reveal(Seq::filter);
    if sessions.len() > 0 {
        evidence_is_counted_by_workspace(sessions.drop_last(), workspace, pages);
        starts_last_ten_minutes(sessions.last(), workspace, pages);
    }
}

/// Sessions of other workspaces weigh nothing: with or without one of them, wherever it
/// stands, the same sessions support a prefix, as many count, the confidence is the same,
/// and the prefix qualifies or does not.
pub proof fn other_workspaces_weigh_nothing(
    before: Seq<SessionModel>,
    other: SessionModel,
    behind: Seq<SessionModel>,
    workspace: Uuid,
    pages: Seq<Uuid>,
)
    requires
        other.workspace != workspace,
    ensures
        evidence::supporters(before.push(other) + behind, workspace, pages) == evidence::supporters(
            before + behind,
            workspace,
            pages,
        ),
        evidence::eligible_count(before.push(other) + behind, workspace)
            == evidence::eligible_count(before + behind, workspace),
        evidence::confidence(before.push(other) + behind, workspace, pages) == evidence::confidence(
            before + behind,
            workspace,
            pages,
        ),
        evidence::qualifies(before.push(other) + behind, workspace, pages) <==> evidence::qualifies(
            before + behind,
            workspace,
            pages,
        ),
{
    let with = before.push(other) + behind;
    let without = before + behind;
    let supports = |session: SessionModel| begins_with(session, workspace, pages);
    let counts = |session: SessionModel| counts_for(session, workspace);
    evidence_is_counted_by_workspace(with, workspace, pages);
    evidence_is_counted_by_workspace(without, workspace, pages);
    assert(with =~= before + seq![other] + behind);
    Seq::filter_distributes_over_add(before + seq![other], behind, supports);
    Seq::filter_distributes_over_add(before, seq![other], supports);
    Seq::filter_distributes_over_add(before, behind, supports);
    Seq::filter_distributes_over_add(before + seq![other], behind, counts);
    Seq::filter_distributes_over_add(before, seq![other], counts);
    Seq::filter_distributes_over_add(before, behind, counts);
    alone(other, supports);
    alone(other, counts);
    assert(before.filter(supports) + Seq::<SessionModel>::empty() =~= before.filter(supports));
    assert(before.filter(counts) + Seq::<SessionModel>::empty() =~= before.filter(counts));
    evidence_is_enough(with, workspace, pages);
    evidence_is_enough(without, workspace, pages);
}

proof fn alone(session: SessionModel, pred: spec_fn(SessionModel) -> bool)
    ensures
        seq![session].filter(pred) == (if pred(session) {
            seq![session]
        } else {
            Seq::empty()
        }),
{
    reveal(Seq::filter);
    assert(seq![session].drop_last() =~= Seq::<SessionModel>::empty());
    assert(Seq::<SessionModel>::empty().filter(pred) =~= Seq::<SessionModel>::empty());
    assert(seq![session].filter(pred) =~= (if pred(session) {
        seq![session]
    } else {
        Seq::empty()
    }));
}

proof fn support_has_a_session(sessions: Seq<SessionModel>, workspace: Uuid, pages: Seq<Uuid>)
    ensures
        evidence::supporters(sessions, workspace, pages).len() > 0 <==> exists|i: int|
            0 <= i < sessions.len() && (#[trigger] sessions[i]).supports(workspace, pages),
    decreases sessions.len(),
{
    if sessions.len() > 0 {
        let rest = sessions.drop_last();
        support_has_a_session(rest, workspace, pages);
        if sessions.last().supports(workspace, pages) {
            assert(sessions[sessions.len() - 1].supports(workspace, pages));
        } else if evidence::supporters(rest, workspace, pages).len() > 0 {
            let i = choose|i: int|
                0 <= i < rest.len() && (#[trigger] rest[i]).supports(workspace, pages);
            assert(sessions[i].supports(workspace, pages));
        } else {
            assert forall|i: int| 0 <= i < sessions.len() implies !(
            #[trigger] sessions[i]).supports(workspace, pages) by {
                if i < rest.len() {
                    assert(!rest[i].supports(workspace, pages));
                }
            }
        }
    }
}

/// The evidence for two to five pages is enough exactly when at least three sessions
/// begin with them, when these are at least seven tenths of those that count, and when
/// at least eighteen hours lie between the first and the last of them.
pub proof fn evidence_is_enough(
    sessions: Seq<SessionModel>,
    workspace: Uuid,
    pages: Seq<Uuid>,
)
    ensures
        evidence::qualifies(sessions, workspace, pages) <==> {
            let supporting = evidence::supporters(sessions, workspace, pages);
            &&& 2 <= pages.len() <= 5
            &&& supporting.len() >= 3
            &&& 10 * supporting.len() >= 7 * evidence::eligible_count(sessions, workspace)
            &&& supporting.last().started_at.instant() - supporting.first().started_at.instant()
                >= 64_800_000_000_000
        },
{
    support_has_a_session(sessions, workspace, pages);
    if pages.len() > 0 {
        evidence::supporters_count(sessions, workspace, pages);
    }
    let support = evidence::supporters(sessions, workspace, pages).len();
    let eligible = evidence::eligible_count(sessions, workspace);
    if eligible > 0 {
        share_is_reached(support, eligible, 7_000);
    }
}

proof fn share_is_reached(support: nat, eligible: nat, share: nat)
    requires
        eligible > 0,
    ensures
        support * 10_000 / eligible >= share <==> support * 10_000 >= share * eligible,
{
    let whole = support * 10_000;
    vstd::arithmetic::div_mod::lemma_fundamental_div_mod(whole as int, eligible as int);
    let q = whole / eligible;
    let r = whole % eligible;
    assert(whole == eligible * q + r && 0 <= r < eligible);
    if q >= share {
        assert(eligible * q >= share * eligible) by (nonlinear_arith)
            requires
                q >= share,
                eligible > 0,
        ;
    } else {
        assert(eligible * q + eligible <= share * eligible) by (nonlinear_arith)
            requires
                q + 1 <= share,
                eligible > 0,
        ;
    }
}

/// The confidence is the share of the sessions that count, in whole basis points. Where
/// every session that counts begins with the pages, it is full.
pub proof fn confidence_is_a_share(
    sessions: Seq<SessionModel>,
    workspace: Uuid,
    pages: Seq<Uuid>,
    basis_points: nat,
)
    ensures
        sessions.filter(|session: SessionModel| counts_for(session, workspace)).len() > 0 ==> (
        evidence::confidence(sessions, workspace, pages) >= basis_points <==> 10_000
            * sessions.filter(
            |session: SessionModel| begins_with(session, workspace, pages),
        ).len() >= basis_points * sessions.filter(
            |session: SessionModel| counts_for(session, workspace),
        ).len()),
        (exists|i: int| 0 <= i < sessions.len() && counts_for(#[trigger] sessions[i], workspace))
            && pages.len() > 0 && (forall|i: int|
            0 <= i < sessions.len() && counts_for(#[trigger] sessions[i], workspace)
                ==> begins_with(sessions[i], workspace, pages)) ==> evidence::confidence(
            sessions,
            workspace,
            pages,
        ) == 10_000,
{
    evidence_is_counted_by_workspace(sessions, workspace, pages);
    let support = evidence::supporters(sessions, workspace, pages).len();
    let eligible = evidence::eligible_count(sessions, workspace);
    if eligible > 0 {
        share_is_reached(support, eligible, basis_points);
    }
    if (exists|i: int| 0 <= i < sessions.len() && counts_for(#[trigger] sessions[i], workspace))
        && pages.len() > 0 && (forall|i: int|
        0 <= i < sessions.len() && counts_for(#[trigger] sessions[i], workspace) ==> begins_with(
            sessions[i],
            workspace,
            pages,
        )) {
        all_begin_alike(sessions, workspace, pages);
        assert(support * 10_000 / support == 10_000) by (nonlinear_arith)
            requires
                support > 0,
        ;
    }
}

proof fn all_begin_alike(sessions: Seq<SessionModel>, workspace: Uuid, pages: Seq<Uuid>)
    requires
        pages.len() > 0,
        forall|i: int|
            0 <= i < sessions.len() && counts_for(#[trigger] sessions[i], workspace)
                ==> begins_with(sessions[i], workspace, pages),
    ensures
        evidence::supporters(sessions, workspace, pages).len() == evidence::eligible_count(
            sessions,
            workspace,
        ),
        (exists|i: int| 0 <= i < sessions.len() && counts_for(#[trigger] sessions[i], workspace))
            ==> evidence::eligible_count(sessions, workspace) > 0,
    decreases sessions.len(),
{
    if sessions.len() > 0 {
        let rest = sessions.drop_last();
        assert forall|i: int|
            0 <= i < rest.len() && counts_for(#[trigger] rest[i], workspace) implies begins_with(
            rest[i],
            workspace,
            pages,
        ) by {
            assert(counts_for(sessions[i], workspace));
        }
        all_begin_alike(rest, workspace, pages);
        starts_last_ten_minutes(sessions.last(), workspace, pages);
        assert(counts_for(sessions[sessions.len() - 1], workspace) ==> begins_with(
            sessions[sessions.len() - 1],
            workspace,
            pages,
        ));
        if exists|i: int| 0 <= i < sessions.len() && counts_for(#[trigger] sessions[i], workspace) {
            let i = choose|i: int|
                0 <= i < sessions.len() && counts_for(#[trigger] sessions[i], workspace);
            if i < rest.len() {
                assert(counts_for(rest[i], workspace));
            }
        }
    }
}

/// Every workspace with enough evidence for some pages is given a suggestion, and never of
/// fewer pages than these.
pub proof fn shared_beginnings_are_suggested(
    input: DiscoveryInput,
    output: DiscoveryOutput,
    workspace: Uuid,
    pages: Seq<Uuid>,
)
    requires
        mining::is_output_of(output, input),
        2 <= pages.len() <= 5,
        ({
            let starts = input.sessions().filter(
                |session: SessionModel| begins_with(session, workspace, pages),
            );
            &&& starts.len() >= 3
            &&& 10 * starts.len() >= 7 * input.sessions().filter(
                |session: SessionModel| counts_for(session, workspace),
            ).len()
            &&& starts.last().started_at.instant() - starts.first().started_at.instant()
                >= 64_800_000_000_000
        }),
    ensures
        exists|k: int|
            0 <= k < output.suggestions@.len() && (
            #[trigger] output.suggestions@[k]).workspace_resource_id == workspace
                && output.suggestions@[k].action_resource_ids@.len() >= pages.len(),
{
    let sessions = input.sessions();
    evidence_is_counted_by_workspace(sessions, workspace, pages);
    evidence_is_enough(sessions, workspace, pages);
    selection::qualifying_workspace_is_served(sessions, workspace, pages);
    let chosen = choose|chosen: Seq<Uuid>| #[trigger]
        selection::is_chosen(sessions, workspace, chosen);
    selection::chosen_prefix_is_longest(sessions, workspace, chosen, pages);
    let patterns = selection::patterns_of(output.suggestions@);
    assert(patterns.contains((workspace, chosen)));
    let k = choose|k: int| 0 <= k < patterns.len() && patterns[k] == (workspace, chosen);
    assert(output.suggestions@[k].workspace_resource_id == workspace);
}

/// What is suggested has enough evidence, and the suggestion says how much there is.
pub proof fn suggestions_state_their_evidence(
    input: DiscoveryInput,
    output: DiscoveryOutput,
    k: int,
)
    requires
        mining::is_output_of(output, input),
        0 <= k < output.suggestions@.len(),
    ensures
        ({
            let suggestion = output.suggestions@[k];
            let workspace = suggestion.workspace_resource_id;
            let pages = suggestion.action_resource_ids@;
            let starts = input.sessions().filter(
                |session: SessionModel| begins_with(session, workspace, pages),
            );
            let counted = input.sessions().filter(
                |session: SessionModel| counts_for(session, workspace),
            );
            &&& 2 <= pages.len() <= 5
            &&& suggestion.support_sessions == starts.len()
            &&& suggestion.eligible_sessions == counted.len()
            &&& suggestion.support_sessions >= 3
            &&& suggestion.confidence_basis_points * counted.len() <= 10_000 * starts.len()
            &&& 10_000 * starts.len() < (suggestion.confidence_basis_points + 1) * counted.len()
            &&& 7_000 <= suggestion.confidence_basis_points <= 10_000
            &&& suggestion.first_seen_at == starts.first().started_at
            &&& suggestion.last_seen_at == starts.last().started_at
            &&& suggestion.last_seen_at.instant() - suggestion.first_seen_at.instant()
                >= 64_800_000_000_000
        }),
{
    let sessions = input.sessions();
    let suggestion = output.suggestions@[k];
    let workspace = suggestion.workspace_resource_id;
    let pages = suggestion.action_resource_ids@;
    let patterns = selection::patterns_of(output.suggestions@);
    assert(patterns[k] == (workspace, pages));
    assert(patterns.contains((workspace, pages)));
    assert(selection::is_chosen(sessions, workspace, pages));
    assert(evidence::is_suggestion_for(suggestion, sessions, workspace, pages));
    evidence_is_counted_by_workspace(sessions, workspace, pages);
    evidence_is_enough(sessions, workspace, pages);
    evidence::supporters_count(sessions, workspace, pages);
    let support = evidence::supporters(sessions, workspace, pages).len();
    let eligible = evidence::eligible_count(sessions, workspace);
    let share = suggestion.confidence_basis_points as nat;
    share_is_reached(support, eligible, share);
    share_is_reached(support, eligible, share + 1);
}

/// What is weighed are the beginnings of two to five pages that some session has.
pub proof fn candidates_are_beginnings(
    sessions: Seq<SessionModel>,
    workspace: Uuid,
    pages: Seq<Uuid>,
)
    ensures
        selection::candidate_set(sessions).contains((workspace, pages)) <==> 2 <= pages.len() <= 5
            && exists|i: int|
            0 <= i < sessions.len() && begins_with(#[trigger] sessions[i], workspace, pages),
{
    if exists|i: int|
        0 <= i < sessions.len() && (#[trigger] sessions[i]).supports(workspace, pages) {
        let i = choose|i: int|
            0 <= i < sessions.len() && (#[trigger] sessions[i]).supports(workspace, pages);
        starts_last_ten_minutes(sessions[i], workspace, pages);
        assert(begins_with(sessions[i], workspace, pages));
    }
    if exists|i: int|
        0 <= i < sessions.len() && begins_with(#[trigger] sessions[i], workspace, pages) {
        let i = choose|i: int|
            0 <= i < sessions.len() && begins_with(#[trigger] sessions[i], workspace, pages);
        starts_last_ten_minutes(sessions[i], workspace, pages);
        assert(sessions[i].supports(workspace, pages));
    }
}

/// Of the qualifying beginnings of a workspace the longest is chosen; of those the one with
/// the most support, and of those the one that was seen last.
pub proof fn best_beginning_is_chosen(
    sessions: Seq<SessionModel>,
    workspace: Uuid,
    chosen: Seq<Uuid>,
    other: Seq<Uuid>,
)
    requires
        selection::is_chosen(sessions, workspace, chosen),
        evidence::qualifies(sessions, workspace, other),
    ensures
        ({
            let mine = evidence::supporters(sessions, workspace, chosen);
            let theirs = evidence::supporters(sessions, workspace, other);
            &&& other.len() <= chosen.len()
            &&& other.len() == chosen.len() ==> theirs.len() <= mine.len()
            &&& other.len() == chosen.len() && theirs.len() == mine.len()
                ==> theirs.last().started_at.instant() <= mine.last().started_at.instant()
        }),
{
}

/// Suggestions with more support come first; of those with as much, longer ones; of those,
/// ones of higher confidence; of those, ones that were seen later; and of those, by their
/// fingerprints.
pub proof fn suggestions_come_in_order(
    input: DiscoveryInput,
    output: DiscoveryOutput,
    i: int,
    j: int,
)
    requires
        mining::is_output_of(output, input),
        0 <= i < j < output.suggestions@.len(),
    ensures
        ({
            let a = output.suggestions@[i];
            let b = output.suggestions@[j];
            let same_support = a.support_sessions == b.support_sessions;
            let same_length = a.action_resource_ids@.len() == b.action_resource_ids@.len();
            let same_confidence = a.confidence_basis_points == b.confidence_basis_points;
            let same_time = a.last_seen_at.instant() == b.last_seen_at.instant();
            &&& a.support_sessions >= b.support_sessions
            &&& same_support ==> a.action_resource_ids@.len() >= b.action_resource_ids@.len()
            &&& same_support && same_length ==> a.confidence_basis_points
                >= b.confidence_basis_points
            &&& same_support && same_length && same_confidence ==> a.last_seen_at.instant()
                >= b.last_seen_at.instant()
            &&& same_support && same_length && same_confidence && same_time
                && a.pattern_fingerprint@ != b.pattern_fingerprint@ ==> crate::order::lex_before(
                crate::order::code_points(a.pattern_fingerprint@),
                crate::order::code_points(b.pattern_fingerprint@),
            )
        }),
{
    assert(selection::goes_first(
        selection::suggestion_key(output.suggestions@[i]),
        selection::suggestion_key(output.suggestions@[j]),
    ));
}

/// No workspace is given two suggestions.
pub proof fn workspaces_are_suggested_one_ritual(
    input: DiscoveryInput,
    output: DiscoveryOutput,
    i: int,
    j: int,
)
    requires
        mining::is_output_of(output, input),
        0 <= i < j < output.suggestions@.len(),
    ensures
        output.suggestions@[i].workspace_resource_id
            != output.suggestions@[j].workspace_resource_id,
{
    let a = output.suggestions@[i];
    let b = output.suggestions@[j];
    let patterns = selection::patterns_of(output.suggestions@);
    assert(patterns[i] == (a.workspace_resource_id, a.action_resource_ids@));
    assert(patterns[j] == (b.workspace_resource_id, b.action_resource_ids@));
    assert(patterns.contains(patterns[i]));
    assert(patterns.contains(patterns[j]));
    if a.workspace_resource_id == b.workspace_resource_id {
        selection::one_suggestion_per_workspace(
            input.sessions(),
            a.workspace_resource_id,
            a.action_resource_ids@,
            b.action_resource_ids@,
        );
        assert(evidence::is_suggestion_for(
            a,
            input.sessions(),
            a.workspace_resource_id,
            a.action_resource_ids@,
        ));
        assert(evidence::is_suggestion_for(
            b,
            input.sessions(),
            b.workspace_resource_id,
            b.action_resource_ids@,
        ));
        let key = selection::suggestion_key(a);
        assert(selection::goes_first(key, selection::suggestion_key(b)));
        selection::slots_are_strictly_ordered(key, key, key);
    }
}

proof fn all_kept(values: Seq<i64>, pred: spec_fn(i64) -> bool)
    requires
        forall|i: int| 0 <= i < values.len() ==> pred(#[trigger] values[i]),
    ensures
        values.filter(pred) == values,
    decreases values.len(),
{
    reveal(Seq::filter);
    if values.len() > 0 {
        let rest = values.drop_last();
        assert forall|i: int| 0 <= i < rest.len() implies pred(#[trigger] rest[i]) by {
            assert(rest[i] == values[i]);
        }
        all_kept(rest, pred);
        assert(pred(values[values.len() - 1]));
        assert(values =~= rest.push(values.last()));
    }
}

proof fn none_kept(values: Seq<i64>, pred: spec_fn(i64) -> bool)
    requires
        forall|i: int| 0 <= i < values.len() ==> !pred(#[trigger] values[i]),
    ensures
        values.filter(pred).len() == 0,
    decreases values.len(),
{
    reveal(Seq::filter);
    if values.len() > 0 {
        let rest = values.drop_last();
        assert forall|i: int| 0 <= i < rest.len() implies !pred(#[trigger] rest[i]) by {
            assert(rest[i] == values[i]);
        }
        none_kept(rest, pred);
        assert(!pred(values[values.len() - 1]));
    }
}

proof fn sorting_keeps_counts(values: Seq<i64>, pred: spec_fn(i64) -> bool)
    ensures
        median::ascending(values).filter(pred).len() == values.filter(pred).len(),
        median::ascending(values).len() == values.len(),
    decreases values.len(),
{
    reveal(Seq::filter);
    median::ascending_is_sorted_permutation(values);
    if values.len() > 0 {
        let rest = values.drop_last();
        let value = values.last();
        sorting_keeps_counts(rest, pred);
        let before = median::ascending(rest);
        let at = median::slot(before, value, before.len() as int);
        slot_is_within(before, value, before.len() as int);
        let head = before.take(at);
        let tail = before.skip(at);
        assert(before =~= head + tail);
        assert(median::ascending(values) =~= head + seq![value] + tail);
        Seq::filter_distributes_over_add(head, tail, pred);
        Seq::filter_distributes_over_add(head + seq![value], tail, pred);
        Seq::filter_distributes_over_add(head, seq![value], pred);
        assert(seq![value].drop_last() =~= Seq::<i64>::empty());
        assert(Seq::<i64>::empty().filter(pred).len() == 0);
        assert(seq![value].filter(pred).len() == (if pred(value) {
            1int
        } else {
            0int
        }));
    }
}

proof fn slot_is_within(sorted: Seq<i64>, value: i64, n: int)
    requires
        0 <= n <= sorted.len(),
    ensures
        0 <= median::slot(sorted, value, n) <= n,
    decreases n,
{
    if n > 0 && sorted[n - 1] > value {
        slot_is_within(sorted, value, n - 1);
    }
}

/// The median is one of the values. At least half of them are at most the median, and fewer
/// than half of them are below it.
pub proof fn median_stands_in_the_middle(values: Seq<i64>)
    requires
        values.len() > 0,
    ensures
        values.contains(median::median_of(values)),
        2 * values.filter(|v: i64| v <= median::median_of(values)).len() >= values.len(),
        2 * values.filter(|v: i64| v < median::median_of(values)).len() < values.len(),
{
    let m = median::median_of(values);
    let at_most = |v: i64| v <= m;
    let below = |v: i64| v < m;
    median::median_splits(values);
    median::ascending_is_sorted_permutation(values);
    sorting_keeps_counts(values, at_most);
    sorting_keeps_counts(values, below);
    let sorted = median::ascending(values);
    let k = (values.len() - 1) / 2;
    let low = sorted.take(k + 1);
    let high = sorted.skip(k + 1);
    assert(sorted =~= low + high);
    Seq::filter_distributes_over_add(low, high, at_most);
    assert forall|i: int| 0 <= i < low.len() implies at_most(#[trigger] low[i]) by {
        assert(low[i] == sorted[i]);
    }
    all_kept(low, at_most);
    let head = sorted.take(k);
    let tail = sorted.skip(k);
    assert(sorted =~= head + tail);
    Seq::filter_distributes_over_add(head, tail, below);
    assert forall|i: int| 0 <= i < tail.len() implies !below(#[trigger] tail[i]) by {
        assert(tail[i] == sorted[k + i]);
    }
    none_kept(tail, below);
    head.lemma_filter_len(below);
}

/// The time that a session takes to its last page is measured from its start, in whole
/// milliseconds.
pub proof fn completion_is_measured_from_the_start(session: SessionModel, n: int)
    requires
        session.starts_first(),
        1 <= n <= session.startup().len(),
    ensures
        ({
            let item = session.opened.filter(
                |item: Observation| is_early(item, session),
            )[n - 1];
            let nanos = item.received_at.instant() - session.started_at.instant();
            1_000_000 * session.completion(n) <= nanos < 1_000_000 * (session.completion(n) + 1)
        }),
{
    starts_last_ten_minutes(session, session.workspace, Seq::empty());
    let early = |item: Observation| is_early(item, session);
    let item = session.startup()[n - 1];
    early_item_was_opened(session.opened, early, n - 1);
    session.opened.lemma_filter_pred(early, n - 1);
    let i = choose|i: int| 0 <= i < session.opened.len() && session.opened[i] == item;
    assert(session.opened[i].received_at.instant() >= session.started_at.instant());
    assert(is_early(item, session));
}

/// The time that a suggestion says its pages take is the median of the times that the
/// sessions took which begin with them.
pub proof fn suggestions_say_how_long_they_take(
    input: DiscoveryInput,
    output: DiscoveryOutput,
    k: int,
)
    requires
        mining::is_output_of(output, input),
        0 <= k < output.suggestions@.len(),
    ensures
        ({
            let suggestion = output.suggestions@[k];
            let pages = suggestion.action_resource_ids@;
            let workspace = suggestion.workspace_resource_id;
            let times = input.sessions().filter(
                |session: SessionModel| begins_with(session, workspace, pages),
            ).map_values(|session: SessionModel| session.completion(pages.len() as int));
            let time = suggestion.median_completion_ms;
            &&& times.len() >= 3
            &&& times.contains(time)
            &&& 2 * times.filter(|v: i64| v <= time).len() >= times.len()
            &&& 2 * times.filter(|v: i64| v < time).len() < times.len()
        }),
{
    let suggestion = output.suggestions@[k];
    let pages = suggestion.action_resource_ids@;
    let workspace = suggestion.workspace_resource_id;
    suggestions_state_their_evidence(input, output, k);
    evidence_is_counted_by_workspace(input.sessions(), workspace, pages);
    assert(evidence::is_suggestion_for(suggestion, input.sessions(), workspace, pages));
    let times = evidence::completions(
        evidence::supporters(input.sessions(), workspace, pages),
        pages.len() as int,
    );
    assert(times =~= input.sessions().filter(
        |session: SessionModel| begins_with(session, workspace, pages),
    ).map_values(|session: SessionModel| session.completion(pages.len() as int)));
    median_stands_in_the_middle(times);
}

/// The record of a session lists its workspace first and then every page in its order, each
/// with its number and its time; the session began with the one and ended with the last.
pub proof fn sessions_are_recorded_in_full(
    input: DiscoveryInput,
    output: DiscoveryOutput,
    k: int,
    i: int,
)
    requires
        mining::is_output_of(output, input),
        0 <= k < output.sessions@.len(),
    ensures
        output.sessions@.len() == input.sessions().len(),
        ({
            let record = output.sessions@[k];
            let session = input.sessions()[k];
            &&& record.workspace_resource_id == session.workspace
            &&& record.anchor_event_id == session.anchor_event
            &&& record.started_at == session.started_at
            &&& record.finished_at == Some(
                if session.opened.len() == 0 {
                    session.started_at
                } else {
                    session.opened.last().received_at
                },
            )
            &&& record.events@.len() == session.opened.len() + 1
            &&& record.event_count == session.opened.len() + 1
            &&& record.eligible <==> counts_for(session, session.workspace)
            &&& record.events@[0].event_id == session.anchor_event && record.events@[0].is_anchor
            &&& record.events@[0].resource_id == session.workspace
            &&& record.events@[0].received_at == session.started_at
            &&& 0 <= i < session.opened.len() ==> {
                let event = record.events@[i + 1];
                &&& event.event_id == session.opened[i].event_id
                &&& event.resource_id == session.opened[i].resource_id
                &&& event.received_at == session.opened[i].received_at
                &&& event.ordinal == i + 1
                &&& !event.is_anchor
            }
        }),
{
    let session = input.sessions()[k];
    crate::mining::session::sessions_are_sound(input.resources@, input.scopes@, input.events@);
    assert(crate::mining::session::is_session(session));
    assert(mining::is_record_of(output.sessions@[k], session));
    starts_last_ten_minutes(session, session.workspace, Seq::empty());
}

/// The identifier of a session comes from its anchor: sessions with one anchor have one
/// identifier, and those with different anchors have different names to get it from.
pub proof fn anchors_identify_sessions(a: SessionModel, b: SessionModel)
    ensures
        a.id() == Uuid::named(
            vstd::utf8::encode_utf8(
                "workspace-browser-start/v1:"@ + crate::ids::id_text(a.anchor_event.value),
            ),
        ),
        a.anchor_event != b.anchor_event ==> "workspace-browser-start/v1:"@ + crate::ids::id_text(
            a.anchor_event.value,
        ) != "workspace-browser-start/v1:"@ + crate::ids::id_text(b.anchor_event.value),
{
    reveal_strlit("workspace-browser-start/v1");
    reveal_strlit(":");
    reveal_strlit("workspace-browser-start/v1:");
    let head = "workspace-browser-start/v1:"@;
    assert(head =~= "workspace-browser-start/v1"@ + ":"@);
    let x = crate::ids::id_text(a.anchor_event.value);
    let y = crate::ids::id_text(b.anchor_event.value);
    if head + x == head + y {
        assert((head + x).skip(head.len() as int) =~= x);
        assert((head + y).skip(head.len() as int) =~= y);
        assert(x + Seq::<char>::empty() =~= x);
        assert(y + Seq::<char>::empty() =~= y);
        crate::ids::texts_are_self_delimiting(
            a.anchor_event.value,
            b.anchor_event.value,
            Seq::empty(),
            Seq::empty(),
        );
    }
}

/// A suggestion is known again by its pattern: its identifier comes from its fingerprint, and
/// that from its workspace and its pages alone. It names the sessions that support it, and
/// the whole seconds between the first and the last of them.
pub proof fn patterns_identify_suggestions(
    input: DiscoveryInput,
    output: DiscoveryOutput,
    k: int,
)
    requires
        mining::is_output_of(output, input),
        0 <= k < output.suggestions@.len(),
    ensures
        ({
            let suggestion = output.suggestions@[k];
            let workspace = suggestion.workspace_resource_id;
            let pages = suggestion.action_resource_ids@;
            let starts = input.sessions().filter(
                |session: SessionModel| begins_with(session, workspace, pages),
            );
            let nanos = starts.last().started_at.instant() - starts.first().started_at.instant();
            let seconds = suggestion.observation_span_seconds;
            &&& suggestion.pattern_fingerprint@ == crate::mining::fingerprint::fingerprint_of(
                workspace,
                pages,
            )
            &&& suggestion.id == Uuid::named(
                vstd::utf8::encode_utf8(suggestion.pattern_fingerprint@),
            )
            &&& suggestion.supporting_session_ids@ == starts.map_values(
                |session: SessionModel| session.id(),
            )
            &&& seconds < i64::MAX ==> 1_000_000_000 * seconds <= nanos < 1_000_000_000 * (seconds
                + 1)
        }),
{
    let suggestion = output.suggestions@[k];
    let workspace = suggestion.workspace_resource_id;
    let pages = suggestion.action_resource_ids@;
    suggestions_state_their_evidence(input, output, k);
    evidence_is_counted_by_workspace(input.sessions(), workspace, pages);
    assert(evidence::is_suggestion_for(suggestion, input.sessions(), workspace, pages));
    let supporting = evidence::supporters(input.sessions(), workspace, pages);
    assert(evidence::session_ids(supporting) =~= input.sessions().filter(
        |session: SessionModel| begins_with(session, workspace, pages),
    ).map_values(|session: SessionModel| session.id()));
}

/// What a workspace is suggested does not change with the sessions of other workspaces.
pub proof fn other_workspaces_change_no_choice(
    before: Seq<SessionModel>,
    other: SessionModel,
    behind: Seq<SessionModel>,
    workspace: Uuid,
    pages: Seq<Uuid>,
)
    requires
        other.workspace != workspace,
    ensures
        selection::is_chosen(before.push(other) + behind, workspace, pages)
            <==> selection::is_chosen(before + behind, workspace, pages),
{
    let with = before.push(other) + behind;
    let without = before + behind;
    assert forall|rival: Seq<Uuid>|
        (#[trigger] evidence::qualifies(with, workspace, rival) <==> evidence::qualifies(
            without,
            workspace,
            rival,
        )) && selection::key_of(with, workspace, rival) == selection::key_of(
            without,
            workspace,
            rival,
        ) by {
        other_workspaces_weigh_nothing(before, other, behind, workspace, rival);
    }
    assert(selection::key_of(with, workspace, pages) == selection::key_of(
        without,
        workspace,
        pages,
    )) by {
        other_workspaces_weigh_nothing(before, other, behind, workspace, pages);
    }
    assert(evidence::qualifies(with, workspace, pages) <==> evidence::qualifies(
        without,
        workspace,
        pages,
    ));
    if selection::is_chosen(without, workspace, pages) {
        assert forall|rival: Seq<Uuid>| #[trigger]
            evidence::qualifies(with, workspace, rival) && rival
                != pages implies selection::preferred(
            selection::key_of(with, workspace, pages),
            selection::key_of(with, workspace, rival),
        ) by {
            assert(evidence::qualifies(without, workspace, rival));
        }
    }
    if selection::is_chosen(with, workspace, pages) {
        assert forall|rival: Seq<Uuid>| #[trigger]
            evidence::qualifies(without, workspace, rival) && rival
                != pages implies selection::preferred(
            selection::key_of(without, workspace, pages),
            selection::key_of(without, workspace, rival),
        ) by {
            assert(evidence::qualifies(with, workspace, rival));
        }
    }
}

} // verus!
