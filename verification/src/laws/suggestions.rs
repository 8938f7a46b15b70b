//! Answering suggestions.

use vstd::prelude::*;
use crate::ids::Uuid;
use crate::mining::SuggestionStatus;
use crate::resource::ResourceKind;
use crate::storage::operations;
use crate::storage::operations::{
    AcceptOutcome, Admission, ReferencedResource, SuggestionState, SuggestionWrite,
};
use crate::storage::StorageError;

verus! {

/// A suggestion that waits for an answer is accepted, and its draft is made, whenever its
/// workspace is an observed directory and its pages, however many, are observed pages.
pub proof fn live_suggestions_are_accepted(
    status: SuggestionStatus,
    ritual: Option<Uuid>,
    workspace: ReferencedResource,
    pages: Seq<Option<ReferencedResource>>,
)
    requires
        status == SuggestionStatus::Pending || status == SuggestionStatus::Snoozed,
        workspace.kind == ResourceKind::Directory,
        workspace.scope_active,
        forall|i: int|
            0 <= i < pages.len() ==> (#[trigger] pages[i]) is Some && pages[i]->0.kind
                == ResourceKind::WebPage && pages[i]->0.scope_active,
    ensures
        operations::accepted(status, ritual, Some(workspace), pages) == Ok::<
            AcceptOutcome,
            StorageError,
        >(AcceptOutcome::Create),
{
    no_fault_from(pages, 0);
}

proof fn no_fault_from(pages: Seq<Option<ReferencedResource>>, from: int)
    requires
        0 <= from <= pages.len(),
        forall|i: int|
            0 <= i < pages.len() ==> (#[trigger] pages[i]) is Some && pages[i]->0.kind
                == ResourceKind::WebPage && pages[i]->0.scope_active,
    ensures
        operations::action_fault(pages, from) is None,
    decreases pages.len() - from,
{
    if from < pages.len() {
        no_fault_from(pages, from + 1);
    }
}

/// A suggestion that waits is refused for the first of its resources that is gone or no
/// longer observed as what it has to be: the workspace first, then the pages in order.
pub proof fn stale_suggestions_are_refused(
    status: SuggestionStatus,
    ritual: Option<Uuid>,
    workspace: Option<ReferencedResource>,
    pages: Seq<Option<ReferencedResource>>,
    k: int,
)
    requires
        status == SuggestionStatus::Pending || status == SuggestionStatus::Snoozed,
    ensures
        workspace is None ==> operations::accepted(status, ritual, workspace, pages) == Err::<
            AcceptOutcome,
            StorageError,
        >(StorageError::NotFound),
        workspace is Some && !(workspace->0.kind == ResourceKind::Directory
            && workspace->0.scope_active) ==> operations::accepted(status, ritual, workspace, pages)
            == Err::<AcceptOutcome, StorageError>(StorageError::SuggestionStale),
        workspace == Some(
            ReferencedResource { kind: ResourceKind::Directory, scope_active: true },
        ) && 0 <= k < pages.len() && (forall|i: int|
            0 <= i < k ==> (#[trigger] pages[i]) is Some && pages[i]->0.kind
                == ResourceKind::WebPage && pages[i]->0.scope_active) && !(pages[k] is Some
            && pages[k]->0.kind == ResourceKind::WebPage && pages[k]->0.scope_active)
            ==> operations::accepted(status, ritual, workspace, pages) == Err::<
            AcceptOutcome,
            StorageError,
        >(
            if pages[k] is None {
                StorageError::NotFound
            } else {
                StorageError::SuggestionStale
            },
        ),
{
    if 0 <= k < pages.len() && (forall|i: int|
        0 <= i < k ==> (#[trigger] pages[i]) is Some && pages[i]->0.kind == ResourceKind::WebPage
            && pages[i]->0.scope_active) && !(pages[k] is Some && pages[k]->0.kind
        == ResourceKind::WebPage && pages[k]->0.scope_active) {
        first_fault_is_found(pages, 0, k);
    }
}

proof fn first_fault_is_found(pages: Seq<Option<ReferencedResource>>, from: int, k: int)
    requires
        0 <= from <= k < pages.len(),
        forall|i: int|
            from <= i < k ==> (#[trigger] pages[i]) is Some && pages[i]->0.kind
                == ResourceKind::WebPage && pages[i]->0.scope_active,
        !(pages[k] is Some && pages[k]->0.kind == ResourceKind::WebPage && pages[k]->0.scope_active),
    ensures
        operations::action_fault(pages, from) == Some(
            if pages[k] is None {
                StorageError::NotFound
            } else {
                StorageError::SuggestionStale
            },
        ),
    decreases k - from,
{
    if from < k {
        first_fault_is_found(pages, from + 1, k);
    }
}

/// A suggestion that was turned down for good or for now cannot be accepted, however well
/// its resources are observed.
pub proof fn refused_suggestions_stay_refused(
    status: SuggestionStatus,
    ritual: Option<Uuid>,
    workspace: Option<ReferencedResource>,
    pages: Seq<Option<ReferencedResource>>,
)
    requires
        status == SuggestionStatus::Blocked || status == SuggestionStatus::Dismissed,
    ensures
        operations::accepted(status, ritual, workspace, pages) == Err::<AcceptOutcome, StorageError>(
            StorageError::SuggestionInvalidState,
        ),
{
}

/// A person may change exactly the suggestions that wait or were put off, and to every
/// other status.
pub proof fn open_suggestions_can_be_answered(from: SuggestionStatus, to: SuggestionStatus)
    ensures
        operations::may_set_status(from, to) <==> (from == SuggestionStatus::Pending || from
            == SuggestionStatus::Snoozed) && from != to,
        operations::is_valid_transition(from, to) <==> operations::may_set_status(from, to) && to
            != SuggestionStatus::Pending,
{
}

/// A suggestion that was put off or dismissed until some time comes back at that time and
/// at every later one, and at none before. One in another state, or without such a time,
/// does not.
pub proof fn put_off_suggestions_come_back(
    state: SuggestionState,
    now: Seq<char>,
    later: Seq<char>,
)
    ensures
        state.status != SuggestionStatus::Snoozed && state.status != SuggestionStatus::Dismissed
            ==> !operations::wakes(state, now),
        state.snoozed_until is None ==> !operations::wakes(state, now),
        (state.status == SuggestionStatus::Snoozed || state.status == SuggestionStatus::Dismissed)
            && state.snoozed_until is Some ==> {
            &&& operations::wakes(state, state.snoozed_until->0@)
            &&& operations::wakes(state, now) <==> !operations::sorts_before(
                now,
                state.snoozed_until->0@,
            )
        },
        operations::wakes(state, now) && operations::sorts_before(now, later)
            ==> operations::wakes(state, later),
        operations::is_pending(state, now) <==> state.status == SuggestionStatus::Pending
            || operations::wakes(state, now),
{
    if state.snoozed_until is Some {
        let until = state.snoozed_until->0@;
        crate::order::lex_irreflexive(crate::order::code_points(until));
        if operations::sorts_before(now, later) && operations::sorts_before(later, until) {
            crate::order::lex_transitive(
                crate::order::code_points(now),
                crate::order::code_points(later),
                crate::order::code_points(until),
            );
        }
    }
}

/// The suggestions that wait are counted one by one.
pub proof fn waiting_suggestions_are_counted(states: Seq<SuggestionState>, now: Seq<char>)
    ensures
        operations::pending_count(states, now) == states.filter(
            |state: SuggestionState|
                state.status == SuggestionStatus::Pending || ((state.status
                    == SuggestionStatus::Snoozed || state.status == SuggestionStatus::Dismissed)
                    && state.snoozed_until is Some && !operations::sorts_before(
                    now,
                    state.snoozed_until->0@,
                )),
        ).len(),
    decreases states.len(),
{
    reveal(Seq::filter);
    if states.len() > 0 {
        waiting_suggestions_are_counted(states.drop_last(), now);
    }
}

/// A suggestion that is not known yet is created exactly while none was created of late
/// and fewer than five wait; a known one is brought up to date whatever there is.
pub proof fn room_decides_on_new_suggestions(room: Admission, known: bool)
    ensures
        room.decision(known) == SuggestionWrite::Create <==> !known && !room.recent && room.pending
            < 5,
        room.decision(known) == SuggestionWrite::Refresh <==> known,
{
}

/// A discovery for which there is room creates a suggestion exactly when it hands one in
/// that is not known yet, wherever in its list that stands.
pub proof fn some_new_suggestion_is_created(room: Admission, known: Seq<bool>)
    requires
        room.created == 0,
        !room.recent,
        room.pending < 5,
    ensures
        operations::admitted(room, known).created == 1 <==> known.contains(false),
        operations::admitted(room, known).created != 1 ==> operations::admitted(room, known)
            == room,
    decreases known.len(),
{
    if known.len() > 0 {
        let rest = known.drop_last();
        some_new_suggestion_is_created(room, rest);
        operations::admission_is_bounded(room, rest);
        if known.contains(false) {
            let i = choose|i: int| 0 <= i < known.len() && known[i] == false;
            if i < rest.len() {
                assert(rest[i] == false);
            }
        }
        if rest.contains(false) {
            let i = choose|i: int| 0 <= i < rest.len() && rest[i] == false;
            assert(known[i] == false);
        }
        if !known.last() {
            assert(known[known.len() - 1] == false);
        }
    }
}

/// A suggestion counts as new exactly when it was created at the cutoff or after it.
pub proof fn new_suggestions_are_noticed(states: Seq<SuggestionState>, cutoff: Seq<char>)
    ensures
        operations::has_recent(states, cutoff) <==> exists|i: int|
            0 <= i < states.len() && ((#[trigger] states[i]).created_at@ == cutoff
                || crate::order::lex_before(
                crate::order::code_points(cutoff),
                crate::order::code_points(states[i].created_at@),
            )),
{
    assert forall|i: int| 0 <= i < states.len() implies (!operations::sorts_before(
        (#[trigger] states[i]).created_at@,
        cutoff,
    ) <==> (states[i].created_at@ == cutoff || crate::order::lex_before(
        crate::order::code_points(cutoff),
        crate::order::code_points(states[i].created_at@),
    ))) by {
        let x = crate::order::code_points(states[i].created_at@);
        let y = crate::order::code_points(cutoff);
        crate::order::lex_total(x, y);
        crate::order::lex_irreflexive(x);
        crate::order::code_points_injective(states[i].created_at@, cutoff);
        if crate::order::lex_before(x, y) && crate::order::lex_before(y, x) {
            crate::order::lex_transitive(x, y, x);
        }
    }
    if operations::has_recent(states, cutoff) {
        let i = choose|i: int|
            0 <= i < states.len() && !operations::sorts_before(
                (#[trigger] states[i]).created_at@,
                cutoff,
            );
        assert(states[i].created_at@ == cutoff || crate::order::lex_before(
            crate::order::code_points(cutoff),
            crate::order::code_points(states[i].created_at@),
        ));
    }
    if exists|i: int|
        0 <= i < states.len() && ((#[trigger] states[i]).created_at@ == cutoff
            || crate::order::lex_before(
            crate::order::code_points(cutoff),
            crate::order::code_points(states[i].created_at@),
        )) {
        let i = choose|i: int|
            0 <= i < states.len() && ((#[trigger] states[i]).created_at@ == cutoff
                || crate::order::lex_before(
                crate::order::code_points(cutoff),
                crate::order::code_points(states[i].created_at@),
            ));
        assert(!operations::sorts_before(states[i].created_at@, cutoff));
    }
}

} // verus!
