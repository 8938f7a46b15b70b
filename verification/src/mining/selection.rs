//! Candidate prefixes, and the choice among those that qualify.

use vstd::prelude::*;
use crate::ids::Uuid;
use crate::mining::evidence;
use crate::mining::evidence::DiscoveredSuggestion;
use crate::mining::fingerprint;
use crate::mining::session;
use crate::mining::session::{Observation, SessionDraft, SessionModel};
use crate::mining::{MAX_ACTIONS, MIN_ACTIONS};
use crate::order;

verus! {

/// All candidate prefixes.
pub open spec fn candidate_set(sessions: Seq<SessionModel>) -> Set<(Uuid, Seq<Uuid>)> {
    Set::new(|pair: (Uuid, Seq<Uuid>)| evidence::is_candidate(sessions, pair.0, pair.1))
}

/// What the choice between two suggestions looks at.
pub struct RankKey {
    pub workspace: Uuid,
    pub actions: Seq<Uuid>,
    pub support: int,
    pub confidence: int,
    pub last_seen: int,
    pub fingerprint: Seq<char>,
}

pub open spec fn key_of(
    sessions: Seq<SessionModel>,
    workspace: Uuid,
    actions: Seq<Uuid>,
) -> RankKey {
    RankKey {
        workspace,
        actions,
        support: evidence::supporters(sessions, workspace, actions).len() as int,
        confidence: evidence::confidence(sessions, workspace, actions) as int,
        last_seen: evidence::supporters(
            sessions,
            workspace,
            actions,
        ).last().started_at.instant(),
        fingerprint: fingerprint::fingerprint_of(workspace, actions),
    }
}

pub open spec fn values_of(ids: Seq<Uuid>) -> Seq<int> {
    ids.map_values(|id: Uuid| id.value as int)
}

/// The order among equals: by fingerprint, then by workspace, then by actions.
pub open spec fn tie_before(a: RankKey, b: RankKey) -> bool {
    if a.fingerprint != b.fingerprint {
        order::lex_before(order::code_points(a.fingerprint), order::code_points(b.fingerprint))
    } else if a.workspace != b.workspace {
        a.workspace.value < b.workspace.value
    } else {
        order::lex_before(values_of(a.actions), values_of(b.actions))
    }
}

/// Within a workspace the longer prefix is preferred; then more support, a higher
/// confidence and a later last session.
pub open spec fn preferred(a: RankKey, b: RankKey) -> bool {
    if a.actions.len() != b.actions.len() {
        a.actions.len() > b.actions.len()
    } else if a.support != b.support {
        a.support > b.support
    } else if a.confidence != b.confidence {
        a.confidence > b.confidence
    } else if a.last_seen != b.last_seen {
        a.last_seen > b.last_seen
    } else {
        tie_before(a, b)
    }
}

/// Between workspaces more support goes first; then more actions, a higher confidence
/// and a later last session.
pub open spec fn goes_first(a: RankKey, b: RankKey) -> bool {
    if a.support != b.support {
        a.support > b.support
    } else if a.actions.len() != b.actions.len() {
        a.actions.len() > b.actions.len()
    } else if a.confidence != b.confidence {
        a.confidence > b.confidence
    } else if a.last_seen != b.last_seen {
        a.last_seen > b.last_seen
    } else {
        tie_before(a, b)
    }
}

/// The one qualifying prefix that a workspace is given: preferred to every other.
pub open spec fn is_chosen(
    sessions: Seq<SessionModel>,
    workspace: Uuid,
    actions: Seq<Uuid>,
) -> bool {
    &&& evidence::qualifies(sessions, workspace, actions)
    &&& forall|other: Seq<Uuid>| #[trigger]
        evidence::qualifies(sessions, workspace, other) && other != actions ==> preferred(
            key_of(sessions, workspace, actions),
            key_of(sessions, workspace, other),
        )
}

proof fn values_injective(a: Seq<Uuid>, b: Seq<Uuid>)
    ensures
        values_of(a) == values_of(b) ==> a == b,
{
    if values_of(a) == values_of(b) {
        assert(values_of(a).len() == a.len());
        assert(values_of(b).len() == b.len());
        assert forall|i: int| 0 <= i < a.len() implies a[i] == b[i] by {
            assert(values_of(a)[i] == a[i].value as int);
            assert(values_of(b)[i] == b[i].value as int);
        }
        assert(a =~= b);
    }
}

proof fn tie_strict(a: RankKey, b: RankKey)
    ensures
        !(tie_before(a, b) && tie_before(b, a)),
        a.workspace == b.workspace && a.actions == b.actions || tie_before(a, b) || tie_before(
            b,
            a,
        ),
{
    let x = order::code_points(a.fingerprint);
    let y = order::code_points(b.fingerprint);
    let p = values_of(a.actions);
    let q = values_of(b.actions);
    order::lex_total(x, y);
    order::lex_total(p, q);
    order::code_points_injective(a.fingerprint, b.fingerprint);
    values_injective(a.actions, b.actions);
    if order::lex_before(x, y) && order::lex_before(y, x) {
        order::lex_transitive(x, y, x);
        order::lex_irreflexive(x);
    }
    if order::lex_before(p, q) && order::lex_before(q, p) {
        order::lex_transitive(p, q, p);
        order::lex_irreflexive(p);
    }
}

proof fn tie_transitive(a: RankKey, b: RankKey, c: RankKey)
    requires
        tie_before(a, b),
        tie_before(b, c),
    ensures
        tie_before(a, c),
{
    let x = order::code_points(a.fingerprint);
    let y = order::code_points(b.fingerprint);
    let z = order::code_points(c.fingerprint);
    if a.fingerprint != b.fingerprint && b.fingerprint != c.fingerprint {
        order::lex_transitive(x, y, z);
        order::lex_irreflexive(x);
    } else if a.fingerprint == b.fingerprint && b.fingerprint == c.fingerprint {
        if a.workspace == b.workspace && b.workspace == c.workspace {
            order::lex_transitive(values_of(a.actions), values_of(b.actions), values_of(c.actions));
        }
    }
}

/// The order between workspaces is a strict order: nothing goes before itself, it is
/// transitive, and of two different patterns one goes first.
pub proof fn slots_are_strictly_ordered(a: RankKey, b: RankKey, c: RankKey)
    ensures
        !(goes_first(a, b) && goes_first(b, a)),
        goes_first(a, b) && goes_first(b, c) ==> goes_first(a, c),
        a.workspace == b.workspace && a.actions == b.actions || goes_first(a, b) || goes_first(
            b,
            a,
        ),
{
    tie_strict(a, b);
    if tie_before(a, b) && tie_before(b, c) {
        tie_transitive(a, b, c);
    }
}

/// The order within a workspace is a strict order too.
pub proof fn preference_is_strictly_ordered(a: RankKey, b: RankKey, c: RankKey)
    ensures
        !(preferred(a, b) && preferred(b, a)),
        preferred(a, b) && preferred(b, c) ==> preferred(a, c),
        a.workspace == b.workspace && a.actions == b.actions || preferred(a, b) || preferred(b, a),
{
    tie_strict(a, b);
    if tie_before(a, b) && tie_before(b, c) {
        tie_transitive(a, b, c);
    }
}

/// A workspace is given at most one suggestion.
pub proof fn one_suggestion_per_workspace(
    sessions: Seq<SessionModel>,
    workspace: Uuid,
    a: Seq<Uuid>,
    b: Seq<Uuid>,
)
    requires
        is_chosen(sessions, workspace, a),
        is_chosen(sessions, workspace, b),
    ensures
        a == b,
{
    if a != b {
        preference_is_strictly_ordered(
            key_of(sessions, workspace, a),
            key_of(sessions, workspace, b),
            key_of(sessions, workspace, a),
        );
    }
}

/// No qualifying prefix of the workspace is longer than the one that is chosen.
pub proof fn chosen_prefix_is_longest(
    sessions: Seq<SessionModel>,
    workspace: Uuid,
    chosen: Seq<Uuid>,
    other: Seq<Uuid>,
)
    requires
        is_chosen(sessions, workspace, chosen),
        evidence::qualifies(sessions, workspace, other),
    ensures
        other.len() <= chosen.len(),
{
}

/// The prefixes of up to five actions with which the sessions start.
spec fn all_prefixes(sessions: Seq<SessionModel>) -> Seq<Seq<Uuid>>
    decreases sessions.len(),
{
    if sessions.len() == 0 {
        Seq::empty()
    } else {
        all_prefixes(sessions.drop_last()) + Seq::new(
            6,
            |n: int| sessions.last().actions().take(n),
        )
    }
}

proof fn prefix_is_listed(sessions: Seq<SessionModel>, i: int, n: int)
    requires
        0 <= i < sessions.len(),
        0 <= n <= 5,
    ensures
        all_prefixes(sessions).contains(sessions[i].actions().take(n)),
    decreases sessions.len(),
{
    let before = all_prefixes(sessions.drop_last());
    let wanted = sessions[i].actions().take(n);
    if i == sessions.len() - 1 {
        assert(all_prefixes(sessions)[before.len() + n] == wanted);
    } else {
        prefix_is_listed(sessions.drop_last(), i, n);
        let k = choose|k: int| 0 <= k < before.len() && before[k] == wanted;
        assert(all_prefixes(sessions)[k] == wanted);
    }
}

/// The qualifying prefixes of a workspace that are preferred to a given one.
spec fn rivals(
    sessions: Seq<SessionModel>,
    workspace: Uuid,
    actions: Seq<Uuid>,
) -> Set<Seq<Uuid>> {
    all_prefixes(sessions).to_set().filter(
        |other: Seq<Uuid>|
            evidence::qualifies(sessions, workspace, other) && preferred(
                key_of(sessions, workspace, other),
                key_of(sessions, workspace, actions),
            ),
    )
}

/// A workspace with a qualifying prefix is given a suggestion.
pub proof fn qualifying_workspace_is_served(
    sessions: Seq<SessionModel>,
    workspace: Uuid,
    actions: Seq<Uuid>,
)
    requires
        evidence::qualifies(sessions, workspace, actions),
    ensures
        exists|chosen: Seq<Uuid>| #[trigger] is_chosen(sessions, workspace, chosen),
{
    best_exists(sessions, workspace, actions);
}

proof fn best_exists(sessions: Seq<SessionModel>, workspace: Uuid, actions: Seq<Uuid>)
    requires
        evidence::qualifies(sessions, workspace, actions),
    ensures
        exists|chosen: Seq<Uuid>| #[trigger] is_chosen(sessions, workspace, chosen),
    decreases rivals(sessions, workspace, actions).len(),
{
    if !is_chosen(sessions, workspace, actions) {
        let other = choose|other: Seq<Uuid>| #[trigger]
            evidence::qualifies(sessions, workspace, other) && other != actions && !preferred(
                key_of(sessions, workspace, actions),
                key_of(sessions, workspace, other),
            );
        let mine = key_of(sessions, workspace, actions);
        let theirs = key_of(sessions, workspace, other);
        preference_is_strictly_ordered(mine, theirs, mine);
        preference_is_strictly_ordered(theirs, theirs, theirs);
        let i = choose|i: int|
            0 <= i < sessions.len() && (#[trigger] sessions[i]).supports(workspace, other);
        prefix_is_listed(sessions, i, other.len() as int);
        vstd::seq_lib::seq_to_set_is_finite(all_prefixes(sessions));
        let below = rivals(sessions, workspace, other);
        let above = rivals(sessions, workspace, actions);
        assert(above.contains(other));
        assert(!below.contains(other));
        assert forall|q: Seq<Uuid>| below.contains(q) implies above.contains(q) by {
            preference_is_strictly_ordered(key_of(sessions, workspace, q), theirs, mine);
        }
        assert(below.subset_of(above.remove(other)));
        vstd::set_lib::lemma_len_subset(below, above.remove(other));
        best_exists(sessions, workspace, other);
    }
}

pub struct Candidate {
    pub workspace: Uuid,
    pub actions: Vec<Uuid>,
}

pub open spec fn pair_of(candidate: Candidate) -> (Uuid, Seq<Uuid>) {
    (candidate.workspace, candidate.actions@)
}

pub open spec fn pairs_of(candidates: Seq<Candidate>) -> Seq<(Uuid, Seq<Uuid>)> {
    candidates.map_values(|candidate: Candidate| pair_of(candidate))
}

fn same_ids(a: &[Uuid], b: &[Uuid]) -> (r: bool)
    ensures
        r == (a@ == b@),
{
    if a.len() != b.len() {
        return false;
    }
    for i in 0..a.len()
        invariant
            a@.len() == b@.len(),
            forall|j: int| 0 <= j < i ==> a@[j] == b@[j],
    {
        if a[i] != b[i] {
            return false;
        }
    }
    assert(a@ =~= b@);
    true
}

fn listed(candidates: &Vec<Candidate>, workspace: Uuid, actions: &Vec<Uuid>) -> (r: bool)
    ensures
        r == pairs_of(candidates@).contains((workspace, actions@)),
{
    for i in 0..candidates.len()
        invariant
            forall|j: int|
                0 <= j < i ==> pair_of(#[trigger] candidates@[j]) != (workspace, actions@),
    {
        if candidates[i].workspace == workspace && same_ids(
            candidates[i].actions.as_slice(),
            actions.as_slice(),
        ) {
            assert(pairs_of(candidates@)[i as int] == (workspace, actions@));
            return true;
        }
    }
    false
}

/// Lists every candidate prefix once.
pub fn list_candidates(drafts: &Vec<SessionDraft>, startups: &Vec<Vec<Observation>>) -> (candidates:
    Vec<Candidate>)
    requires
        evidence::startups_match(drafts@, startups@),
        4 * drafts@.len() <= u32::MAX,
    ensures
        pairs_of(candidates@).no_duplicates(),
        pairs_of(candidates@).to_set() == candidate_set(session::models(drafts@)),
        candidates@.len() <= 4 * drafts@.len(),
{
    let ghost sessions = session::models(drafts@);
    let mut candidates: Vec<Candidate> = Vec::new();
    let mut i: usize = 0;
    proof {
        assert(sessions.take(0) =~= Seq::<SessionModel>::empty());
    }
    while i < drafts.len()
        invariant
            i <= drafts@.len(),
            sessions == session::models(drafts@),
            evidence::startups_match(drafts@, startups@),
            4 * drafts@.len() <= u32::MAX,
            pairs_of(candidates@).no_duplicates(),
            forall|pair: (Uuid, Seq<Uuid>)| #[trigger]
                pairs_of(candidates@).contains(pair) <==> evidence::is_candidate(
                    sessions.take(i as int),
                    pair.0,
                    pair.1,
                ),
            candidates@.len() <= 4 * i,
        decreases drafts@.len() - i,
    {
        let ghost now = sessions[i as int];
        let startup = &startups[i];
        let workspace = drafts[i].workspace;
        let mut prefix: Vec<Uuid> = Vec::new();
        let mut n: usize = 0;
        let ghost start_len = candidates@.len();
        while n < startup.len() && n < MAX_ACTIONS
            invariant
                i < drafts@.len(),
                sessions == session::models(drafts@),
                now == sessions[i as int],
                startup@ == now.startup(),
                workspace == now.workspace,
                n <= startup@.len(),
                n <= MAX_ACTIONS,
                prefix@ == now.actions().take(n as int),
                pairs_of(candidates@).no_duplicates(),
                forall|pair: (Uuid, Seq<Uuid>)| #[trigger]
                    pairs_of(candidates@).contains(pair) <==> (evidence::is_candidate(
                        sessions.take(i as int),
                        pair.0,
                        pair.1,
                    ) || (MIN_ACTIONS <= pair.1.len() <= n && now.supports(pair.0, pair.1))),
                candidates@.len() <= start_len + (if n == 0 {
                    0int
                } else {
                    n - 1
                }),
            decreases startup@.len() - n,
        {
            prefix.push(startup[n].resource_id);
            let ghost before = candidates@;
            proof {
                assert(now.actions()[n as int] == startup@[n as int].resource_id);
                assert(prefix@ =~= now.actions().take(n + 1));
            }
            n = n + 1;
            if n >= MIN_ACTIONS && !listed(&candidates, workspace, &prefix) {
                let candidate = Candidate {
                    workspace,
                    actions: evidence::copy_ids(prefix.as_slice()),
                };
                candidates.push(candidate);
                proof {
                    assert(pairs_of(candidates@) =~= pairs_of(before).push((workspace, prefix@)));
                }
            }
            proof {
                let added = (workspace, prefix@);
                assert(now.supports(workspace, prefix@));
                assert forall|pair: (Uuid, Seq<Uuid>)| #[trigger]
                    pairs_of(candidates@).contains(pair) <==> (evidence::is_candidate(
                        sessions.take(i as int),
                        pair.0,
                        pair.1,
                    ) || (MIN_ACTIONS <= pair.1.len() <= n && now.supports(pair.0, pair.1))) by {
                    if now.supports(pair.0, pair.1) && pair.1.len() == n {
                        assert(pair.1 == prefix@);
                        assert(pair == added);
                    }
                    if candidates@.len() > before.len() {
                        let old_pairs = pairs_of(before);
                        assert(pairs_of(candidates@).contains(pair) <==> old_pairs.contains(pair)
                            || pair == added) by {
                            if old_pairs.contains(pair) {
                                let k = choose|k: int|
                                    0 <= k < old_pairs.len() && old_pairs[k] == pair;
                                assert(pairs_of(candidates@)[k] == pair);
                            }
                            assert(pairs_of(candidates@)[before.len() as int] == added);
                        }
                    } else {
                        assert(candidates@ =~= before);
                    }
                    assert(pairs_of(before).contains(pair) <==> (evidence::is_candidate(
                        sessions.take(i as int),
                        pair.0,
                        pair.1,
                    ) || (MIN_ACTIONS <= pair.1.len() <= n - 1 && now.supports(pair.0, pair.1))));
                }
            }
        }
        proof {
            let taken = sessions.take(i + 1);
            assert forall|pair: (Uuid, Seq<Uuid>)| #[trigger]
                pairs_of(candidates@).contains(pair) <==> evidence::is_candidate(
                    taken,
                    pair.0,
                    pair.1,
                ) by {
                let shorter = sessions.take(i as int);
                if evidence::is_candidate(shorter, pair.0, pair.1) {
                    let k = choose|k: int|
                        0 <= k < shorter.len() && (#[trigger] shorter[k]).supports(pair.0, pair.1);
                    assert(taken[k].supports(pair.0, pair.1));
                }
                if evidence::is_candidate(taken, pair.0, pair.1) {
                    let k = choose|k: int|
                        0 <= k < taken.len() && (#[trigger] taken[k]).supports(pair.0, pair.1);
                    if k < i {
                        assert(shorter[k].supports(pair.0, pair.1));
                    } else {
                        assert(taken[k] == now);
                    }
                }
                if MIN_ACTIONS <= pair.1.len() <= n && now.supports(pair.0, pair.1) {
                    assert(taken[i as int].supports(pair.0, pair.1));
                }
            }
        }
        i = i + 1;
    }
    proof {
        assert(sessions.take(sessions.len() as int) =~= sessions);
        assert(pairs_of(candidates@).to_set() =~= candidate_set(sessions));
    }
    candidates
}

/// What the choice looks at in a suggestion.
pub open spec fn suggestion_key(suggestion: DiscoveredSuggestion) -> RankKey {
    RankKey {
        workspace: suggestion.workspace_resource_id,
        actions: suggestion.action_resource_ids@,
        support: suggestion.support_sessions as int,
        confidence: suggestion.confidence_basis_points as int,
        last_seen: suggestion.last_seen_at.instant(),
        fingerprint: suggestion.pattern_fingerprint@,
    }
}

fn ids_before(a: &[Uuid], b: &[Uuid]) -> (r: bool)
    ensures
        r == order::lex_before(values_of(a@), values_of(b@)),
{
    let ghost x = values_of(a@);
    let ghost y = values_of(b@);
    let mut i: usize = 0;
    while i < a.len() && i < b.len()
        invariant
            x == values_of(a@),
            y == values_of(b@),
            i <= a@.len(),
            i <= b@.len(),
            x.take(i as int) == y.take(i as int),
        decreases a@.len() - i,
    {
        if a[i].value != b[i].value {
            proof {
                assert(x[i as int] != y[i as int]);
                order::lex_first_difference(x, y, i as int);
            }
            return a[i].value < b[i].value;
        }
        proof {
            assert(x.take(i + 1) =~= x.take(i as int).push(x[i as int]));
            assert(y.take(i + 1) =~= y.take(i as int).push(y[i as int]));
        }
        i = i + 1;
    }
    proof {
        assert(x.take(x.len() as int) =~= x);
        assert(y.take(y.len() as int) =~= y);
        if x.len() < y.len() {
            order::lex_proper_prefix(x, y);
        } else if y.len() < x.len() {
            order::lex_proper_prefix(y, x);
        } else {
            order::lex_irreflexive(x);
        }
    }
    a.len() < b.len()
}

fn breaks_tie(a: &DiscoveredSuggestion, b: &DiscoveredSuggestion) -> (r: bool)
    ensures
        r == tie_before(suggestion_key(*a), suggestion_key(*b)),
{
    if !crate::text::same(a.pattern_fingerprint.as_str(), b.pattern_fingerprint.as_str()) {
        order::text_before(a.pattern_fingerprint.as_str(), b.pattern_fingerprint.as_str())
    } else if a.workspace_resource_id != b.workspace_resource_id {
        a.workspace_resource_id.value < b.workspace_resource_id.value
    } else {
        ids_before(a.action_resource_ids.as_slice(), b.action_resource_ids.as_slice())
    }
}

/// Whether `a` is preferred to `b` within a workspace.
pub fn prefers(a: &DiscoveredSuggestion, b: &DiscoveredSuggestion) -> (r: bool)
    ensures
        r == preferred(suggestion_key(*a), suggestion_key(*b)),
{
    let seen_a: i128 = a.last_seen_at.instant_nanos();
    let seen_b: i128 = b.last_seen_at.instant_nanos();
    if a.action_resource_ids.len() != b.action_resource_ids.len() {
        a.action_resource_ids.len() > b.action_resource_ids.len()
    } else if a.support_sessions != b.support_sessions {
        a.support_sessions > b.support_sessions
    } else if a.confidence_basis_points != b.confidence_basis_points {
        a.confidence_basis_points > b.confidence_basis_points
    } else if seen_a != seen_b {
        seen_a > seen_b
    } else {
        breaks_tie(a, b)
    }
}

/// Whether `a` takes its slot before `b`.
pub fn takes_slot_first(a: &DiscoveredSuggestion, b: &DiscoveredSuggestion) -> (r: bool)
    ensures
        r == goes_first(suggestion_key(*a), suggestion_key(*b)),
{
    let seen_a: i128 = a.last_seen_at.instant_nanos();
    let seen_b: i128 = b.last_seen_at.instant_nanos();
    if a.support_sessions != b.support_sessions {
        a.support_sessions > b.support_sessions
    } else if a.action_resource_ids.len() != b.action_resource_ids.len() {
        a.action_resource_ids.len() > b.action_resource_ids.len()
    } else if a.confidence_basis_points != b.confidence_basis_points {
        a.confidence_basis_points > b.confidence_basis_points
    } else if seen_a != seen_b {
        seen_a > seen_b
    } else {
        breaks_tie(a, b)
    }
}

/// The pattern of a suggestion.
pub open spec fn pattern_of(suggestion: DiscoveredSuggestion) -> (Uuid, Seq<Uuid>) {
    (suggestion.workspace_resource_id, suggestion.action_resource_ids@)
}

pub open spec fn patterns_of(suggestions: Seq<DiscoveredSuggestion>) -> Seq<(Uuid, Seq<Uuid>)> {
    suggestions.map_values(|suggestion: DiscoveredSuggestion| pattern_of(suggestion))
}

/// Every suggestion says what the sessions show of its own pattern.
pub open spec fn all_sound(
    suggestions: Seq<DiscoveredSuggestion>,
    sessions: Seq<SessionModel>,
) -> bool {
    forall|i: int|
        0 <= i < suggestions.len() ==> evidence::is_suggestion_for(
            #[trigger] suggestions[i],
            sessions,
            suggestions[i].workspace_resource_id,
            suggestions[i].action_resource_ids@,
        )
}

/// The suggestions stand in slot order.
pub open spec fn in_slot_order(suggestions: Seq<DiscoveredSuggestion>) -> bool {
    forall|i: int, j: int|
        0 <= i < j < suggestions.len() ==> goes_first(
            suggestion_key(#[trigger] suggestions[i]),
            suggestion_key(#[trigger] suggestions[j]),
        )
}

proof fn key_agrees(suggestion: DiscoveredSuggestion, sessions: Seq<SessionModel>)
    requires
        evidence::is_suggestion_for(
            suggestion,
            sessions,
            suggestion.workspace_resource_id,
            suggestion.action_resource_ids@,
        ),
    ensures
        suggestion_key(suggestion) == key_of(
            sessions,
            suggestion.workspace_resource_id,
            suggestion.action_resource_ids@,
        ),
{
}

/// Whether two suggestions say the same.
pub open spec fn same_suggestion(a: DiscoveredSuggestion, b: DiscoveredSuggestion) -> bool {
    &&& a.id == b.id
    &&& a.algorithm_version@ == b.algorithm_version@
    &&& a.workspace_resource_id == b.workspace_resource_id
    &&& a.pattern_fingerprint@ == b.pattern_fingerprint@
    &&& a.action_resource_ids@ == b.action_resource_ids@
    &&& a.supporting_session_ids@ == b.supporting_session_ids@
    &&& a.support_sessions == b.support_sessions
    &&& a.eligible_sessions == b.eligible_sessions
    &&& a.confidence_basis_points == b.confidence_basis_points
    &&& a.first_seen_at == b.first_seen_at
    &&& a.last_seen_at == b.last_seen_at
    &&& a.observation_span_seconds == b.observation_span_seconds
    &&& a.median_completion_ms == b.median_completion_ms
}

/// Whether each pattern goes before all that stand behind it.
spec fn in_rank_order(patterns: Seq<(Uuid, Seq<Uuid>)>, sessions: Seq<SessionModel>) -> bool {
    forall|i: int, j: int|
        0 <= i < j < patterns.len() ==> goes_first(
            key_of(sessions, (#[trigger] patterns[i]).0, patterns[i].1),
            key_of(sessions, (#[trigger] patterns[j]).0, patterns[j].1),
        )
}

proof fn suggestions_in_rank_order(
    suggestions: Seq<DiscoveredSuggestion>,
    sessions: Seq<SessionModel>,
)
    requires
        all_sound(suggestions, sessions),
        in_slot_order(suggestions),
    ensures
        in_rank_order(patterns_of(suggestions), sessions),
{
    let patterns = patterns_of(suggestions);
    assert forall|i: int, j: int| 0 <= i < j < patterns.len() implies goes_first(
        key_of(sessions, (#[trigger] patterns[i]).0, patterns[i].1),
        key_of(sessions, (#[trigger] patterns[j]).0, patterns[j].1),
    ) by {
        key_agrees(suggestions[i], sessions);
        key_agrees(suggestions[j], sessions);
        assert(goes_first(suggestion_key(suggestions[i]), suggestion_key(suggestions[j])));
    }
}

proof fn rank_order_is_unique(
    a: Seq<(Uuid, Seq<Uuid>)>,
    b: Seq<(Uuid, Seq<Uuid>)>,
    sessions: Seq<SessionModel>,
)
    requires
        in_rank_order(a, sessions),
        in_rank_order(b, sessions),
        forall|pair: (Uuid, Seq<Uuid>)| #[trigger] a.contains(pair) <==> b.contains(pair),
    ensures
        a == b,
    decreases a.len(),
{
    if a.len() == 0 {
        if b.len() > 0 {
            assert(b.contains(b[0]));
            assert(a.contains(b[0]));
        }
        assert(a =~= b);
    } else {
        let x = a.last();
        assert(a.contains(x));
        assert(b.contains(x));
        let y = b.last();
        assert(b.contains(y));
        assert(a.contains(y));
        let j = choose|j: int| 0 <= j < b.len() && b[j] == x;
        let i = choose|i: int| 0 <= i < a.len() && a[i] == y;
        let p = key_of(sessions, x.0, x.1);
        let q = key_of(sessions, y.0, y.1);
        slots_are_strictly_ordered(p, q, p);
        if x != y {
            assert(goes_first(key_of(sessions, b[j].0, b[j].1), q));
            assert(goes_first(key_of(sessions, a[i].0, a[i].1), p));
        }
        let c = a.drop_last();
        let d = b.drop_last();
        assert forall|pair: (Uuid, Seq<Uuid>)| #[trigger] c.contains(pair) <==> d.contains(
            pair,
        ) by {
            let r = key_of(sessions, pair.0, pair.1);
            slots_are_strictly_ordered(r, r, r);
            if c.contains(pair) {
                let k = choose|k: int| 0 <= k < c.len() && c[k] == pair;
                assert(a[k] == pair);
                assert(goes_first(key_of(sessions, a[k].0, a[k].1), p));
                assert(a.contains(pair));
                let m = choose|m: int| 0 <= m < b.len() && b[m] == pair;
                assert(d[m] == pair);
            }
            if d.contains(pair) {
                let k = choose|k: int| 0 <= k < d.len() && d[k] == pair;
                assert(b[k] == pair);
                assert(goes_first(key_of(sessions, b[k].0, b[k].1), q));
                assert(b.contains(pair));
                assert(a.contains(pair));
                let m = choose|m: int| 0 <= m < a.len() && a[m] == pair;
                assert(c[m] == pair);
            }
        }
        rank_order_is_unique(c, d, sessions);
        assert(a =~= c.push(x));
        assert(b =~= d.push(y));
    }
}

/// Suggestions of the same patterns, for the same sessions and in their order, say the same.
pub(crate) proof fn patterns_decide(
    a: Seq<DiscoveredSuggestion>,
    b: Seq<DiscoveredSuggestion>,
    sessions: Seq<SessionModel>,
)
    requires
        all_sound(a, sessions),
        all_sound(b, sessions),
        in_slot_order(a),
        in_slot_order(b),
        forall|pair: (Uuid, Seq<Uuid>)| #[trigger]
            patterns_of(a).contains(pair) <==> patterns_of(b).contains(pair),
    ensures
        a.len() == b.len(),
        forall|i: int| 0 <= i < a.len() ==> same_suggestion(#[trigger] a[i], b[i]),
{
    suggestions_in_rank_order(a, sessions);
    suggestions_in_rank_order(b, sessions);
    rank_order_is_unique(patterns_of(a), patterns_of(b), sessions);
    assert(patterns_of(a).len() == a.len());
    assert(patterns_of(b).len() == b.len());
    assert forall|i: int| 0 <= i < a.len() implies same_suggestion(#[trigger] a[i], b[i]) by {
        assert(patterns_of(a)[i] == pattern_of(a[i]));
        assert(patterns_of(b)[i] == pattern_of(b[i]));
        assert(evidence::is_suggestion_for(
            a[i],
            sessions,
            a[i].workspace_resource_id,
            a[i].action_resource_ids@,
        ));
        assert(evidence::is_suggestion_for(
            b[i],
            sessions,
            b[i].workspace_resource_id,
            b[i].action_resource_ids@,
        ));
    }
}

/// Weighs every candidate and keeps those that qualify.
pub fn weigh(
    drafts: &Vec<SessionDraft>,
    startups: &Vec<Vec<Observation>>,
    candidates: &Vec<Candidate>,
) -> (qualified: Vec<DiscoveredSuggestion>)
    requires
        evidence::startups_match(drafts@, startups@),
        forall|i: int| 0 <= i < drafts@.len() ==> (#[trigger] drafts@[i])@.starts_first(),
        4 * drafts@.len() <= u32::MAX,
        pairs_of(candidates@).no_duplicates(),
        pairs_of(candidates@).to_set() == candidate_set(session::models(drafts@)),
    ensures
        patterns_of(qualified@).no_duplicates(),
        all_sound(qualified@, session::models(drafts@)),
        forall|pair: (Uuid, Seq<Uuid>)| #[trigger]
            patterns_of(qualified@).contains(pair) <==> evidence::qualifies(
                session::models(drafts@),
                pair.0,
                pair.1,
            ),
{
    let ghost sessions = session::models(drafts@);
    let ghost pairs = pairs_of(candidates@);
    let mut qualified: Vec<DiscoveredSuggestion> = Vec::new();
    let mut i: usize = 0;
    while i < candidates.len()
        invariant
            i <= candidates@.len(),
            sessions == session::models(drafts@),
            pairs == pairs_of(candidates@),
            evidence::startups_match(drafts@, startups@),
            forall|j: int| 0 <= j < drafts@.len() ==> (#[trigger] drafts@[j])@.starts_first(),
            4 * drafts@.len() <= u32::MAX,
            pairs.no_duplicates(),
            pairs.to_set() == candidate_set(sessions),
            patterns_of(qualified@).no_duplicates(),
            all_sound(qualified@, sessions),
            forall|pair: (Uuid, Seq<Uuid>)| #[trigger]
                patterns_of(qualified@).contains(pair) <==> pairs.take(i as int).contains(pair)
                    && evidence::qualifies(sessions, pair.0, pair.1),
        decreases candidates@.len() - i,
    {
        let ghost here = pairs[i as int];
        proof {
            assert(pairs.to_set().contains(here));
            assert(evidence::is_candidate(sessions, here.0, here.1));
            assert(pairs.take(i + 1) =~= pairs.take(i as int).push(here));
            assert(!pairs.take(i as int).contains(here));
        }
        let ghost before = qualified@;
        if let Some(suggestion) = evidence::evaluate(
            drafts,
            startups,
            candidates[i].workspace,
            &candidates[i].actions,
        ) {
            qualified.push(suggestion);
            proof {
                assert(patterns_of(qualified@) =~= patterns_of(before).push(here));
                assert(!patterns_of(before).contains(here));
            }
        }
        proof {
            assert forall|pair: (Uuid, Seq<Uuid>)| #[trigger]
                patterns_of(qualified@).contains(pair) <==> pairs.take(i + 1).contains(pair)
                    && evidence::qualifies(sessions, pair.0, pair.1) by {
                assert(pairs.take(i + 1).contains(pair) <==> pairs.take(i as int).contains(pair)
                    || pair == here) by {
                    if pairs.take(i as int).contains(pair) {
                        let k = choose|k: int|
                            0 <= k < i && pairs.take(i as int)[k] == pair;
                        assert(pairs.take(i + 1)[k] == pair);
                    }
                    assert(pairs.take(i + 1)[i as int] == here);
                }
                assert(patterns_of(before).contains(pair) <==> pairs.take(i as int).contains(pair)
                    && evidence::qualifies(sessions, pair.0, pair.1));
                if qualified@.len() > before.len() {
                    assert(patterns_of(qualified@).contains(pair) <==> patterns_of(before).contains(
                        pair,
                    ) || pair == here) by {
                        let old_patterns = patterns_of(before);
                        if old_patterns.contains(pair) {
                            let k = choose|k: int|
                                0 <= k < old_patterns.len() && old_patterns[k] == pair;
                            assert(patterns_of(qualified@)[k] == pair);
                        }
                        assert(patterns_of(qualified@)[before.len() as int] == here);
                    }
                } else {
                    assert(qualified@ =~= before);
                }
            }
        }
        i = i + 1;
    }
    proof {
        assert(pairs.take(pairs.len() as int) =~= pairs);
        assert forall|pair: (Uuid, Seq<Uuid>)| #[trigger]
            patterns_of(qualified@).contains(pair) <==> evidence::qualifies(
                sessions,
                pair.0,
                pair.1,
            ) by {
            if evidence::qualifies(sessions, pair.0, pair.1) {
                assert(candidate_set(sessions).contains(pair));
                assert(pairs.to_set().contains(pair));
            }
        }
    }
    qualified
}

/// Whether the suggestion at place `k` is the choice of its workspace.
fn is_choice(qualified: &Vec<DiscoveredSuggestion>, k: usize, sessions: Ghost<Seq<SessionModel>>) -> (r:
    bool)
    requires
        k < qualified@.len(),
        patterns_of(qualified@).no_duplicates(),
        all_sound(qualified@, sessions@),
        forall|pair: (Uuid, Seq<Uuid>)| #[trigger]
            patterns_of(qualified@).contains(pair) <==> evidence::qualifies(
                sessions@,
                pair.0,
                pair.1,
            ),
    ensures
        r == is_chosen(
            sessions@,
            qualified@[k as int].workspace_resource_id,
            qualified@[k as int].action_resource_ids@,
        ),
{
    let ghost mine = pattern_of(qualified@[k as int]);
    proof {
        assert(patterns_of(qualified@)[k as int] == mine);
        key_agrees(qualified@[k as int], sessions@);
    }
    for j in 0..qualified.len()
        invariant
            k < qualified@.len(),
            patterns_of(qualified@).no_duplicates(),
            all_sound(qualified@, sessions@),
            mine == pattern_of(qualified@[k as int]),
            suggestion_key(qualified@[k as int]) == key_of(sessions@, mine.0, mine.1),
            forall|pair: (Uuid, Seq<Uuid>)| #[trigger]
                patterns_of(qualified@).contains(pair) <==> evidence::qualifies(
                    sessions@,
                    pair.0,
                    pair.1,
                ),
            forall|m: int|
                0 <= m < j && (#[trigger] qualified@[m]).workspace_resource_id == mine.0 && m != k
                    ==> preferred(
                    suggestion_key(qualified@[k as int]),
                    suggestion_key(qualified@[m]),
                ),
    {
        if j != k && qualified[j].workspace_resource_id == qualified[k].workspace_resource_id
            && !prefers(&qualified[k], &qualified[j]) {
            proof {
                let other = pattern_of(qualified@[j as int]);
                assert(patterns_of(qualified@)[j as int] == other);
                assert(patterns_of(qualified@)[k as int] == mine);
                assert(patterns_of(qualified@).contains(other));
                key_agrees(qualified@[j as int], sessions@);
                assert(evidence::qualifies(sessions@, other.0, other.1));
                assert(other.1 != mine.1);
            }
            return false;
        }
    }
    proof {
        assert(patterns_of(qualified@).contains(mine));
        assert forall|other: Seq<Uuid>| #[trigger]
            evidence::qualifies(sessions@, mine.0, other) && other != mine.1 implies preferred(
            key_of(sessions@, mine.0, mine.1),
            key_of(sessions@, mine.0, other),
        ) by {
            assert(patterns_of(qualified@).contains((mine.0, other)));
            let m = choose|m: int|
                0 <= m < patterns_of(qualified@).len() && patterns_of(qualified@)[m] == (
                    mine.0,
                    other,
                );
            assert(pattern_of(qualified@[m]) == (mine.0, other));
            key_agrees(qualified@[m], sessions@);
        }
    }
    true
}

fn insert_in_slot(chosen: &mut Vec<DiscoveredSuggestion>, suggestion: DiscoveredSuggestion)
    requires
        in_slot_order(old(chosen)@),
        forall|i: int|
            0 <= i < old(chosen)@.len() ==> pattern_of(#[trigger] old(chosen)@[i]) != pattern_of(
                suggestion,
            ),
    ensures
        in_slot_order(final(chosen)@),
        exists|at: int|
            0 <= at <= old(chosen)@.len() && final(chosen)@ == old(chosen)@.insert(at, suggestion),
{
    let ghost before = chosen@;
    let ghost new_key = suggestion_key(suggestion);
    let mut at: usize = 0;
    while at < chosen.len() && takes_slot_first(&chosen[at], &suggestion)
        invariant
            at <= chosen@.len(),
            chosen@ == before,
            new_key == suggestion_key(suggestion),
            forall|i: int| 0 <= i < at ==> goes_first(suggestion_key(#[trigger] before[i]), new_key),
        decreases chosen@.len() - at,
    {
        at = at + 1;
    }
    proof {
        assert forall|i: int| at <= i < before.len() implies goes_first(
            new_key,
            suggestion_key(#[trigger] before[i]),
        ) by {
            let here = suggestion_key(before[at as int]);
            slots_are_strictly_ordered(new_key, here, suggestion_key(before[i]));
            assert(pattern_of(before[at as int]) != pattern_of(suggestion));
            assert(goes_first(new_key, here));
            if i > at {
                assert(goes_first(here, suggestion_key(before[i])));
            }
        }
    }
    chosen.insert(at, suggestion);
    proof {
        let after = chosen@;
        assert(after == before.insert(at as int, suggestion));
        assert forall|i: int, j: int| 0 <= i < j < after.len() implies goes_first(
            suggestion_key(#[trigger] after[i]),
            suggestion_key(#[trigger] after[j]),
        ) by {
            let x = if i < at { before[i] } else if i == at { suggestion } else { before[i - 1] };
            let y = if j < at { before[j] } else if j == at { suggestion } else { before[j - 1] };
            assert(after[i] == x);
            assert(after[j] == y);
        }
    }
}

/// Whether a suggestion is one of those from place `from` on that are flagged.
spec fn taken_from(
    suggestion: DiscoveredSuggestion,
    all: Seq<DiscoveredSuggestion>,
    flags: Seq<bool>,
    from: int,
) -> bool {
    exists|m: int| from <= m < all.len() && flags[m] && #[trigger] all[m] == suggestion
}

/// Chooses one suggestion for each workspace and puts the choices in slot order.
pub(crate) fn choose_slots(
    qualified: Vec<DiscoveredSuggestion>,
    sessions: Ghost<Seq<SessionModel>>,
) -> (chosen: Vec<DiscoveredSuggestion>)
    requires
        patterns_of(qualified@).no_duplicates(),
        all_sound(qualified@, sessions@),
        forall|pair: (Uuid, Seq<Uuid>)| #[trigger]
            patterns_of(qualified@).contains(pair) <==> evidence::qualifies(
                sessions@,
                pair.0,
                pair.1,
            ),
    ensures
        all_sound(chosen@, sessions@),
        in_slot_order(chosen@),
        forall|pair: (Uuid, Seq<Uuid>)| #[trigger]
            patterns_of(chosen@).contains(pair) <==> is_chosen(sessions@, pair.0, pair.1),
{
    let ghost all = qualified@;
    let mut flags: Vec<bool> = Vec::new();
    for k in 0..qualified.len()
        invariant
            qualified@ == all,
            patterns_of(all).no_duplicates(),
            all_sound(all, sessions@),
            forall|pair: (Uuid, Seq<Uuid>)| #[trigger]
                patterns_of(all).contains(pair) <==> evidence::qualifies(
                    sessions@,
                    pair.0,
                    pair.1,
                ),
            flags@.len() == k,
            forall|m: int|
                0 <= m < k ==> #[trigger] flags@[m] == is_chosen(
                    sessions@,
                    all[m].workspace_resource_id,
                    all[m].action_resource_ids@,
                ),
    {
        flags.push(is_choice(&qualified, k, sessions));
    }
    let mut rest = qualified;
    let mut chosen: Vec<DiscoveredSuggestion> = Vec::new();
    while rest.len() > 0
        invariant
            rest@.len() <= all.len(),
            rest@ == all.take(rest@.len() as int),
            patterns_of(all).no_duplicates(),
            all_sound(all, sessions@),
            flags@.len() == all.len(),
            forall|m: int|
                0 <= m < all.len() ==> #[trigger] flags@[m] == is_chosen(
                    sessions@,
                    all[m].workspace_resource_id,
                    all[m].action_resource_ids@,
                ),
            all_sound(chosen@, sessions@),
            in_slot_order(chosen@),
            forall|i: int|
                0 <= i < chosen@.len() ==> taken_from(
                    #[trigger] chosen@[i],
                    all,
                    flags@,
                    rest@.len() as int,
                ),
            forall|m: int|
                rest@.len() <= m < all.len() && #[trigger] flags@[m] ==> chosen@.contains(all[m]),
        decreases rest@.len(),
    {
        let ghost n = rest@.len() - 1;
        let suggestion = rest.pop().unwrap();
        let ghost before = chosen@;
        proof {
            assert(suggestion == all[n]);
            assert(rest@ =~= all.take(n));
        }
        let keep: bool = flags[rest.len()];
        if keep {
            proof {
                assert forall|i: int| 0 <= i < before.len() implies pattern_of(
                    #[trigger] before[i],
                ) != pattern_of(suggestion) by {
                    assert(taken_from(before[i], all, flags@, n + 1));
                    let m = choose|m: int|
                        n < m < all.len() && flags@[m] && #[trigger] all[m] == before[i];
                    assert(patterns_of(all)[m] == pattern_of(before[i]));
                    assert(patterns_of(all)[n] == pattern_of(suggestion));
                }
            }
            insert_in_slot(&mut chosen, suggestion);
            proof {
                let at = choose|at: int|
                    0 <= at <= before.len() && chosen@ == before.insert(at, suggestion);
                assert(chosen@[at] == suggestion);
                assert forall|i: int| 0 <= i < chosen@.len() implies taken_from(
                    #[trigger] chosen@[i],
                    all,
                    flags@,
                    n,
                ) by {
                    if i == at {
                        assert(all[n] == chosen@[i]);
                    } else {
                        let src = if i < at { i } else { i - 1 };
                        assert(chosen@[i] == before[src]);
                        assert(taken_from(before[src], all, flags@, n + 1));
                    }
                }
                assert forall|m: int|
                    n <= m < all.len() && #[trigger] flags@[m] implies chosen@.contains(all[m]) by {
                    if m == n {
                        assert(chosen@[at] == all[m]);
                    } else {
                        assert(before.contains(all[m]));
                        let src = choose|src: int| 0 <= src < before.len() && before[src] == all[m];
                        let dst = if src < at { src } else { src + 1 };
                        assert(chosen@[dst] == all[m]);
                    }
                }
                assert forall|i: int| 0 <= i < chosen@.len() implies evidence::is_suggestion_for(
                    #[trigger] chosen@[i],
                    sessions@,
                    chosen@[i].workspace_resource_id,
                    chosen@[i].action_resource_ids@,
                ) by {
                    assert(taken_from(chosen@[i], all, flags@, n));
                    let m = choose|m: int|
                        n <= m < all.len() && flags@[m] && #[trigger] all[m] == chosen@[i];
                    assert(all_sound(all, sessions@));
                }
            }
        } else {
            proof {
                assert forall|i: int| 0 <= i < chosen@.len() implies taken_from(
                    #[trigger] chosen@[i],
                    all,
                    flags@,
                    n,
                ) by {
                    assert(taken_from(before[i], all, flags@, n + 1));
                }
            }
        }
    }
    proof {
        assert forall|pair: (Uuid, Seq<Uuid>)| #[trigger]
            patterns_of(chosen@).contains(pair) <==> is_chosen(sessions@, pair.0, pair.1) by {
            if patterns_of(chosen@).contains(pair) {
                let i = choose|i: int|
                    0 <= i < patterns_of(chosen@).len() && patterns_of(chosen@)[i] == pair;
                assert(pattern_of(chosen@[i]) == pair);
                assert(taken_from(chosen@[i], all, flags@, 0));
                let m = choose|m: int|
                    0 <= m < all.len() && flags@[m] && #[trigger] all[m] == chosen@[i];
                assert(flags@[m]);
            }
            if is_chosen(sessions@, pair.0, pair.1) {
                assert(evidence::qualifies(sessions@, pair.0, pair.1));
                assert(patterns_of(all).contains(pair));
                let m = choose|m: int|
                    0 <= m < patterns_of(all).len() && patterns_of(all)[m] == pair;
                assert(pattern_of(all[m]) == pair);
                assert(flags@[m]);
                assert(chosen@.contains(all[m]));
                let i = choose|i: int| 0 <= i < chosen@.len() && chosen@[i] == all[m];
                assert(patterns_of(chosen@)[i] == pair);
            }
        }
    }
    chosen
}

} // verus!
