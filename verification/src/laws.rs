//! What holds of the service as a whole, proved from the contracts of its
//! parts.

use crate::cache::has_candidate;
use crate::hub::{action_tag, Action};
use crate::ledger::{
    cast_effect, cast_outcome, index_votes, reset_effect, CastOutcome, LedgerView,
};
use crate::listener::{command_for, next_state, CommandView, EntityKind, ListenerState, StreamEvent};
use crate::model::{Campus, Candidate, Vote, VoterView};
use crate::resolver::{
    authenticates, holds_cached, holds_override, is_override_token, is_unauthorized,
};
use crate::tally::{lemma_votes_for_insert, lemma_votes_for_remove, votes_for};
use vstd::prelude::*;

verus! {

/// One cast, with what the backing store answers when asked to persist it.
pub struct CastRequest {
    pub voter: VoterView,
    pub candidate_name: Seq<char>,
    pub persisted: bool,
}

/// The ledger after the casts of `requests`, taken one after the other.
pub open spec fn ledger_after(
    ledger: LedgerView,
    candidates: Seq<Candidate>,
    requests: Seq<CastRequest>,
) -> LedgerView
    decreases requests.len(),
{
    if requests.len() == 0 {
        ledger
    } else {
        cast_effect(
            ledger_after(ledger, candidates, requests.drop_last()),
            candidates,
            requests.last().voter,
            requests.last().candidate_name,
            requests.last().persisted,
        )
    }
}

/// How cast number `i` of `requests` ends.
pub open spec fn outcome_at(
    ledger: LedgerView,
    candidates: Seq<Candidate>,
    requests: Seq<CastRequest>,
    i: int,
) -> CastOutcome {
    cast_outcome(
        ledger_after(ledger, candidates, requests.take(i)),
        candidates,
        requests[i].voter,
        requests[i].candidate_name,
        requests[i].persisted,
    )
}

/// Casts never take a vote away: who has voted after `from` casts has voted
/// after `to` casts.
pub proof fn lemma_vote_stays(
    ledger: LedgerView,
    candidates: Seq<Candidate>,
    requests: Seq<CastRequest>,
    from: int,
    to: int,
    voter: Seq<char>,
)
    requires
        0 <= from <= to <= requests.len(),
        ledger_after(ledger, candidates, requests.take(from)).has_voted(voter),
    ensures
        ledger_after(ledger, candidates, requests.take(to)).has_voted(voter),
    decreases to - from,
{
    if from < to {
        lemma_vote_stays(ledger, candidates, requests, from, to - 1, voter);
        assert(requests.take(to).drop_last() =~= requests.take(to - 1));
    }
}

/// In any sequence of casts without a reset, a voter has at most one cast
/// accepted: after an accepted cast, every later cast of the same voter is
/// turned away, and it ends in `Conflict` wherever its candidate stands in
/// the voter's campus.
pub proof fn law_one_vote_per_voter(
    ledger: LedgerView,
    candidates: Seq<Candidate>,
    requests: Seq<CastRequest>,
    first: int,
    later: int,
)
    requires
        0 <= first < later < requests.len(),
        requests[first].voter.name == requests[later].voter.name,
        outcome_at(ledger, candidates, requests, first) == CastOutcome::Accepted,
    ensures
        outcome_at(ledger, candidates, requests, later) != CastOutcome::Accepted,
        has_candidate(candidates, requests[later].candidate_name, requests[later].voter.campus)
            ==> outcome_at(ledger, candidates, requests, later) == CastOutcome::Conflict,
{
    let voter = requests[first].voter.name;
    assert(requests.take(first + 1).drop_last() =~= requests.take(first));
    assert(requests.take(first + 1).last() == requests[first]);
    assert(ledger_after(ledger, candidates, requests.take(first + 1)).has_voted(voter));
    lemma_vote_stays(ledger, candidates, requests, first + 1, later, voter);
}

/// The same cast, made `count` times.
pub open spec fn repeated(
    voter: VoterView,
    candidate_name: Seq<char>,
    count: nat,
) -> Seq<CastRequest> {
    Seq::new(count, |i: int| CastRequest { voter, candidate_name, persisted: true })
}

/// Many callers cast the same vote at once, and the ledger takes them one by
/// one in whatever order: the first is accepted, every other ends in
/// `Conflict`, and the candidate's tally goes up by exactly one.
pub proof fn law_simultaneous_casts(
    ledger: LedgerView,
    candidates: Seq<Candidate>,
    voter: VoterView,
    candidate_name: Seq<char>,
    count: nat,
    i: int,
)
    requires
        ledger.votes(voter.campus).dom().finite(),
        !ledger.has_voted(voter.name),
        has_candidate(candidates, candidate_name, voter.campus),
        0 <= i < count,
    ensures
        outcome_at(ledger, candidates, repeated(voter, candidate_name, count), i) == (if i == 0 {
            CastOutcome::Accepted
        } else {
            CastOutcome::Conflict
        }),
        ledger_after(ledger, candidates, repeated(voter, candidate_name, count)).tally(
            voter.campus,
            candidate_name,
        ) == ledger.tally(voter.campus, candidate_name) + 1,
{
    let requests = repeated(voter, candidate_name, count);
    let voted = ledger.with_vote(voter.campus, voter.name, candidate_name);
    assert(requests.take(0) =~= Seq::<CastRequest>::empty());
    assert(requests.take(count as int) =~= requests);
    lemma_repeated_casts(ledger, candidates, voter, candidate_name, count, count as int);
    if i > 0 {
        lemma_repeated_casts(ledger, candidates, voter, candidate_name, count, i);
    }
    lemma_votes_for_insert(
        ledger.votes(voter.campus),
        voter.name,
        candidate_name,
        candidate_name,
    );
}

/// After one or more of the repeated casts the ledger holds the one vote.
proof fn lemma_repeated_casts(
    ledger: LedgerView,
    candidates: Seq<Candidate>,
    voter: VoterView,
    candidate_name: Seq<char>,
    count: nat,
    done: int,
)
    requires
        !ledger.has_voted(voter.name),
        has_candidate(candidates, candidate_name, voter.campus),
        1 <= done <= count,
    ensures
        ledger_after(ledger, candidates, repeated(voter, candidate_name, count).take(done))
            == ledger.with_vote(voter.campus, voter.name, candidate_name),
    decreases done,
{
    let requests = repeated(voter, candidate_name, count);
    assert(requests.take(done).drop_last() =~= requests.take(done - 1));
    assert(requests.take(done).last() == requests[done - 1]);
    let before = ledger_after(ledger, candidates, requests.take(done - 1));
    if done == 1 {
        assert(requests.take(0) =~= Seq::<CastRequest>::empty());
        assert(before == ledger);
    } else {
        lemma_repeated_casts(ledger, candidates, voter, candidate_name, count, done - 1);
        assert(before.has_voted(voter.name));
    }
    assert(ledger_after(ledger, candidates, requests.take(done)) == cast_effect(
        before,
        candidates,
        voter,
        candidate_name,
        true,
    ));
}

/// An accepted cast adds exactly one to the tally of its candidate and
/// leaves every other tally of the campus as it was.
pub proof fn law_accepted_cast_counts_once(
    ledger: LedgerView,
    candidates: Seq<Candidate>,
    voter: VoterView,
    candidate_name: Seq<char>,
    other: Seq<char>,
)
    requires
        ledger.votes(voter.campus).dom().finite(),
        cast_outcome(ledger, candidates, voter, candidate_name, true) == CastOutcome::Accepted,
    ensures
        cast_effect(ledger, candidates, voter, candidate_name, true).tally(
            voter.campus,
            candidate_name,
        ) == ledger.tally(voter.campus, candidate_name) + 1,
        other != candidate_name ==> cast_effect(
            ledger,
            candidates,
            voter,
            candidate_name,
            true,
        ).tally(voter.campus, other) == ledger.tally(voter.campus, other),
{
    lemma_votes_for_insert(ledger.votes(voter.campus), voter.name, candidate_name, other);
}

/// Where the ledger mirrors the vote records of the backing store, it still
/// does after an accepted cast has added its record there: the tally of the
/// candidate is the number of stored records that name it.
pub proof fn law_tally_mirrors_store(
    ledger: LedgerView,
    candidates: Seq<Candidate>,
    stored: Seq<Vote>,
    voter: VoterView,
    vote: Vote,
)
    requires
        ledger.votes(voter.campus) == index_votes(stored),
        vote.voter_name@ == voter.name,
        cast_outcome(ledger, candidates, voter, vote.candidate_name@, true)
            == CastOutcome::Accepted,
    ensures
        cast_effect(ledger, candidates, voter, vote.candidate_name@, true).votes(voter.campus)
            == index_votes(stored.push(vote)),
        cast_effect(ledger, candidates, voter, vote.candidate_name@, true).tally(
            voter.campus,
            vote.candidate_name@,
        ) == votes_for(index_votes(stored.push(vote)), vote.candidate_name@),
{
    assert(stored.push(vote).drop_last() =~= stored);
    assert(stored.push(vote).last() == vote);
}

/// A reset takes the voter's vote away once: the tally of the candidate
/// voted for goes down by exactly one, a second reset changes nothing, and
/// the voter's next cast for a candidate of the campus is accepted.
pub proof fn law_reset_then_cast(
    ledger: LedgerView,
    candidates: Seq<Candidate>,
    voter: VoterView,
    campus: Campus,
    next_candidate: Seq<char>,
)
    requires
        ledger.votes(campus).dom().finite(),
        ledger.votes(campus).contains_key(voter.name),
    ensures
        !reset_effect(ledger, voter.name, true, true).has_voted(voter.name),
        reset_effect(ledger, voter.name, true, true).tally(
            campus,
            ledger.votes(campus)[voter.name],
        ) == ledger.tally(campus, ledger.votes(campus)[voter.name]) - 1,
        reset_effect(reset_effect(ledger, voter.name, true, true), voter.name, true, true)
            == reset_effect(ledger, voter.name, true, true),
        has_candidate(candidates, next_candidate, voter.campus) ==> cast_outcome(
            reset_effect(ledger, voter.name, true, true),
            candidates,
            voter,
            next_candidate,
            true,
        ) == CastOutcome::Accepted,
{
    let cleared = reset_effect(ledger, voter.name, true, true);
    lemma_votes_for_remove(ledger.votes(campus), voter.name, ledger.votes(campus)[voter.name]);
    assert(cleared.mm.remove(voter.name) =~= cleared.mm);
    assert(cleared.pd.remove(voter.name) =~= cleared.pd);
}

/// A token that is the override of `name` alone authenticates as `name` and
/// as nobody else, whatever tokens the voter snapshot holds.
pub proof fn law_override_wins(
    overrides: Map<Seq<char>, Seq<char>>,
    voters: Map<Seq<char>, VoterView>,
    token: Seq<char>,
    name: Seq<char>,
    other: Seq<char>,
)
    requires
        holds_override(overrides, token, name),
        forall|holder: Seq<char>| holds_override(overrides, token, holder) ==> holder == name,
        voters.contains_key(name),
    ensures
        authenticates(overrides, voters, token, name),
        !is_unauthorized(overrides, voters, token),
        authenticates(overrides, voters, token, other) ==> other == name,
{
}

/// A token that is nobody's override and the cached token of `name` alone,
/// who was never reset, authenticates as `name` and as nobody else.
pub proof fn law_cached_token_holds(
    overrides: Map<Seq<char>, Seq<char>>,
    voters: Map<Seq<char>, VoterView>,
    token: Seq<char>,
    name: Seq<char>,
    other: Seq<char>,
)
    requires
        !is_override_token(overrides, token),
        holds_cached(voters, token, name),
        forall|holder: Seq<char>| holds_cached(voters, token, holder) ==> holder == name,
        !overrides.contains_key(name),
    ensures
        authenticates(overrides, voters, token, name),
        !is_unauthorized(overrides, voters, token),
        authenticates(overrides, voters, token, other) ==> other == name,
{
    assert(authenticates(overrides, voters, token, name));
}

/// A token that neither store holds is turned away.
pub proof fn law_unknown_token(
    overrides: Map<Seq<char>, Seq<char>>,
    voters: Map<Seq<char>, VoterView>,
    token: Seq<char>,
)
    requires
        !is_override_token(overrides, token),
        forall|holder: Seq<char>| !holds_cached(voters, token, holder),
    ensures
        is_unauthorized(overrides, voters, token),
{
}

/// The cached token of a voter who has since been given another token is
/// stale: where it is the cached token of that voter alone and nobody's
/// override, it is turned away.
pub proof fn law_stale_token(
    overrides: Map<Seq<char>, Seq<char>>,
    voters: Map<Seq<char>, VoterView>,
    token: Seq<char>,
    name: Seq<char>,
)
    requires
        holds_cached(voters, token, name),
        forall|holder: Seq<char>| holds_cached(voters, token, holder) ==> holder == name,
        overrides.contains_key(name),
        overrides[name] != token,
        !is_override_token(overrides, token),
    ensures
        is_unauthorized(overrides, voters, token),
{
}

/// The notification of a created vote makes an open vote listener refresh
/// and broadcast `v-c:`, the voter's name, a comma and the candidate's name.
pub proof fn law_created_vote_is_broadcast(vote: Vote)
    ensures
        next_state(
            ListenerState::Listening,
            StreamEvent::Changed { action: Action::Create, vote: Some(vote) },
        ) == ListenerState::Listening,
        command_for(
            EntityKind::Vote,
            ListenerState::Listening,
            StreamEvent::Changed { action: Action::Create, vote: Some(vote) },
        ) == CommandView::RefreshAndBroadcast(
            seq!['v', '-', 'c', ':'] + vote.voter_name@ + seq![','] + vote.candidate_name@,
        ),
{
    assert(seq!['v'] + action_tag(Action::Create) =~= seq!['v', '-', 'c', ':']);
}

/// A connection that left before a broadcast is not among its recipients,
/// and every other connection still is.
pub proof fn law_disconnected_gets_nothing(
    connections: Seq<Seq<char>>,
    gone: Seq<char>,
    other: Seq<char>,
)
    requires
        connections.no_duplicates(),
        connections.contains(gone),
    ensures
        !connections.remove(connections.index_of(gone)).contains(gone),
        other != gone && connections.contains(other) ==> connections.remove(
            connections.index_of(gone),
        ).contains(other),
{
    let at = connections.index_of(gone);
    let rest = connections.remove(at);
    if rest.contains(gone) {
        let j = rest.index_of(gone);
        let j0 = if j < at { j } else { j + 1 };
        assert(connections[j0] == gone);
    }
    if other != gone && connections.contains(other) {
        let k = connections.index_of(other);
        let k1 = if k < at { k } else { k - 1 };
        assert(rest[k1] == other);
    }
}

/// An accepted vote stands in the voter's own campus, for a candidate of
/// that campus, and touches no other campus.
pub proof fn law_vote_stays_in_campus(
    ledger: LedgerView,
    candidates: Seq<Candidate>,
    voter: VoterView,
    candidate_name: Seq<char>,
    elsewhere: Campus,
)
    requires
        cast_outcome(ledger, candidates, voter, candidate_name, true) == CastOutcome::Accepted,
    ensures
        has_candidate(candidates, candidate_name, voter.campus),
        cast_effect(ledger, candidates, voter, candidate_name, true).votes(voter.campus)[voter.name]
            == candidate_name,
        elsewhere != voter.campus ==> cast_effect(
            ledger,
            candidates,
            voter,
            candidate_name,
            true,
        ).votes(elsewhere) == ledger.votes(elsewhere),
{
}

/// Casts and resets keep every voter at one live vote at most: where no
/// voter has votes in two campuses, none has after a cast or a reset.
pub proof fn law_one_live_vote(
    ledger: LedgerView,
    candidates: Seq<Candidate>,
    voter: VoterView,
    candidate_name: Seq<char>,
    persisted: bool,
    known: bool,
    deleted: bool,
)
    requires
        ledger.one_vote_each(),
    ensures
        cast_effect(ledger, candidates, voter, candidate_name, persisted).one_vote_each(),
        reset_effect(ledger, voter.name, known, deleted).one_vote_each(),
{
    let cast = cast_effect(ledger, candidates, voter, candidate_name, persisted);
    assert forall|other: Seq<char>|
        !(#[trigger] cast.mm.contains_key(other) && #[trigger] cast.pd.contains_key(other)) by {
        assert(!(ledger.mm.contains_key(other) && ledger.pd.contains_key(other)));
    }
    let reset = reset_effect(ledger, voter.name, known, deleted);
    assert forall|other: Seq<char>|
        !(#[trigger] reset.mm.contains_key(other) && #[trigger] reset.pd.contains_key(other)) by {
        assert(!(ledger.mm.contains_key(other) && ledger.pd.contains_key(other)));
    }
}

/// A notification that cannot be read is skipped: the listener stays where
/// it is and nothing is refreshed.
pub proof fn law_fault_is_skipped(kind: EntityKind, state: ListenerState)
    requires
        state != ListenerState::Failed,
    ensures
        next_state(state, StreamEvent::Faulty) == state,
        command_for(kind, state, StreamEvent::Faulty) == CommandView::Idle,
{
}

/// A listener that is lost stays lost: whatever is reported to it, it asks
/// to stop and subscribes to nothing again.
pub proof fn law_lost_listener_stays_lost(kind: EntityKind, event: StreamEvent)
    ensures
        next_state(ListenerState::Failed, event) == ListenerState::Failed,
        command_for(kind, ListenerState::Failed, event) == CommandView::Stop,
{
}

} // verus!
