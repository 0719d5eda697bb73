//! Per-candidate vote counters, kept in a concurrent map.

use dashmap::DashMap;
use vstd::prelude::*;

verus! {

/// `dashmap::DashMap`, a concurrent hash map. Nothing of its inside is known
/// here; what it holds goes by `counter_entries`.
#[verifier::external_type_specification]
#[verifier::external_body]
#[verifier::reject_recursive_types(K)]
#[verifier::reject_recursive_types(V)]
#[verifier::reject_recursive_types(S)]
pub struct ExDashMap<K, V, S>(DashMap<K, V, S>);

/// What a counter map holds: the count stored under each candidate name.
/// Two names are one key exactly when they are the same text.
pub uninterp spec fn counter_entries(counters: DashMap<String, u64>) -> Map<Seq<char>, u64>;

/// `DashMap::new`: a map that holds nothing.
#[verifier::external_body]
pub(crate) fn counters_new() -> (counters: DashMap<String, u64>)
    ensures
        counter_entries(counters) == (Map::<Seq<char>, u64>::empty()),
{
    DashMap::new()
}

/// `DashMap::get`: the count stored under `name`, or `None` where the map
/// has no such key. The guard that `get` returns is dropped before returning.
#[verifier::external_body]
pub(crate) fn counters_get(counters: &DashMap<String, u64>, name: &String) -> (count: Option<u64>)
    ensures
        count == if counter_entries(*counters).contains_key(name@) {
            Some(counter_entries(*counters)[name@])
        } else {
            None::<u64>
        },
{
    counters.get(name).map(|entry| *entry.value())
}

/// `DashMap::insert`: afterwards `name` holds `count`, and every other key
/// holds what it held.
#[verifier::external_body]
pub(crate) fn counters_insert(counters: &mut DashMap<String, u64>, name: String, count: u64)
    ensures
        counter_entries(*final(counters)) == counter_entries(*old(counters)).insert(name@, count),
{
    counters.insert(name, count);
}

/// Number of voters whose vote in `votes` names `candidate`.
pub open spec fn votes_for(votes: Map<Seq<char>, Seq<char>>, candidate: Seq<char>) -> nat {
    supporters(votes, candidate).len()
}

/// The voters whose vote in `votes` names `candidate`.
pub open spec fn supporters(votes: Map<Seq<char>, Seq<char>>, candidate: Seq<char>) -> Set<
    Seq<char>,
> {
    Set::new(|voter: Seq<char>| votes.contains_key(voter) && votes[voter] == candidate)
}

/// No candidate has more votes than there are voters who voted.
pub proof fn lemma_votes_for_bound(votes: Map<Seq<char>, Seq<char>>, candidate: Seq<char>)
    requires
        votes.dom().finite(),
    ensures
        supporters(votes, candidate).finite(),
        votes_for(votes, candidate) <= votes.dom().len(),
{
    vstd::set_lib::lemma_len_subset(supporters(votes, candidate), votes.dom());
}

/// A vote by a voter who had none adds one to its candidate and leaves
/// every other candidate's count as it was.
pub proof fn lemma_votes_for_insert(
    votes: Map<Seq<char>, Seq<char>>,
    voter: Seq<char>,
    candidate: Seq<char>,
    other: Seq<char>,
)
    requires
        votes.dom().finite(),
        !votes.contains_key(voter),
    ensures
        votes_for(votes.insert(voter, candidate), candidate) == votes_for(votes, candidate) + 1,
        other != candidate ==> votes_for(votes.insert(voter, candidate), other) == votes_for(
            votes,
            other,
        ),
{
    let after = votes.insert(voter, candidate);
    lemma_votes_for_bound(votes, candidate);
    assert(supporters(after, candidate) =~= supporters(votes, candidate).insert(voter));
    if other != candidate {
        assert(supporters(after, other) =~= supporters(votes, other));
    }
}

/// Taking a voter's vote away takes one from its candidate and leaves every
/// other candidate's count as it was.
pub proof fn lemma_votes_for_remove(
    votes: Map<Seq<char>, Seq<char>>,
    voter: Seq<char>,
    other: Seq<char>,
)
    requires
        votes.dom().finite(),
        votes.contains_key(voter),
    ensures
        votes_for(votes, votes[voter]) >= 1,
        votes_for(votes.remove(voter), votes[voter]) == votes_for(votes, votes[voter]) - 1,
        other != votes[voter] ==> votes_for(votes.remove(voter), other) == votes_for(votes, other),
{
    let candidate = votes[voter];
    let after = votes.remove(voter);
    lemma_votes_for_bound(votes, candidate);
    assert(supporters(votes, candidate).contains(voter));
    assert(supporters(after, candidate) =~= supporters(votes, candidate).remove(voter));
    if other != candidate {
        assert(supporters(after, other) =~= supporters(votes, other));
    }
}

} // verus!
