//! The vote ledger: who has voted for whom, one vote per voter, with a
//! running count per candidate.

use crate::cache::{find_candidate, has_candidate, VoterTable};
use crate::model::{Campus, Candidate, Vote, VoteView, Voter, VoterView};
use crate::table::{
    entries_upto, lemma_entries_upto_ends, lemma_entries_upto_step, text_views, StrMap,
};
use crate::tally::{
    counter_entries, counters_get, counters_insert, counters_new, lemma_votes_for_bound,
    lemma_votes_for_insert, lemma_votes_for_remove, supporters, votes_for,
};
use dashmap::DashMap;
use vstd::prelude::*;

verus! {

/// Votes of one campus with their counters. Carries no invariant of its own.
struct Ballots {
    votes: StrMap<String>,
    counters: DashMap<String, u64>,
}

/// The count that `counters` holds for `candidate`; a missing counter counts
/// as zero.
spec fn counter_value(counters: Map<Seq<char>, u64>, candidate: Seq<char>) -> nat {
    if counters.contains_key(candidate) {
        counters[candidate] as nat
    } else {
        0
    }
}

/// Whether the counter of `candidate` agrees with the votes.
spec fn balanced(
    counters: Map<Seq<char>, u64>,
    votes: Map<Seq<char>, Seq<char>>,
    candidate: Seq<char>,
) -> bool {
    counter_value(counters, candidate) == votes_for(votes, candidate)
}

/// The votes of `records` by voter. Of two records of one voter the later
/// one stays.
pub open spec fn index_votes(records: Seq<Vote>) -> Map<Seq<char>, Seq<char>>
    decreases records.len(),
{
    if records.len() == 0 {
        Map::empty()
    } else {
        index_votes(records.drop_last()).insert(
            records.last().voter_name@,
            records.last().candidate_name@,
        )
    }
}

impl Ballots {
    spec fn votes_view(&self) -> Map<Seq<char>, Seq<char>> {
        text_views(self.votes@)
    }

    spec fn tallied(&self) -> bool {
        forall|candidate: Seq<char>| #[trigger]
            balanced(counter_entries(self.counters), self.votes_view(), candidate)
    }

    fn empty() -> (ballots: Ballots)
        ensures
            ballots.votes_view() == Map::<Seq<char>, Seq<char>>::empty(),
            ballots.tallied(),
    {
        let ballots = Ballots { votes: StrMap::new(), counters: counters_new() };
        proof {
            assert(ballots.votes_view() =~= Map::<Seq<char>, Seq<char>>::empty());
            assert forall|candidate: Seq<char>| #[trigger]
                balanced(
                    counter_entries(ballots.counters),
                    ballots.votes_view(),
                    candidate,
                ) by {
                assert(supporters(ballots.votes_view(), candidate) =~= Set::<Seq<char>>::empty());
            }
        }
        ballots
    }
}

/// The votes of one campus. Each voter has at most one vote, and the counter
/// of every candidate equals the number of votes that name the candidate.
pub struct Partition {
    /// The ballots. They are taken out while they are being changed; a
    /// partition found without them holds no votes.
    state: Option<Ballots>,
}

impl View for Partition {
    type V = Map<Seq<char>, Seq<char>>;

    /// The votes, as a map from voter name to candidate name.
    closed spec fn view(&self) -> Map<Seq<char>, Seq<char>> {
        match self.state {
            Some(ballots) => ballots.votes_view(),
            None => Map::empty(),
        }
    }
}

impl Partition {
    #[verifier::type_invariant]
    closed spec fn wf(&self) -> bool {
        match self.state {
            Some(ballots) => ballots.tallied(),
            None => true,
        }
    }

    /// A partition without votes.
    pub fn new() -> (partition: Partition)
        ensures
            partition@ == Map::<Seq<char>, Seq<char>>::empty(),
    {
        Partition { state: Some(Ballots::empty()) }
    }

    /// Takes the ballots out, to change them and put them back.
    fn take_ballots(&mut self) -> (ballots: Ballots)
        ensures
            ballots.votes_view() == old(self)@,
            ballots.tallied(),
            final(self).state is None,
    {
        proof {
            use_type_invariant(&*self);
        }
        let mut taken: Option<Ballots> = None;
        std::mem::swap(&mut taken, &mut self.state);
        match taken {
            Some(ballots) => ballots,
            None => Ballots::empty(),
        }
    }

    /// Number of votes held.
    pub fn len(&self) -> (n: usize)
        ensures
            n == self@.dom().len(),
            self@.dom().finite(),
    {
        match &self.state {
            Some(ballots) => {
                proof {
                    use_type_invariant(&ballots.votes);
                    ballots.votes.lemma_rows();
                    assert(self@.dom() =~= ballots.votes@.dom());
                }
                ballots.votes.len()
            },
            None => 0,
        }
    }

    /// Whether `voter` has a vote here.
    pub fn contains(&self, voter: &String) -> (present: bool)
        ensures
            present == self@.contains_key(voter@),
    {
        match &self.state {
            Some(ballots) => ballots.votes.contains_key(voter),
            None => false,
        }
    }

    /// The candidate that `voter` voted for, if any.
    pub fn choice_of(&self, voter: &String) -> (choice: Option<&String>)
        ensures
            match choice {
                Some(candidate) => self@.contains_key(voter@) && self@[voter@] == candidate@,
                None => !self@.contains_key(voter@),
            },
    {
        match &self.state {
            Some(ballots) => ballots.votes.get(voter),
            None => None,
        }
    }

    /// The counter of `candidate`, which is the number of votes that name it.
    pub fn tally(&self, candidate: &String) -> (count: u64)
        ensures
            count == votes_for(self@, candidate@),
    {
        proof {
            use_type_invariant(self);
        }
        match &self.state {
            Some(ballots) => {
                proof {
                    assert(balanced(counter_entries(ballots.counters), self@, candidate@));
                }
                match counters_get(&ballots.counters, candidate) {
                    Some(count) => count,
                    None => 0,
                }
            },
            None => {
                proof {
                    assert(supporters(self@, candidate@) =~= Set::<Seq<char>>::empty());
                }
                0
            },
        }
    }

    /// The votes held, one record per voter.
    pub fn votes(&self) -> (list: Vec<Vote>)
        ensures
            index_votes(list@) == self@,
            list.len() == self@.dom().len(),
    {
        let table = match &self.state {
            Some(ballots) => &ballots.votes,
            None => {
                return Vec::new();
            },
        };
        proof {
            use_type_invariant(table);
            table.lemma_rows();
            lemma_entries_upto_ends(table.keys(), self@);
        }
        let n = table.len();
        let mut list: Vec<Vote> = Vec::new();
        let mut i: usize = 0;
        while i < n
            invariant
                i <= n,
                n == table.keys().len(),
                n == table.values().len(),
                n == table@.dom().len(),
                self@ == text_views(table@),
                list.len() == i,
                forall|j: int|
                    0 <= j < n ==> table@.contains_key(#[trigger] table.keys()[j])
                        && table@[table.keys()[j]] == table.values()[j],
                index_votes(list@) == entries_upto(table.keys(), self@, i as int),
            decreases n - i,
        {
            let ghost before = list@;
            let vote = Vote {
                voter_name: table.key_at(i).clone(),
                candidate_name: table.value_at(i).clone(),
            };
            list.push(vote);
            proof {
                assert(list@.drop_last() =~= before);
                assert(table@.contains_key(table.keys()[i as int]));
                lemma_entries_upto_step(table.keys(), self@, i as int);
            }
            i = i + 1;
        }
        proof {
            assert(self@.dom() =~= table@.dom());
        }
        list
    }

    /// The partition of `records`.
    pub fn from_records(records: &Vec<Vote>) -> (partition: Partition)
        ensures
            partition@ == index_votes(records@),
    {
        let mut partition = Partition::new();
        let mut i: usize = 0;
        assert(records@.take(0) =~= Seq::<Vote>::empty());
        while i < records.len()
            invariant
                i <= records.len(),
                partition@ == index_votes(records@.take(i as int)),
            decreases records.len() - i,
        {
            let ghost before = partition@;
            let voter = records[i].voter_name.clone();
            let candidate = records[i].candidate_name.clone();
            let _ = partition.withdraw(&voter);
            let _ = partition.record(voter, candidate);
            proof {
                let upto = records@.take(i + 1);
                assert(upto.drop_last() =~= records@.take(i as int));
                assert(upto.last() == records@[i as int]);
                assert(partition@ =~= before.insert(voter@, candidate@));
            }
            i = i + 1;
        }
        assert(records@.take(records.len() as int) =~= records@);
        partition
    }

    /// Adds the vote of a voter who has none here, and counts it. A voter who
    /// has a vote keeps it, and nothing changes. Returns whether the vote was
    /// added.
    pub fn record(&mut self, voter: String, candidate: String) -> (recorded: bool)
        ensures
            recorded == !old(self)@.contains_key(voter@),
            final(self)@ == (if recorded {
                old(self)@.insert(voter@, candidate@)
            } else {
                old(self)@
            }),
    {
        proof {
            use_type_invariant(&*self);
        }
        if self.contains(&voter) {
            return false;
        }
        let mut state = self.take_ballots();
        let ghost before = state;
        let count = match counters_get(&state.counters, &candidate) {
            Some(count) => count,
            None => 0,
        };
        let counted = candidate.clone();
        proof {
            use_type_invariant(&state.votes);
            state.votes.lemma_rows();
            assert(before.votes_view().dom() =~= before.votes@.dom());
            assert(balanced(counter_entries(before.counters), before.votes_view(), candidate@));
        }
        state.votes.insert(voter, candidate);
        let held = state.votes.len();
        proof {
            assert(state.votes_view() =~= before.votes_view().insert(voter@, candidate@));
            assert(state.votes_view().dom() =~= state.votes@.dom());
            lemma_votes_for_insert(before.votes_view(), voter@, candidate@, candidate@);
            lemma_votes_for_bound(state.votes_view(), candidate@);
            assert(count + 1 <= held);
        }
        counters_insert(&mut state.counters, counted, count + 1);
        proof {
            assert forall|other: Seq<char>| #[trigger]
                balanced(counter_entries(state.counters), state.votes_view(), other) by {
                assert(balanced(counter_entries(before.counters), before.votes_view(), other));
                lemma_votes_for_insert(before.votes_view(), voter@, candidate@, other);
            }
        }
        self.state = Some(state);
        true
    }

    /// Takes the vote of `voter` away, if there is one, and returns the
    /// candidate it named. The candidate's counter goes down by one.
    pub fn withdraw(&mut self, voter: &String) -> (withdrawn: Option<String>)
        ensures
            final(self)@ == old(self)@.remove(voter@),
            match withdrawn {
                Some(candidate) => old(self)@.contains_key(voter@) && old(self)@[voter@]
                    == candidate@,
                None => !old(self)@.contains_key(voter@),
            },
    {
        proof {
            use_type_invariant(&*self);
        }
        let mut state = self.take_ballots();
        let ghost before = state;
        proof {
            use_type_invariant(&state.votes);
            state.votes.lemma_rows();
            assert(before.votes_view().dom() =~= before.votes@.dom());
        }
        let withdrawn = state.votes.remove(voter);
        proof {
            assert(state.votes_view() =~= before.votes_view().remove(voter@));
        }
        match &withdrawn {
            Some(candidate) => {
                let count = match counters_get(&state.counters, candidate) {
                    Some(count) => count,
                    None => 0,
                };
                proof {
                    assert(balanced(
                        counter_entries(before.counters),
                        before.votes_view(),
                        candidate@,
                    ));
                    lemma_votes_for_remove(before.votes_view(), voter@, candidate@);
                }
                counters_insert(&mut state.counters, candidate.clone(), count - 1);
                proof {
                    assert forall|other: Seq<char>| #[trigger]
                        balanced(counter_entries(state.counters), state.votes_view(), other) by {
                        assert(balanced(
                            counter_entries(before.counters),
                            before.votes_view(),
                            other,
                        ));
                        lemma_votes_for_remove(before.votes_view(), voter@, other);
                    }
                }
            },
            None => {},
        }
        self.state = Some(state);
        withdrawn
    }
}

/// Who has voted for whom, campus by campus: each map takes a voter's name
/// to the name of the candidate voted for.
#[verifier::ext_equal]
pub struct LedgerView {
    pub mm: Map<Seq<char>, Seq<char>>,
    pub pd: Map<Seq<char>, Seq<char>>,
}

impl LedgerView {
    /// A ledger without votes.
    pub open spec fn empty() -> LedgerView {
        LedgerView { mm: Map::empty(), pd: Map::empty() }
    }

    /// The votes of `campus`.
    pub open spec fn votes(self, campus: Campus) -> Map<Seq<char>, Seq<char>> {
        match campus {
            Campus::MM => self.mm,
            Campus::PD => self.pd,
        }
    }

    /// Whether `voter` has a live vote.
    pub open spec fn has_voted(self, voter: Seq<char>) -> bool {
        self.mm.contains_key(voter) || self.pd.contains_key(voter)
    }

    /// Whether no voter has a vote in more than one campus.
    pub open spec fn one_vote_each(self) -> bool {
        forall|voter: Seq<char>|
            !(#[trigger] self.mm.contains_key(voter) && #[trigger] self.pd.contains_key(voter))
    }

    /// The tally of `candidate` in `campus`: the number of votes that name it.
    pub open spec fn tally(self, campus: Campus, candidate: Seq<char>) -> nat {
        votes_for(self.votes(campus), candidate)
    }

    /// The ledger with the vote of `voter` for `candidate` added to `campus`.
    pub open spec fn with_vote(
        self,
        campus: Campus,
        voter: Seq<char>,
        candidate: Seq<char>,
    ) -> LedgerView {
        match campus {
            Campus::MM => LedgerView { mm: self.mm.insert(voter, candidate), pd: self.pd },
            Campus::PD => LedgerView { mm: self.mm, pd: self.pd.insert(voter, candidate) },
        }
    }

    /// The ledger without any vote of `voter`.
    pub open spec fn without_voter(self, voter: Seq<char>) -> LedgerView {
        LedgerView { mm: self.mm.remove(voter), pd: self.pd.remove(voter) }
    }
}

/// How a cast ended.
#[derive(Debug, Clone, Copy, PartialEq, Eq, Structural)]
pub enum CastOutcome {
    /// Success: the vote is persisted and counted.
    Accepted,
    /// No candidate of that name stands in the voter's campus.
    BadRequest,
    /// The voter has a live vote already.
    Conflict,
    /// The backing store did not take the vote; nothing was counted.
    InternalError,
}

/// How a reset ended.
#[derive(Debug, Clone, Copy, PartialEq, Eq, Structural)]
pub enum ResetOutcome {
    /// Success: the voter has no live vote any more.
    Cleared,
    /// No voter of that name is cached.
    NotFound,
    /// The backing store did not delete the vote; nothing was changed.
    InternalError,
}

/// A vote that passed validation and waits for the backing store.
#[derive(Debug)]
pub struct PendingVote {
    pub vote: Vote,
    pub campus: Campus,
}

/// How a cast of `voter` for `candidate_name` ends on `ledger`, where
/// `persisted` says whether the backing store takes the vote when asked.
pub open spec fn cast_outcome(
    ledger: LedgerView,
    candidates: Seq<Candidate>,
    voter: VoterView,
    candidate_name: Seq<char>,
    persisted: bool,
) -> CastOutcome {
    if !has_candidate(candidates, candidate_name, voter.campus) {
        CastOutcome::BadRequest
    } else if ledger.has_voted(voter.name) {
        CastOutcome::Conflict
    } else if !persisted {
        CastOutcome::InternalError
    } else {
        CastOutcome::Accepted
    }
}

/// The ledger after that cast: one vote more where it is accepted, unchanged
/// otherwise.
pub open spec fn cast_effect(
    ledger: LedgerView,
    candidates: Seq<Candidate>,
    voter: VoterView,
    candidate_name: Seq<char>,
    persisted: bool,
) -> LedgerView {
    if cast_outcome(ledger, candidates, voter, candidate_name, persisted) == CastOutcome::Accepted {
        ledger.with_vote(voter.campus, voter.name, candidate_name)
    } else {
        ledger
    }
}

/// How a reset of `voter_name` ends, where `known` says whether the voter is
/// cached and `deleted` whether the backing store deleted the voter's vote.
pub open spec fn reset_outcome(known: bool, deleted: bool) -> ResetOutcome {
    if !known {
        ResetOutcome::NotFound
    } else if !deleted {
        ResetOutcome::InternalError
    } else {
        ResetOutcome::Cleared
    }
}

/// The ledger after that reset.
pub open spec fn reset_effect(
    ledger: LedgerView,
    voter_name: Seq<char>,
    known: bool,
    deleted: bool,
) -> LedgerView {
    if reset_outcome(known, deleted) == ResetOutcome::Cleared {
        ledger.without_voter(voter_name)
    } else {
        ledger
    }
}

/// The vote ledger of the service.
pub struct Ledger {
    mm: Partition,
    pd: Partition,
}

impl View for Ledger {
    type V = LedgerView;

    closed spec fn view(&self) -> LedgerView {
        LedgerView { mm: self.mm@, pd: self.pd@ }
    }
}

impl Ledger {
    /// A ledger without votes.
    pub fn new() -> (ledger: Ledger)
        ensures
            ledger@ == LedgerView::empty(),
    {
        Ledger { mm: Partition::new(), pd: Partition::new() }
    }

    /// Whether `voter` has a live vote in any campus.
    pub fn has_voted(&self, voter: &String) -> (voted: bool)
        ensures
            voted == self@.has_voted(voter@),
    {
        self.mm.contains(voter) || self.pd.contains(voter)
    }

    /// The tally of `candidate` in `campus`. It is the number of votes held
    /// for that candidate, whatever casts and resets came before.
    pub fn tally(&self, campus: Campus, candidate: &str) -> (count: u64)
        ensures
            count == self@.tally(campus, candidate@),
    {
        let name = candidate.to_owned();
        match campus {
            Campus::MM => self.mm.tally(&name),
            Campus::PD => self.pd.tally(&name),
        }
    }

    /// Validates a cast before anything is written: the candidate must stand
    /// in the voter's campus, and the voter must have no live vote. Returns
    /// the vote to persist, or how the cast ends without it.
    pub fn begin_cast(
        &self,
        candidates: &Vec<Candidate>,
        voter: &Voter,
        candidate_name: &str,
    ) -> (begun: Result<PendingVote, CastOutcome>)
        ensures
            match begun {
                Ok(pending) => cast_outcome(self@, candidates@, voter@, candidate_name@, true)
                    == CastOutcome::Accepted && pending.campus == voter.campus && pending.vote@ == (
                    VoteView { voter_name: voter.name@, candidate_name: candidate_name@ }),
                Err(outcome) => outcome != CastOutcome::Accepted && outcome == cast_outcome(
                    self@,
                    candidates@,
                    voter@,
                    candidate_name@,
                    true,
                ),
            },
    {
        let name = candidate_name.to_owned();
        if find_candidate(candidates, &name, voter.campus).is_none() {
            return Err(CastOutcome::BadRequest);
        }
        if self.has_voted(&voter.name) {
            return Err(CastOutcome::Conflict);
        }
        Ok(
            PendingVote {
                vote: Vote { voter_name: voter.name.clone(), candidate_name: name },
                campus: voter.campus,
            },
        )
    }

    /// Ends a cast that `begin_cast` let through, once the backing store has
    /// answered. The vote is counted only if it was persisted and the voter
    /// still has no live vote.
    pub fn finish_cast(&mut self, pending: PendingVote, persisted: bool) -> (outcome: CastOutcome)
        ensures
            outcome == (if old(self)@.has_voted(pending.vote.voter_name@) {
                CastOutcome::Conflict
            } else if !persisted {
                CastOutcome::InternalError
            } else {
                CastOutcome::Accepted
            }),
            final(self)@ == (if outcome == CastOutcome::Accepted {
                old(self)@.with_vote(
                    pending.campus,
                    pending.vote.voter_name@,
                    pending.vote.candidate_name@,
                )
            } else {
                old(self)@
            }),
    {
        if self.has_voted(&pending.vote.voter_name) {
            return CastOutcome::Conflict;
        }
        if !persisted {
            return CastOutcome::InternalError;
        }
        let _ = match pending.campus {
            Campus::MM => self.mm.record(pending.vote.voter_name, pending.vote.candidate_name),
            Campus::PD => self.pd.record(pending.vote.voter_name, pending.vote.candidate_name),
        };
        CastOutcome::Accepted
    }

    /// A whole cast, given what the backing store answers when asked to
    /// persist the vote. The store is asked only where validation passes.
    pub fn cast(
        &mut self,
        candidates: &Vec<Candidate>,
        voter: &Voter,
        candidate_name: &str,
        persisted: bool,
    ) -> (outcome: CastOutcome)
        ensures
            outcome == cast_outcome(old(self)@, candidates@, voter@, candidate_name@, persisted),
            final(self)@ == cast_effect(old(self)@, candidates@, voter@, candidate_name@, persisted),
    {
        match self.begin_cast(candidates, voter, candidate_name) {
            Ok(pending) => self.finish_cast(pending, persisted),
            Err(outcome) => outcome,
        }
    }

    /// Clears the live vote of a cached voter, given whether the backing
    /// store deleted it. The tally of the candidate voted for goes down by
    /// one; a voter without a vote changes nothing.
    pub fn reset(
        &mut self,
        voters: &VoterTable,
        voter_name: &str,
        deleted: bool,
    ) -> (outcome: ResetOutcome)
        ensures
            outcome == reset_outcome(voters@.contains_key(voter_name@), deleted),
            final(self)@ == reset_effect(
                old(self)@,
                voter_name@,
                voters@.contains_key(voter_name@),
                deleted,
            ),
    {
        let name = voter_name.to_owned();
        if !voters.contains(&name) {
            return ResetOutcome::NotFound;
        }
        if !deleted {
            return ResetOutcome::InternalError;
        }
        let _ = self.mm.withdraw(&name);
        let _ = self.pd.withdraw(&name);
        ResetOutcome::Cleared
    }
}

/// Fetched vote records, campus by campus.
#[derive(Debug)]
pub struct VotesByCampus {
    pub mm: Vec<Vote>,
    pub pd: Vec<Vote>,
}

/// A recorded vote whose candidate does not stand in the vote's campus.
#[derive(Debug)]
pub struct OrphanVote {
    pub vote: Vote,
    pub campus: Campus,
}

/// Whether some vote of `records` names a candidate that does not stand in
/// `campus`.
pub open spec fn has_orphan(candidates: Seq<Candidate>, campus: Campus, records: Seq<Vote>) -> bool {
    exists|i: int|
        0 <= i < records.len() && !has_candidate(
            candidates,
            (#[trigger] records[i]).candidate_name@,
            campus,
        )
}

/// Whether every fetched vote names a known candidate of its campus.
pub open spec fn intact(candidates: Seq<Candidate>, fetched: Option<VotesByCampus>) -> bool {
    match fetched {
        Some(votes) => !has_orphan(candidates, Campus::MM, votes.mm@) && !has_orphan(
            candidates,
            Campus::PD,
            votes.pd@,
        ),
        None => true,
    }
}

/// The ledger of what was fetched; empty where the fetch failed.
pub open spec fn rebuilt(fetched: Option<VotesByCampus>) -> LedgerView {
    match fetched {
        Some(votes) => LedgerView { mm: index_votes(votes.mm@), pd: index_votes(votes.pd@) },
        None => LedgerView::empty(),
    }
}

/// Row of the first vote of `records` that names no candidate of `campus`.
fn find_orphan(
    candidates: &Vec<Candidate>,
    campus: Campus,
    records: &Vec<Vote>,
) -> (found: Option<usize>)
    ensures
        match found {
            Some(i) => i < records.len() && !has_candidate(
                candidates@,
                records[i as int].candidate_name@,
                campus,
            ),
            None => !has_orphan(candidates@, campus, records@),
        },
{
    let mut i: usize = 0;
    while i < records.len()
        invariant
            i <= records.len(),
            forall|j: int|
                0 <= j < i ==> has_candidate(
                    candidates@,
                    (#[trigger] records[j]).candidate_name@,
                    campus,
                ),
        decreases records.len() - i,
    {
        if find_candidate(candidates, &records[i].candidate_name, campus).is_none() {
            return Some(i);
        }
        i = i + 1;
    }
    None
}

/// Builds the ledger from the fetched votes. A failed fetch (`None`) gives an
/// empty ledger. A vote that names no candidate of its campus is an error:
/// the records are corrupt, and no ledger is built from them.
pub fn init_votes_count(
    candidates: &Vec<Candidate>,
    fetched: Option<VotesByCampus>,
) -> (built: Result<Ledger, OrphanVote>)
    ensures
        built is Ok <==> intact(candidates@, fetched),
        match built {
            Ok(ledger) => ledger@ == rebuilt(fetched),
            Err(orphan) => fetched is Some && !has_candidate(
                candidates@,
                orphan.vote.candidate_name@,
                orphan.campus,
            ) && fetched->0.votes_of(orphan.campus).contains(orphan.vote),
        },
{
    match fetched {
        None => Ok(Ledger::new()),
        Some(votes) => {
            match find_orphan(candidates, Campus::MM, &votes.mm) {
                Some(i) => {
                    return Err(OrphanVote { vote: votes.mm[i].clone(), campus: Campus::MM });
                },
                None => {},
            }
            match find_orphan(candidates, Campus::PD, &votes.pd) {
                Some(i) => {
                    return Err(OrphanVote { vote: votes.pd[i].clone(), campus: Campus::PD });
                },
                None => {},
            }
            Ok(
                Ledger {
                    mm: Partition::from_records(&votes.mm),
                    pd: Partition::from_records(&votes.pd),
                },
            )
        },
    }
}

impl VotesByCampus {
    /// The fetched votes of `campus`.
    pub open spec fn votes_of(self, campus: Campus) -> Seq<Vote> {
        match campus {
            Campus::MM => self.mm@,
            Campus::PD => self.pd@,
        }
    }
}

/// Rebuilds the ledger from the fetched votes, as `init_votes_count` builds
/// it. Where the records are corrupt the ledger stays as it was.
pub fn update_votes_data(
    ledger: &mut Ledger,
    candidates: &Vec<Candidate>,
    fetched: Option<VotesByCampus>,
) -> (done: Result<(), OrphanVote>)
    ensures
        done is Ok <==> intact(candidates@, fetched),
        match done {
            Ok(_) => final(ledger)@ == rebuilt(fetched),
            Err(orphan) => final(ledger)@ == old(ledger)@ && fetched is Some && !has_candidate(
                candidates@,
                orphan.vote.candidate_name@,
                orphan.campus,
            ) && fetched->0.votes_of(orphan.campus).contains(orphan.vote),
        },
{
    match init_votes_count(candidates, fetched) {
        Ok(built) => {
            *ledger = built;
            Ok(())
        },
        Err(orphan) => Err(orphan),
    }
}

/// The votes of `campus`, one record per voter.
pub fn get_votes_count(ledger: &Ledger, campus: Campus) -> (list: Vec<Vote>)
    ensures
        index_votes(list@) == ledger@.votes(campus),
        list.len() == ledger@.votes(campus).dom().len(),
{
    match campus {
        Campus::MM => ledger.mm.votes(),
        Campus::PD => ledger.pd.votes(),
    }
}

/// A candidate with the number of votes held for it.
#[derive(Debug, PartialEq, Eq)]
pub struct CandidateCount {
    pub candidate_name: String,
    pub votes: u64,
}

/// The candidates of `campus` that have votes, in the order of `candidates`,
/// each with its tally.
pub open spec fn counts_of(
    votes: Map<Seq<char>, Seq<char>>,
    candidates: Seq<Candidate>,
    campus: Campus,
) -> Seq<(Seq<char>, nat)>
    decreases candidates.len(),
{
    if candidates.len() == 0 {
        Seq::empty()
    } else {
        let earlier = counts_of(votes, candidates.drop_last(), campus);
        let candidate = candidates.last();
        if candidate.campus == campus && votes_for(votes, candidate.name@) > 0 {
            earlier.push((candidate.name@, votes_for(votes, candidate.name@)))
        } else {
            earlier
        }
    }
}

/// The rows of `board` as plain values.
pub open spec fn count_views(board: Seq<CandidateCount>) -> Seq<(Seq<char>, nat)> {
    Seq::new(board.len(), |i: int| (board[i].candidate_name@, board[i].votes as nat))
}

/// The tally board of `campus`: every candidate of the campus that has at
/// least one vote, with its tally.
pub fn count_votes(
    ledger: &Ledger,
    candidates: &Vec<Candidate>,
    campus: Campus,
) -> (board: Vec<CandidateCount>)
    ensures
        count_views(board@) == counts_of(ledger@.votes(campus), candidates@, campus),
{
    let mut board: Vec<CandidateCount> = Vec::new();
    let mut i: usize = 0;
    assert(candidates@.take(0) =~= Seq::<Candidate>::empty());
    assert(count_views(board@) =~= counts_of(ledger@.votes(campus), candidates@.take(0), campus));
    while i < candidates.len()
        invariant
            i <= candidates.len(),
            count_views(board@) == counts_of(
                ledger@.votes(campus),
                candidates@.take(i as int),
                campus,
            ),
        decreases candidates.len() - i,
    {
        let ghost before = board@;
        proof {
            let upto = candidates@.take(i + 1);
            assert(upto.drop_last() =~= candidates@.take(i as int));
            assert(upto.last() == candidates@[i as int]);
        }
        if candidates[i].campus == campus {
            let votes = match campus {
                Campus::MM => ledger.mm.tally(&candidates[i].name),
                Campus::PD => ledger.pd.tally(&candidates[i].name),
            };
            if votes > 0 {
                board.push(CandidateCount { candidate_name: candidates[i].name.clone(), votes });
                proof {
                    assert(count_views(board@) =~= count_views(before).push(
                        (candidates[i as int].name@, votes as nat),
                    ));
                }
            }
        }
        i = i + 1;
    }
    assert(candidates@.take(candidates.len() as int) =~= candidates@);
    board
}

} // verus!
