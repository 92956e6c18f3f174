//! Proposals, votes weighted by a ledger snapshot, and the execution claim.
//!
//! A proposal is open from its submission until voting closes; execution is
//! claimed at most once, before any outside work, and closes it for good.

use vstd::prelude::*;
use vstd::string::StringExecFns;
use crate::natural::BigNat;
use crate::natural::decimal_text;

verus! {

/// Why a governance operation was refused.
#[derive(Clone, Copy, Debug, PartialEq, Eq, Structural)]
pub enum GovernanceError {
    /// No proposal has the id.
    NotFound,
    /// Voting on the proposal has closed, or its end time has passed.
    Closed,
    /// The address has already voted on the proposal.
    AlreadyVoted,
    /// The proposal has already been executed.
    AlreadyExecuted,
}

/// A proposal as submitted, with its tallies and its execution state.
#[derive(Debug)]
pub struct Proposal {
    pub id: u64,
    pub title: String,
    pub description: String,
    pub proposal_type: String,
    pub submitter: String,
    pub submitter_eth_address: String,
    pub proposal_start_timestamp: u64,
    pub proposal_end_timestamp: u64,
    pub is_open: bool,
    pub is_executed: bool,
    pub yes_votes: BigNat,
    pub no_votes: BigNat,
    pub block_height: String,
    pub eth_transaction_hash: Option<String>,
}

/// What a proposal holds, as mathematical values.
pub struct ProposalView {
    pub id: u64,
    pub title: Seq<char>,
    pub description: Seq<char>,
    pub proposal_type: Seq<char>,
    pub submitter: Seq<char>,
    pub submitter_eth_address: Seq<char>,
    pub start: u64,
    pub end: u64,
    pub is_open: bool,
    pub is_executed: bool,
    pub yes: nat,
    pub no: nat,
    pub block_height: Seq<char>,
    pub tx_hash: Option<Seq<char>>,
}

/// The text held by an optional string.
pub open spec fn text_option(o: Option<String>) -> Option<Seq<char>> {
    match o {
        Some(s) => Some(s@),
        None => None,
    }
}

impl View for Proposal {
    type V = ProposalView;

    open spec fn view(&self) -> ProposalView {
        ProposalView {
            id: self.id,
            title: self.title@,
            description: self.description@,
            proposal_type: self.proposal_type@,
            submitter: self.submitter@,
            submitter_eth_address: self.submitter_eth_address@,
            start: self.proposal_start_timestamp,
            end: self.proposal_end_timestamp,
            is_open: self.is_open,
            is_executed: self.is_executed,
            yes: self.yes_votes@,
            no: self.no_votes@,
            block_height: self.block_height@,
            tx_hash: text_option(self.eth_transaction_hash),
        }
    }
}

impl Proposal {
    /// The same proposal, in a value of its own.
    pub fn copy(&self) -> (r: Proposal)
        ensures
            r@ == self@,
    {
        let eth_transaction_hash = match &self.eth_transaction_hash {
            Some(h) => Some(h.clone()),
            None => None,
        };
        Proposal {
            id: self.id,
            title: self.title.clone(),
            description: self.description.clone(),
            proposal_type: self.proposal_type.clone(),
            submitter: self.submitter.clone(),
            submitter_eth_address: self.submitter_eth_address.clone(),
            proposal_start_timestamp: self.proposal_start_timestamp,
            proposal_end_timestamp: self.proposal_end_timestamp,
            is_open: self.is_open,
            is_executed: self.is_executed,
            yes_votes: self.yes_votes.copy(),
            no_votes: self.no_votes.copy(),
            block_height: self.block_height.clone(),
            eth_transaction_hash,
        }
    }
}

/// One address's vote on one proposal. The weight is absent until the
/// address's balance at the proposal's snapshot block has been counted.
#[derive(Debug)]
pub struct VoteRecord {
    pub proposal_id: u64,
    pub voter: String,
    pub vote: bool,
    pub weight: Option<BigNat>,
}

/// What a vote record holds, as mathematical values.
pub struct VoteView {
    pub proposal_id: u64,
    pub voter: Seq<char>,
    pub vote: bool,
    pub weight: Option<nat>,
}

impl View for VoteRecord {
    type V = VoteView;

    open spec fn view(&self) -> VoteView {
        VoteView {
            proposal_id: self.proposal_id,
            voter: self.voter@,
            vote: self.vote,
            weight: match self.weight {
                Some(w) => Some(w@),
                None => None,
            },
        }
    }
}

/// The weight that a vote record adds to the tally of `choice` on proposal `id`.
pub open spec fn contribution(v: VoteView, id: u64, choice: bool) -> nat {
    if v.proposal_id == id && v.vote == choice {
        match v.weight {
            Some(w) => w,
            None => 0,
        }
    } else {
        0
    }
}

/// The summed weight of the counted votes for `choice` on proposal `id`.
pub open spec fn tally(votes: Seq<VoteView>, id: u64, choice: bool) -> nat
    decreases votes.len(),
{
    if votes.len() == 0 {
        0
    } else {
        tally(votes.drop_last(), id, choice) + contribution(votes.last(), id, choice)
    }
}

/// Whether some record holds a vote of `voter` on proposal `id`.
pub open spec fn has_vote(votes: Seq<VoteView>, id: u64, voter: Seq<char>) -> bool {
    exists|k: int| 0 <= k < votes.len() && votes[k].proposal_id == id && votes[k].voter == voter
}

/// Whether some proposal has the id.
pub open spec fn holds_id(ps: Seq<ProposalView>, id: u64) -> bool {
    exists|i: int| 0 <= i < ps.len() && ps[i].id == id
}

/// The position of the proposal with the id, where there is one.
pub open spec fn index_of(ps: Seq<ProposalView>, id: u64) -> int {
    choose|i: int| 0 <= i < ps.len() && ps[i].id == id
}

/// Everything the store holds, as mathematical values.
pub struct StoreModel {
    pub proposals: Seq<ProposalView>,
    pub votes: Seq<VoteView>,
    pub last_id: u64,
}

/// The store's invariant: ids ascend and were all handed out, every
/// executed proposal is closed, only an executed one has a transaction id, an address votes at most once per proposal,
/// and each tally is the sum of the counted votes.
pub open spec fn store_wf(s: StoreModel) -> bool {
    &&& forall|i: int, j: int|
        0 <= i < j < s.proposals.len() ==> s.proposals[i].id < s.proposals[j].id
    &&& forall|i: int| 0 <= i < s.proposals.len() ==> s.proposals[i].id <= s.last_id
    &&& forall|k: int| 0 <= k < s.votes.len() ==> s.votes[k].proposal_id <= s.last_id
    &&& forall|i: int| 0 <= i < s.proposals.len() ==> (#[trigger] s.proposals[i]).is_executed
        ==> !s.proposals[i].is_open
    &&& forall|i: int| 0 <= i < s.proposals.len() ==> !(#[trigger] s.proposals[i]).is_executed
        ==> s.proposals[i].tx_hash is None
    &&& forall|k: int, l: int|
        0 <= k < l < s.votes.len() ==> !(s.votes[k].proposal_id == s.votes[l].proposal_id
            && s.votes[k].voter == s.votes[l].voter)
    &&& forall|i: int|
        0 <= i < s.proposals.len() ==> (#[trigger] s.proposals[i]).yes == tally(
            s.votes,
            s.proposals[i].id,
            true,
        ) && s.proposals[i].no == tally(s.votes, s.proposals[i].id, false)
}

/// Appending a record adds its contribution.
proof fn lemma_tally_push(votes: Seq<VoteView>, v: VoteView, id: u64, choice: bool)
    ensures
        tally(votes.push(v), id, choice) == tally(votes, id, choice) + contribution(v, id, choice),
{
    assert(votes.push(v).drop_last() =~= votes);
}

/// Replacing a record swaps its contribution.
proof fn lemma_tally_update(votes: Seq<VoteView>, k: int, v: VoteView, id: u64, choice: bool)
    requires
        0 <= k < votes.len(),
    ensures
        tally(votes.update(k, v), id, choice) + contribution(votes[k], id, choice) == tally(
            votes,
            id,
            choice,
        ) + contribution(v, id, choice),
    decreases votes.len(),
{
    if k == votes.len() - 1 {
        assert(votes.update(k, v).drop_last() =~= votes.drop_last());
    } else {
        lemma_tally_update(votes.drop_last(), k, v, id, choice);
        assert(votes.update(k, v).drop_last() =~= votes.drop_last().update(k, v));
    }
}

/// A proposal that no record names has empty tallies.
proof fn lemma_tally_fresh(votes: Seq<VoteView>, id: u64, choice: bool)
    requires
        forall|k: int| 0 <= k < votes.len() ==> votes[k].proposal_id != id,
    ensures
        tally(votes, id, choice) == 0,
    decreases votes.len(),
{
    if votes.len() > 0 {
        lemma_tally_fresh(votes.drop_last(), id, choice);
    }
}

/// The proposals and the votes cast on them.
pub struct ProposalStore {
    proposals: Vec<Proposal>,
    votes: Vec<VoteRecord>,
    last_id: u64,
}

impl View for ProposalStore {
    type V = StoreModel;

    closed spec fn view(&self) -> StoreModel {
        StoreModel {
            proposals: self.proposals@.map_values(|p: Proposal| p@),
            votes: self.votes@.map_values(|v: VoteRecord| v@),
            last_id: self.last_id,
        }
    }
}

impl ProposalStore {
    /// The store's invariant.
    pub open spec fn wf(&self) -> bool {
        store_wf(self@)
    }

    /// An empty store.
    pub fn new() -> (r: ProposalStore)
        ensures
            r.wf(),
            r@.proposals.len() == 0,
            r@.votes.len() == 0,
            r@.last_id == 0,
    {
        let r = ProposalStore { proposals: Vec::new(), votes: Vec::new(), last_id: 0 };
        assert(r@.proposals =~= Seq::<ProposalView>::empty());
        assert(r@.votes =~= Seq::<VoteView>::empty());
        r
    }

    /// The id most recently handed out; zero before the first submission.
    pub fn last_id(&self) -> (r: u64)
        ensures
            r == self@.last_id,
    {
        self.last_id
    }

    /// Appends an open proposal under the next id, with empty tallies, ending
    /// `duration_seconds` after `now` (both in nanoseconds but the duration).
    pub fn submit_proposal(
        &mut self,
        title: String,
        description: String,
        proposal_type: String,
        submitter: String,
        submitter_eth_address: String,
        now: u64,
        duration_seconds: u64,
        block_height: String,
    ) -> (id: u64)
        requires
            old(self).wf(),
            old(self)@.last_id < u64::MAX,
            now + duration_seconds * 1_000_000_000 <= u64::MAX,
        ensures
            final(self).wf(),
            id == old(self)@.last_id + 1,
            final(self)@.last_id == id,
            final(self)@.votes == old(self)@.votes,
            final(self)@.proposals == old(self)@.proposals.push(
                (ProposalView {
                    id,
                    title: title@,
                    description: description@,
                    proposal_type: proposal_type@,
                    submitter: submitter@,
                    submitter_eth_address: submitter_eth_address@,
                    start: now,
                    end: (now + duration_seconds * 1_000_000_000) as u64,
                    is_open: true,
                    is_executed: false,
                    yes: 0,
                    no: 0,
                    block_height: block_height@,
                    tx_hash: None,
                }),
            ),
    {
        let id = self.last_id + 1;
        let end = now + duration_seconds * 1_000_000_000;
        let proposal = Proposal {
            id,
            title,
            description,
            proposal_type,
            submitter,
            submitter_eth_address,
            proposal_start_timestamp: now,
            proposal_end_timestamp: end,
            is_open: true,
            is_executed: false,
            yes_votes: BigNat::zero(),
            no_votes: BigNat::zero(),
            block_height,
            eth_transaction_hash: None,
        };
        let ghost old_view = self@;
        self.proposals.push(proposal);
        self.last_id = id;
        proof {
            assert(self@.proposals =~= old_view.proposals.push(proposal@));
            assert(self@.votes =~= old_view.votes);
            lemma_tally_fresh(self@.votes, id, true);
            lemma_tally_fresh(self@.votes, id, false);
        }
        id
    }

    /// Copies of all proposals, in order.
    pub fn get_proposals(&self) -> (r: Vec<Proposal>)
        ensures
            r@.map_values(|p: Proposal| p@) == self@.proposals,
    {
        let mut r: Vec<Proposal> = Vec::new();
        let mut i: usize = 0;
        while i < self.proposals.len()
            invariant
                0 <= i <= self.proposals@.len(),
                r@.len() == i,
                forall|j: int| 0 <= j < i ==> r@[j]@ == self.proposals@[j]@,
            decreases self.proposals@.len() - i,
        {
            r.push(self.proposals[i].copy());
            i += 1;
        }
        assert(r@.map_values(|p: Proposal| p@) =~= self@.proposals);
        r
    }

    /// The position of the proposal with the id.
    fn find_proposal(&self, proposal_id: u64) -> (r: Option<usize>)
        requires
            self.wf(),
        ensures
            r matches Some(i) ==> i < self@.proposals.len() && self@.proposals[i as int].id
                == proposal_id && index_of(self@.proposals, proposal_id) == i,
            r is None ==> !holds_id(self@.proposals, proposal_id),
    {
        let mut i: usize = 0;
        while i < self.proposals.len()
            invariant
                self.wf(),
                0 <= i <= self.proposals@.len(),
                forall|j: int| 0 <= j < i ==> self.proposals@[j].id != proposal_id,
            decreases self.proposals@.len() - i,
        {
            if self.proposals[i].id == proposal_id {
                proof {
                    let ps = self@.proposals;
                    assert(ps[i as int].id == proposal_id);
                    let k = index_of(ps, proposal_id);
                    assert(ps[k].id == proposal_id);
                    assert(0 <= k < ps.len());
                    if k < i {
                        assert(ps[k].id < ps[i as int].id);
                    } else if k > i {
                        assert(ps[i as int].id < ps[k].id);
                    }
                }
                return Some(i);
            }
            i += 1;
        }
        proof {
            let ps = self@.proposals;
            assert forall|j: int| 0 <= j < ps.len() implies ps[j].id != proposal_id by {
                assert(ps[j] == self.proposals@[j]@);
            }
        }
        None
    }

    /// Whether the address has voted on the proposal.
    pub fn has_voted(&self, proposal_id: u64, voter: &String) -> (r: bool)
        ensures
            r == has_vote(self@.votes, proposal_id, voter@),
    {
        let mut k: usize = 0;
        while k < self.votes.len()
            invariant
                0 <= k <= self.votes@.len(),
                forall|l: int|
                    0 <= l < k ==> !(self.votes@[l].proposal_id == proposal_id
                        && self.votes@[l].voter@ == voter@),
            decreases self.votes@.len() - k,
        {
            if self.votes[k].proposal_id == proposal_id && self.votes[k].voter == *voter {
                proof {
                    assert(self@.votes[k as int] == self.votes@[k as int]@);
                }
                return true;
            }
            k += 1;
        }
        proof {
            let vs = self@.votes;
            assert forall|l: int| 0 <= l < vs.len() implies !(vs[l].proposal_id == proposal_id
                && vs[l].voter == voter@) by {
                assert(vs[l] == self.votes@[l]@);
            }
        }
        false
    }

    /// Whether a vote on the proposal may go ahead at time `now`; on success,
    /// the snapshot block at which the voter's weight is read.
    pub fn check_vote_open(&self, proposal_id: u64, now: u64) -> (r: Result<String, GovernanceError>)
        requires
            self.wf(),
        ensures
            r matches Ok(h) ==> vote_gate(self@.proposals, proposal_id, now) == Ok::<
                Seq<char>,
                GovernanceError,
            >(h@),
            r matches Err(e) ==> vote_gate(self@.proposals, proposal_id, now) == Err::<
                Seq<char>,
                GovernanceError,
            >(e),
    {
        match self.find_proposal(proposal_id) {
            None => Err(GovernanceError::NotFound),
            Some(i) => {
                let p = &self.proposals[i];
                proof {
                    assert(self@.proposals[i as int] == p@);
                }
                if !p.is_open || p.proposal_end_timestamp < now {
                    Err(GovernanceError::Closed)
                } else {
                    Ok(p.block_height.clone())
                }
            },
        }
    }

    /// Records the address's vote on the proposal, not yet weighted. Refused
    /// when the proposal is gone or the address has voted on it already.
    pub fn record_vote(&mut self, proposal_id: u64, voter: String, vote: bool) -> (r: Result<
        (),
        GovernanceError,
    >)
        requires
            old(self).wf(),
        ensures
            final(self).wf(),
            r == record_outcome(old(self)@, proposal_id, voter@),
            final(self)@.proposals == old(self)@.proposals,
            final(self)@.last_id == old(self)@.last_id,
            r is Ok ==> final(self)@.votes == old(self)@.votes.push(
                (VoteView { proposal_id, voter: voter@, vote, weight: None }),
            ),
            r is Err ==> final(self)@.votes == old(self)@.votes,
    {
        if self.find_proposal(proposal_id).is_none() {
            return Err(GovernanceError::NotFound);
        }
        if self.has_voted(proposal_id, &voter) {
            return Err(GovernanceError::AlreadyVoted);
        }
        let record = VoteRecord { proposal_id, voter, vote, weight: None };
        let ghost old_view = self@;
        self.votes.push(record);
        proof {
            assert(self@.votes =~= old_view.votes.push(record@));
            assert(self@.proposals =~= old_view.proposals);
            let ps = old_view.proposals;
            assert(ps[index_of(ps, proposal_id)].id == proposal_id);
            assert forall|i: int| 0 <= i < ps.len() implies (#[trigger] ps[i]).yes == tally(
                self@.votes,
                ps[i].id,
                true,
            ) && ps[i].no == tally(self@.votes, ps[i].id, false) by {
                lemma_tally_push(old_view.votes, record@, ps[i].id, true);
                lemma_tally_push(old_view.votes, record@, ps[i].id, false);
            }
        }
        Ok(())
    }

    /// Counts the weight of the address's recorded, not yet weighted vote on
    /// the proposal: the record keeps the weight and the chosen tally grows by
    /// it. Returns false, changing nothing, when there is no such vote.
    pub fn add_vote_weight(&mut self, proposal_id: u64, voter: &String, weight: BigNat) -> (r:
        bool)
        requires
            old(self).wf(),
        ensures
            final(self).wf(),
            r == has_pending_vote(old(self)@.votes, proposal_id, voter@),
            r ==> final(self)@ == counted(old(self)@, proposal_id, voter@, weight@),
            !r ==> final(self)@ == old(self)@,
    {
        let ghost old_view = self@;
        let k = match self.find_pending_vote(proposal_id, voter) {
            Some(k) => k,
            None => return false,
        };
        proof {
            let vs = old_view.votes;
            assert(vs[k as int] == self.votes@[k as int]@);
            assert(vs[k as int].proposal_id == proposal_id && vs[k as int].voter == voter@
                && vs[k as int].weight is None);
            let c = pending_index(vs, proposal_id, voter@);
            assert(vs[c].proposal_id == proposal_id && vs[c].voter == voter@);
            if c < k {
                assert(!(vs[c].proposal_id == vs[k as int].proposal_id && vs[c].voter == vs[k as int].voter));
            } else if c > k {
                assert(!(vs[k as int].proposal_id == vs[c].proposal_id && vs[k as int].voter == vs[c].voter));
            }
        }
        let vote = self.votes[k].vote;
        let added = weight.copy();
        self.votes[k].weight = Some(weight);
        let ghost mid_view = self@;
        proof {
            assert(mid_view.votes =~= old_view.votes.update(
                k as int,
                VoteView { weight: Some(added@), ..old_view.votes[k as int] },
            ));
            assert(mid_view.proposals =~= old_view.proposals);
        }
        match self.find_proposal_unchecked(proposal_id) {
            Some(i) => {
                if vote {
                    let total = self.proposals[i].yes_votes.add(&added);
                    self.proposals[i].yes_votes = total;
                } else {
                    let total = self.proposals[i].no_votes.add(&added);
                    self.proposals[i].no_votes = total;
                }
            },
            None => {},
        }
        proof {
            let ps = old_view.proposals;
            let vs = old_view.votes;
            let nv = VoteView { weight: Some(added@), ..vs[k as int] };
            assert forall|i: int| 0 <= i < ps.len() implies #[trigger] self@.proposals[i] == (if ps[i].id == proposal_id {
                ProposalView {
                    yes: ps[i].yes + (if vote { added@ } else { 0 }),
                    no: ps[i].no + (if vote { 0 } else { added@ }),
                    ..ps[i]
                }
            } else {
                ps[i]
            }) by {}
            assert(self@.proposals =~= counted(old_view, proposal_id, voter@, added@).proposals);
            assert(self@.votes =~= counted(old_view, proposal_id, voter@, added@).votes);
            assert forall|i: int| 0 <= i < ps.len() implies (#[trigger] self@.proposals[i]).yes
                == tally(self@.votes, self@.proposals[i].id, true) && self@.proposals[i].no
                == tally(self@.votes, self@.proposals[i].id, false) by {
                lemma_tally_update(vs, k as int, nv, ps[i].id, true);
                lemma_tally_update(vs, k as int, nv, ps[i].id, false);
            }
        }
        true
    }

    /// Claims the proposal's execution: it becomes executed and closed before
    /// any outside work starts, so a second claim is refused. On success,
    /// returns the summary that the execution transaction carries.
    pub fn claim_execution(&mut self, proposal_id: u64, canister_id: &str) -> (r: Result<
        String,
        GovernanceError,
    >)
        requires
            old(self).wf(),
        ensures
            final(self).wf(),
            final(self)@.votes == old(self)@.votes,
            final(self)@.last_id == old(self)@.last_id,
            r matches Ok(summary) ==> claim_outcome(old(self)@.proposals, proposal_id) == Ok::<
                (),
                GovernanceError,
            >(()) && final(self)@.proposals == executed(old(self)@.proposals, proposal_id)
                && summary@ == summary_text(
                canister_id@,
                proposal_id,
                yes_percentage(
                    old(self)@.proposals[index_of(old(self)@.proposals, proposal_id)].yes,
                    old(self)@.proposals[index_of(old(self)@.proposals, proposal_id)].no,
                ),
            ),
            r matches Err(e) ==> claim_outcome(old(self)@.proposals, proposal_id) == Err::<
                (),
                GovernanceError,
            >(e) && final(self)@ == old(self)@,
    {
        let i = match self.find_proposal(proposal_id) {
            Some(i) => i,
            None => return Err(GovernanceError::NotFound),
        };
        if self.proposals[i].is_executed {
            return Err(GovernanceError::AlreadyExecuted);
        }
        let ghost old_view = self@;
        self.proposals[i].is_executed = true;
        self.proposals[i].is_open = false;
        proof {
            assert(self@.proposals =~= executed(old_view.proposals, proposal_id));
            assert(self@.votes =~= old_view.votes);
        }
        Ok(
            execution_summary(
                canister_id,
                proposal_id,
                &self.proposals[i].yes_votes,
                &self.proposals[i].no_votes,
            ),
        )
    }

    /// Keeps the transaction id that the proposal's execution produced. It is
    /// set once: returns false, changing nothing, when no proposal has the
    /// id, when it has not been executed, or when it has a transaction id.
    pub fn record_transaction_hash(&mut self, proposal_id: u64, tx_hash: String) -> (r: bool)
        requires
            old(self).wf(),
        ensures
            final(self).wf(),
            r == hash_recordable(old(self)@.proposals, proposal_id),
            r ==> final(self)@ == (StoreModel {
                proposals: old(self)@.proposals.update(
                    index_of(old(self)@.proposals, proposal_id),
                    (ProposalView {
                        tx_hash: Some(tx_hash@),
                        ..old(self)@.proposals[index_of(old(self)@.proposals, proposal_id)]
                    }),
                ),
                ..old(self)@
            }),
            !r ==> final(self)@ == old(self)@,
    {
        let i = match self.find_proposal(proposal_id) {
            Some(i) => i,
            None => return false,
        };
        proof {
            assert(self@.proposals[i as int] == self.proposals@[i as int]@);
        }
        if !self.proposals[i].is_executed || self.proposals[i].eth_transaction_hash.is_some() {
            return false;
        }
        let ghost old_view = self@;
        self.proposals[i].eth_transaction_hash = Some(tx_hash);
        proof {
            assert(self@.proposals =~= old_view.proposals.update(
                i as int,
                ProposalView { tx_hash: Some(tx_hash@), ..old_view.proposals[i as int] },
            ));
            assert(self@.votes =~= old_view.votes);
        }
        true
    }

    /// Closes every open proposal whose end time is before `now`, and
    /// returns their ids in order. Nothing is executed here.
    pub fn close_expired_proposals(&mut self, now: u64) -> (r: Vec<u64>)
        requires
            old(self).wf(),
        ensures
            final(self).wf(),
            final(self)@.proposals == swept(old(self)@.proposals, now),
            final(self)@.votes == old(self)@.votes,
            final(self)@.last_id == old(self)@.last_id,
            r@ == expired_ids(old(self)@.proposals, now),
    {
        let ghost old_view = self@;
        let mut ids: Vec<u64> = Vec::new();
        let mut i: usize = 0;
        while i < self.proposals.len()
            invariant
                0 <= i <= self.proposals@.len(),
                self.proposals@.len() == old_view.proposals.len(),
                self@.votes == old_view.votes,
                self@.last_id == old_view.last_id,
                store_wf(old_view),
                forall|j: int| 0 <= j < i ==> #[trigger] self@.proposals[j] == closed_at(old_view.proposals[j], now),
                forall|j: int| i <= j < self.proposals@.len() ==> #[trigger] self@.proposals[j] == old_view.proposals[j],
                ids@ == expired_ids(old_view.proposals.take(i as int), now),
            decreases self.proposals@.len() - i,
        {
            let ghost before = self@;
            assert(old_view.proposals.take(i + 1).drop_last() =~= old_view.proposals.take(i as int));
            assert(self@.proposals[i as int] == self.proposals@[i as int]@);
            if self.proposals[i].is_open && self.proposals[i].proposal_end_timestamp < now {
                self.proposals[i].is_open = false;
                ids.push(self.proposals[i].id);
            }
            proof {
                assert(self@.votes =~= before.votes);
                assert forall|j: int| 0 <= j < self.proposals@.len() && j != i implies #[trigger] self@.proposals[j] == before.proposals[j] by {
                    assert(self@.proposals[j] == self.proposals@[j]@);
                    assert(before.proposals[j] == self.proposals@[j]@);
                }
            }
            i += 1;
        }
        proof {
            assert(self@.proposals =~= swept(old_view.proposals, now));
            assert(old_view.proposals.take(i as int) =~= old_view.proposals);
        }
        ids
    }

    /// Removes every proposal that is not open and returns how many went.
    /// Votes stay; no id is handed out again.
    pub fn clear_closed_proposals(&mut self) -> (r: usize)
        requires
            old(self).wf(),
        ensures
            final(self).wf(),
            final(self)@.proposals == kept(old(self)@.proposals, true, 0),
            final(self)@.votes == old(self)@.votes,
            final(self)@.last_id == old(self)@.last_id,
            r == old(self)@.proposals.len() - final(self)@.proposals.len(),
    {
        let before = self.proposals.len();
        proof {
            lemma_kept_len(self@.proposals, true, 0);
        }
        self.retain_proposals(true, 0);
        before - self.proposals.len()
    }

    /// Removes the proposal with the id. Votes stay; the id is not handed out
    /// again.
    pub fn clear_proposal_by_id(&mut self, proposal_id: u64) -> (r: Result<String, String>)
        requires
            old(self).wf(),
        ensures
            final(self).wf(),
            final(self)@.proposals == kept(old(self)@.proposals, false, proposal_id),
            final(self)@.votes == old(self)@.votes,
            final(self)@.last_id == old(self)@.last_id,
            r is Ok <==> holds_id(old(self)@.proposals, proposal_id),
            r matches Ok(m) ==> m@ == "Proposal "@ + decimal_text(proposal_id as nat)
                + " has been successfully cleared."@,
            r matches Err(m) ==> m@ == "No proposal found with ID "@ + decimal_text(
                proposal_id as nat,
            ) + " or it was not cleared."@,
    {
        let before = self.proposals.len();
        proof {
            lemma_kept_len(self@.proposals, false, proposal_id);
        }
        self.retain_proposals(false, proposal_id);
        let id_text = BigNat::from_u128(proposal_id as u128).to_decimal();
        if before > self.proposals.len() {
            let mut m = String::from_str("Proposal ");
            m.append(id_text.as_str());
            m.append(" has been successfully cleared.");
            Ok(m)
        } else {
            let mut m = String::from_str("No proposal found with ID ");
            m.append(id_text.as_str());
            m.append(" or it was not cleared.");
            Err(m)
        }
    }

    /// Keeps, in order, the proposals that `keeps` admits.
    fn retain_proposals(&mut self, open_only: bool, drop_id: u64)
        requires
            old(self).wf(),
        ensures
            final(self).wf(),
            final(self)@.proposals == kept(old(self)@.proposals, open_only, drop_id),
            final(self)@.votes == old(self)@.votes,
            final(self)@.last_id == old(self)@.last_id,
    {
        let ghost old_ps = self@.proposals;
        let ghost old_view = self@;
        let mut i: usize = 0;
        let ghost mut j: int = 0;
        while i < self.proposals.len()
            invariant
                self.wf(),
                0 <= j <= old_ps.len(),
                self@.proposals == kept(old_ps.take(j), open_only, drop_id) + old_ps.skip(j),
                i == kept(old_ps.take(j), open_only, drop_id).len(),
                self@.votes == old_view.votes,
                self@.last_id == old_view.last_id,
            decreases self.proposals@.len() - i,
        {
            let ghost before = self@;
            proof {
                lemma_kept_len(old_ps.take(j), open_only, drop_id);
                assert(old_ps.take(j + 1).drop_last() =~= old_ps.take(j));
                assert(before.proposals[i as int] == old_ps[j]);
                assert(self@.proposals[i as int] == self.proposals@[i as int]@);
            }
            let keep = if open_only {
                self.proposals[i].is_open
            } else {
                self.proposals[i].id != drop_id
            };
            if keep {
                i += 1;
                proof {
                    assert(kept(old_ps.take(j + 1), open_only, drop_id) =~= kept(old_ps.take(j), open_only, drop_id).push(old_ps[j]));
                    assert(self@.proposals =~= kept(old_ps.take(j + 1), open_only, drop_id) + old_ps.skip(j + 1));
                    j = j + 1;
                }
            } else {
                self.proposals.remove(i);
                proof {
                    assert(self@.proposals =~= before.proposals.remove(i as int));
                    assert(self@.votes =~= before.votes);
                    lemma_wf_remove(before, i as int);
                    assert(kept(old_ps.take(j + 1), open_only, drop_id) =~= kept(old_ps.take(j), open_only, drop_id));
                    assert(self@.proposals =~= kept(old_ps.take(j + 1), open_only, drop_id) + old_ps.skip(j + 1));
                    j = j + 1;
                }
            }
        }
        proof {
            lemma_kept_len(old_ps.take(j), open_only, drop_id);
            assert(j == old_ps.len());
            assert(old_ps.take(j) =~= old_ps);
            assert(self@.proposals =~= kept(old_ps, open_only, drop_id));
        }
    }

    /// The position of the address's vote on the proposal whose weight has not
    /// been counted.
    fn find_pending_vote(&self, proposal_id: u64, voter: &String) -> (r: Option<usize>)
        ensures
            r matches Some(k) ==> k < self@.votes.len() && self@.votes[k as int].proposal_id
                == proposal_id && self@.votes[k as int].voter == voter@
                && self@.votes[k as int].weight is None,
            r is None ==> !has_pending_vote(self@.votes, proposal_id, voter@),
    {
        let mut k: usize = 0;
        while k < self.votes.len()
            invariant
                0 <= k <= self.votes@.len(),
                forall|l: int|
                    0 <= l < k ==> !(#[trigger] self@.votes[l].proposal_id == proposal_id
                        && self@.votes[l].voter == voter@ && self@.votes[l].weight is None),
            decreases self.votes@.len() - k,
        {
            proof {
                assert(self@.votes[k as int] == self.votes@[k as int]@);
            }
            if self.votes[k].proposal_id == proposal_id && self.votes[k].voter == *voter
                && self.votes[k].weight.is_none() {
                return Some(k);
            }
            k += 1;
        }
        None
    }

    /// The position of the proposal with the id, for a store whose tallies
    /// may be mid-update.
    fn find_proposal_unchecked(&self, proposal_id: u64) -> (r: Option<usize>)
        requires
            forall|i: int, j: int|
                0 <= i < j < self@.proposals.len() ==> self@.proposals[i].id
                    < self@.proposals[j].id,
        ensures
            r matches Some(i) ==> i < self@.proposals.len() && self@.proposals[i as int].id
                == proposal_id,
            r is None ==> !holds_id(self@.proposals, proposal_id),
    {
        let mut i: usize = 0;
        while i < self.proposals.len()
            invariant
                0 <= i <= self.proposals@.len(),
                forall|j: int| 0 <= j < i ==> self.proposals@[j].id != proposal_id,
            decreases self.proposals@.len() - i,
        {
            if self.proposals[i].id == proposal_id {
                proof {
                    assert(self@.proposals[i as int] == self.proposals@[i as int]@);
                }
                return Some(i);
            }
            i += 1;
        }
        proof {
            let ps = self@.proposals;
            assert forall|j: int| 0 <= j < ps.len() implies ps[j].id != proposal_id by {
                assert(ps[j] == self.proposals@[j]@);
            }
        }
        None
    }
}

/// The outcome of a vote's opening check: refused when no proposal has the
/// id, or when it is closed or past its end time; else its snapshot block.
pub open spec fn vote_gate(ps: Seq<ProposalView>, id: u64, now: u64) -> Result<
    Seq<char>,
    GovernanceError,
> {
    if !holds_id(ps, id) {
        Err(GovernanceError::NotFound)
    } else if !ps[index_of(ps, id)].is_open || ps[index_of(ps, id)].end < now {
        Err(GovernanceError::Closed)
    } else {
        Ok(ps[index_of(ps, id)].block_height)
    }
}

/// The outcome of recording a vote: refused when no proposal has the id or
/// the address has voted on it already.
pub open spec fn record_outcome(s: StoreModel, id: u64, voter: Seq<char>) -> Result<
    (),
    GovernanceError,
> {
    if !holds_id(s.proposals, id) {
        Err(GovernanceError::NotFound)
    } else if has_vote(s.votes, id, voter) {
        Err(GovernanceError::AlreadyVoted)
    } else {
        Ok(())
    }
}


/// Whether the address has a recorded vote on the proposal whose weight has
/// not been counted yet.
pub open spec fn has_pending_vote(votes: Seq<VoteView>, id: u64, voter: Seq<char>) -> bool {
    exists|k: int|
        0 <= k < votes.len() && votes[k].proposal_id == id && votes[k].voter == voter
            && votes[k].weight is None
}

/// The position of the address's vote on the proposal.
pub open spec fn pending_index(votes: Seq<VoteView>, id: u64, voter: Seq<char>) -> int {
    choose|k: int|
        0 <= k < votes.len() && votes[k].proposal_id == id && votes[k].voter == voter
            && votes[k].weight is None
}

/// The store after the weight `w` of the address's pending vote on proposal
/// `id` is counted: the record keeps `w` and the chosen tally grows by `w`.
pub open spec fn counted(s: StoreModel, id: u64, voter: Seq<char>, w: nat) -> StoreModel {
    let k = pending_index(s.votes, id, voter);
    let v = s.votes[k];
    StoreModel {
        proposals: Seq::new(
            s.proposals.len(),
            |i: int|
                if s.proposals[i].id == id {
                    ProposalView {
                        yes: s.proposals[i].yes + (if v.vote { w } else { 0 }),
                        no: s.proposals[i].no + (if v.vote { 0 } else { w }),
                        ..s.proposals[i]
                    }
                } else {
                    s.proposals[i]
                },
        ),
        votes: s.votes.update(k, VoteView { weight: Some(w), ..v }),
        last_id: s.last_id,
    }
}


/// The share of the yes weight in the cast weight, in whole percent rounded
/// down; zero when no weight has been cast.
pub open spec fn yes_percentage(yes: nat, no: nat) -> nat {
    if yes + no == 0 {
        0
    } else {
        yes * 100 / (yes + no)
    }
}

/// The summary that an execution transaction carries.
pub open spec fn summary_text(canister: Seq<char>, id: u64, percentage: nat) -> Seq<char> {
    canister + ": Proposal "@ + decimal_text(id as nat) + ": "@ + decimal_text(percentage)
        + "% yes"@
}

/// The yes share of the cast weight in whole percent; never divides by zero.
pub fn yes_percentage_of(yes: &BigNat, no: &BigNat) -> (r: BigNat)
    ensures
        r@ == yes_percentage(yes@, no@),
{
    let total = yes.add(no);
    if total.is_zero() {
        BigNat::zero()
    } else {
        yes.mul(&BigNat::from_u128(100)).div(&total)
    }
}

/// `<canister>: Proposal <id>: <percentage>% yes`.
pub fn execution_summary(canister_id: &str, proposal_id: u64, yes: &BigNat, no: &BigNat) -> (r:
    String)
    ensures
        r@ == summary_text(canister_id@, proposal_id, yes_percentage(yes@, no@)),
{
    let percentage = yes_percentage_of(yes, no);
    let mut text = String::from_str(canister_id);
    text.append(": Proposal ");
    text.append(BigNat::from_u128(proposal_id as u128).to_decimal().as_str());
    text.append(": ");
    text.append(percentage.to_decimal().as_str());
    text.append("% yes");
    text
}

/// Whether a transaction id may be kept for the proposal with the id: it
/// exists, has been executed, and has none yet.
pub open spec fn hash_recordable(ps: Seq<ProposalView>, id: u64) -> bool {
    holds_id(ps, id) && ps[index_of(ps, id)].is_executed && ps[index_of(ps, id)].tx_hash is None
}

/// The outcome of claiming execution: refused when no proposal has the id
/// or it has been executed already.
pub open spec fn claim_outcome(ps: Seq<ProposalView>, id: u64) -> Result<(), GovernanceError> {
    if !holds_id(ps, id) {
        Err(GovernanceError::NotFound)
    } else if ps[index_of(ps, id)].is_executed {
        Err(GovernanceError::AlreadyExecuted)
    } else {
        Ok(())
    }
}

/// The proposals after the one with the id is claimed for execution.
pub open spec fn executed(ps: Seq<ProposalView>, id: u64) -> Seq<ProposalView> {
    ps.update(
        index_of(ps, id),
        ProposalView { is_executed: true, is_open: false, ..ps[index_of(ps, id)] },
    )
}

/// A proposal after the sweep at time `now`.
pub open spec fn closed_at(p: ProposalView, now: u64) -> ProposalView {
    if p.is_open && p.end < now {
        ProposalView { is_open: false, ..p }
    } else {
        p
    }
}

/// The proposals after the sweep at time `now`.
pub open spec fn swept(ps: Seq<ProposalView>, now: u64) -> Seq<ProposalView> {
    Seq::new(ps.len(), |i: int| closed_at(ps[i], now))
}

/// The ids, in order, of the open proposals whose end time is before `now`.
pub open spec fn expired_ids(ps: Seq<ProposalView>, now: u64) -> Seq<u64>
    decreases ps.len(),
{
    if ps.len() == 0 {
        seq![]
    } else if ps.last().is_open && ps.last().end < now {
        expired_ids(ps.drop_last(), now).push(ps.last().id)
    } else {
        expired_ids(ps.drop_last(), now)
    }
}


/// Whether a clean-up keeps the proposal: only open ones when `open_only`,
/// else all but the one with `drop_id`.
pub open spec fn keeps(open_only: bool, drop_id: u64, p: ProposalView) -> bool {
    if open_only {
        p.is_open
    } else {
        p.id != drop_id
    }
}

/// The proposals that a clean-up keeps, in order.
pub open spec fn kept(ps: Seq<ProposalView>, open_only: bool, drop_id: u64) -> Seq<ProposalView>
    decreases ps.len(),
{
    if ps.len() == 0 {
        seq![]
    } else if keeps(open_only, drop_id, ps.last()) {
        kept(ps.drop_last(), open_only, drop_id).push(ps.last())
    } else {
        kept(ps.drop_last(), open_only, drop_id)
    }
}

/// A clean-up keeps at most what there was, and drops something exactly
/// when some proposal is not kept.
proof fn lemma_kept_len(ps: Seq<ProposalView>, open_only: bool, drop_id: u64)
    ensures
        kept(ps, open_only, drop_id).len() <= ps.len(),
        kept(ps, open_only, drop_id).len() < ps.len() <==> exists|i: int|
            0 <= i < ps.len() && !keeps(open_only, drop_id, #[trigger] ps[i]),
    decreases ps.len(),
{
    if ps.len() > 0 {
        let d = ps.drop_last();
        lemma_kept_len(d, open_only, drop_id);
        if exists|i: int| 0 <= i < d.len() && !keeps(open_only, drop_id, #[trigger] d[i]) {
            let i = choose|i: int| 0 <= i < d.len() && !keeps(open_only, drop_id, #[trigger] d[i]);
            assert(ps[i] == d[i]);
        }
        if exists|i: int| 0 <= i < ps.len() && !keeps(open_only, drop_id, #[trigger] ps[i]) {
            let i = choose|i: int| 0 <= i < ps.len() && !keeps(open_only, drop_id, #[trigger] ps[i]);
            if i < d.len() {
                assert(d[i] == ps[i]);
            }
        }
    }
}

/// Removing a proposal keeps the store's invariant.
proof fn lemma_wf_remove(s: StoreModel, i: int)
    requires
        store_wf(s),
        0 <= i < s.proposals.len(),
    ensures
        store_wf(StoreModel { proposals: s.proposals.remove(i), ..s }),
{
    let r = s.proposals.remove(i);
    assert forall|a: int| 0 <= a < r.len() implies #[trigger] r[a] == s.proposals[if a < i { a } else { a + 1 }] by {}
    assert forall|a: int, b: int| 0 <= a < b < r.len() implies r[a].id < r[b].id by {
        assert(r[a] == s.proposals[if a < i { a } else { a + 1 }]);
        assert(r[b] == s.proposals[if b < i { b } else { b + 1 }]);
    }
}


/// The store after a successful `record_vote`.
pub open spec fn with_vote(s: StoreModel, id: u64, voter: Seq<char>, vote: bool) -> StoreModel {
    StoreModel {
        votes: s.votes.push(VoteView { proposal_id: id, voter, vote, weight: None }),
        ..s
    }
}

/// One vote per address and proposal: once an address's vote on a proposal
/// is recorded, recording another from the same address is refused as
/// already voted, and counting any vote's weight keeps the record.
pub proof fn lemma_one_vote_per_address(
    s: StoreModel,
    id: u64,
    voter: Seq<char>,
    vote: bool,
    other_id: u64,
    other_voter: Seq<char>,
    w: nat,
)
    requires
        store_wf(s),
        record_outcome(s, id, voter) == Ok::<(), GovernanceError>(()),
    ensures
        record_outcome(with_vote(s, id, voter, vote), id, voter) == Err::<(), GovernanceError>(
            GovernanceError::AlreadyVoted,
        ),
        has_pending_vote(with_vote(s, id, voter, vote).votes, other_id, other_voter) ==> has_vote(
            counted(with_vote(s, id, voter, vote), other_id, other_voter, w).votes,
            id,
            voter,
        ),
{
    let s2 = with_vote(s, id, voter, vote);
    let k = s.votes.len() as int;
    assert(s2.votes[k].proposal_id == id && s2.votes[k].voter == voter);
    if has_pending_vote(s2.votes, other_id, other_voter) {
        let c = pending_index(s2.votes, other_id, other_voter);
        let v2 = counted(s2, other_id, other_voter, w).votes;
        assert(v2[k].proposal_id == id && v2[k].voter == voter);
    }
}

/// Each tally is exactly the summed weight of the counted votes for its
/// choice, so the cast weight is the sum over all counted votes on the
/// proposal.
pub proof fn lemma_tallies_are_vote_sums(s: StoreModel, i: int)
    requires
        store_wf(s),
        0 <= i < s.proposals.len(),
    ensures
        s.proposals[i].yes == tally(s.votes, s.proposals[i].id, true),
        s.proposals[i].no == tally(s.votes, s.proposals[i].id, false),
        s.proposals[i].yes + s.proposals[i].no == tally(s.votes, s.proposals[i].id, true) + tally(
            s.votes,
            s.proposals[i].id,
            false,
        ),
{
}

/// Counting a vote's weight never lowers a tally: the cast weight on the
/// voted proposal grows by exactly that weight, and on the others stays.
pub proof fn lemma_cast_weight_grows(s: StoreModel, id: u64, voter: Seq<char>, w: nat, i: int)
    requires
        store_wf(s),
        has_pending_vote(s.votes, id, voter),
        0 <= i < s.proposals.len(),
    ensures
        counted(s, id, voter, w).proposals[i].yes >= s.proposals[i].yes,
        counted(s, id, voter, w).proposals[i].no >= s.proposals[i].no,
        counted(s, id, voter, w).proposals[i].yes + counted(s, id, voter, w).proposals[i].no
            == s.proposals[i].yes + s.proposals[i].no + (if s.proposals[i].id == id {
            w
        } else {
            0
        }),
{
}

/// Recording a vote, claiming execution, keeping a transaction id and the
/// sweep leave every tally as it was.
pub proof fn lemma_other_transitions_keep_tallies(
    s: StoreModel,
    id: u64,
    voter: Seq<char>,
    vote: bool,
    now: u64,
    i: int,
)
    requires
        0 <= i < s.proposals.len(),
    ensures
        with_vote(s, id, voter, vote).proposals[i].yes == s.proposals[i].yes,
        with_vote(s, id, voter, vote).proposals[i].no == s.proposals[i].no,
        holds_id(s.proposals, id) ==> executed(s.proposals, id)[i].yes == s.proposals[i].yes
            && executed(s.proposals, id)[i].no == s.proposals[i].no,
        swept(s.proposals, now)[i].yes == s.proposals[i].yes,
        swept(s.proposals, now)[i].no == s.proposals[i].no,
{
}

/// Execution is claimed at most once: after a successful claim, claiming
/// the same proposal again is refused as already executed, and the sweep
/// does not undo the claim.
pub proof fn lemma_execute_at_most_once(s: StoreModel, id: u64, now: u64)
    requires
        store_wf(s),
        claim_outcome(s.proposals, id) == Ok::<(), GovernanceError>(()),
    ensures
        claim_outcome(executed(s.proposals, id), id) == Err::<(), GovernanceError>(
            GovernanceError::AlreadyExecuted,
        ),
        claim_outcome(swept(executed(s.proposals, id), now), id) == Err::<(), GovernanceError>(
            GovernanceError::AlreadyExecuted,
        ),
{
    let ps = s.proposals;
    let k = index_of(ps, id);
    assert(ps[k].id == id);
    let e = executed(ps, id);
    assert(e[k].id == id);
    let k2 = index_of(e, id);
    assert(e[k2].id == id);
    if k2 != k {
        assert(ps[k2].id == id);
        if k2 < k {
            assert(ps[k2].id < ps[k].id);
        } else {
            assert(ps[k].id < ps[k2].id);
        }
    }
    let w = swept(e, now);
    assert(w[k].id == id);
    let k3 = index_of(w, id);
    assert(w[k3].id == id);
    if k3 != k {
        assert(ps[k3].id == id);
        if k3 < k {
            assert(ps[k3].id < ps[k].id);
        } else {
            assert(ps[k].id < ps[k3].id);
        }
    }
}

/// A proposal past its end time refuses votes as closed, whether or not the
/// sweep has closed it yet.
pub proof fn lemma_expired_proposal_refuses_votes(s: StoreModel, i: int, now: u64)
    requires
        store_wf(s),
        0 <= i < s.proposals.len(),
        s.proposals[i].end < now,
    ensures
        vote_gate(s.proposals, s.proposals[i].id, now) == Err::<Seq<char>, GovernanceError>(
            GovernanceError::Closed,
        ),
{
    let ps = s.proposals;
    let id = ps[i].id;
    let k = index_of(ps, id);
    assert(ps[k].id == id);
    if k != i {
        if k < i {
            assert(ps[k].id < ps[i].id);
        } else {
            assert(ps[i].id < ps[k].id);
        }
    }
}


/// The text that a refused vote reports.
pub open spec fn vote_error_text(e: GovernanceError) -> Seq<char> {
    match e {
        GovernanceError::NotFound => "Proposal not found"@,
        GovernanceError::Closed => "Proposal is already closed"@,
        GovernanceError::AlreadyVoted => "You have already voted on this proposal"@,
        GovernanceError::AlreadyExecuted => "Proposal already executed"@,
    }
}

/// The text that a refused execution of the proposal reports.
pub open spec fn execute_error_text(e: GovernanceError, id: u64) -> Seq<char> {
    match e {
        GovernanceError::AlreadyExecuted => "Proposal "@ + decimal_text(id as nat)
            + " already executed"@,
        GovernanceError::Closed => "Proposal "@ + decimal_text(id as nat) + " is closed"@,
        GovernanceError::AlreadyVoted => "Proposal "@ + decimal_text(id as nat)
            + " has a duplicate vote"@,
        GovernanceError::NotFound => "Proposal "@ + decimal_text(id as nat) + " not found."@,
    }
}

impl GovernanceError {
    /// The text that a refused vote reports.
    pub fn vote_message(&self) -> (r: String)
        ensures
            r@ == vote_error_text(*self),
    {
        match self {
            GovernanceError::NotFound => String::from_str("Proposal not found"),
            GovernanceError::Closed => String::from_str("Proposal is already closed"),
            GovernanceError::AlreadyVoted => String::from_str(
                "You have already voted on this proposal",
            ),
            GovernanceError::AlreadyExecuted => String::from_str("Proposal already executed"),
        }
    }

    /// The text that a refused execution of the proposal reports.
    pub fn execute_message(&self, proposal_id: u64) -> (r: String)
        ensures
            r@ == execute_error_text(*self, proposal_id),
    {
        let mut m = String::from_str("Proposal ");
        m.append(BigNat::from_u128(proposal_id as u128).to_decimal().as_str());
        match self {
            GovernanceError::AlreadyExecuted => m.append(" already executed"),
            GovernanceError::Closed => m.append(" is closed"),
            GovernanceError::AlreadyVoted => m.append(" has a duplicate vote"),
            GovernanceError::NotFound => m.append(" not found."),
        }
        m
    }
}


/// Two proposal sequences with the same ids at each position, ascending in
/// the first, find a present id at the same position.
proof fn lemma_index_of_same_ids(ps: Seq<ProposalView>, qs: Seq<ProposalView>, id: u64)
    requires
        ps.len() == qs.len(),
        forall|i: int| 0 <= i < ps.len() ==> #[trigger] ps[i].id == qs[i].id,
        forall|i: int, j: int| 0 <= i < j < ps.len() ==> ps[i].id < ps[j].id,
        holds_id(ps, id),
    ensures
        holds_id(qs, id),
        index_of(qs, id) == index_of(ps, id),
        0 <= index_of(ps, id) < ps.len(),
        ps[index_of(ps, id)].id == id,
{
    let k = index_of(ps, id);
    assert(ps[k].id == id);
    assert(qs[k].id == id);
    let k2 = index_of(qs, id);
    assert(qs[k2].id == id);
    assert(ps[k2].id == id);
    if k2 < k {
        assert(ps[k2].id < ps[k].id);
    } else if k < k2 {
        assert(ps[k].id < ps[k2].id);
    }
}

/// The proposals after a transaction id is kept for the one with the id.
pub open spec fn with_hash(ps: Seq<ProposalView>, id: u64, tx: Seq<char>) -> Seq<ProposalView> {
    ps.update(index_of(ps, id), ProposalView { tx_hash: Some(tx), ..ps[index_of(ps, id)] })
}

/// Once an address has voted on a proposal, it never votes there again:
/// recording its vote is refused, and every transition that touches votes
/// (recording any vote, counting any weight) keeps its record; the others
/// leave the votes as they are.
pub proof fn lemma_voted_address_stays_refused(
    s: StoreModel,
    id: u64,
    voter: Seq<char>,
    other_id: u64,
    other_voter: Seq<char>,
    other_vote: bool,
    w: nat,
)
    requires
        has_vote(s.votes, id, voter),
    ensures
        record_outcome(s, id, voter) != Ok::<(), GovernanceError>(()),
        holds_id(s.proposals, id) ==> record_outcome(s, id, voter) == Err::<(), GovernanceError>(
            GovernanceError::AlreadyVoted,
        ),
        has_vote(with_vote(s, other_id, other_voter, other_vote).votes, id, voter),
        has_pending_vote(s.votes, other_id, other_voter) ==> has_vote(
            counted(s, other_id, other_voter, w).votes,
            id,
            voter,
        ),
{
    let k = choose|k: int|
        0 <= k < s.votes.len() && s.votes[k].proposal_id == id && s.votes[k].voter == voter;
    let v1 = with_vote(s, other_id, other_voter, other_vote).votes;
    assert(v1[k] == s.votes[k]);
    if has_pending_vote(s.votes, other_id, other_voter) {
        let v2 = counted(s, other_id, other_voter, w).votes;
        assert(v2[k].proposal_id == id && v2[k].voter == voter);
    }
}

/// Once a proposal is executed, every later claim is refused as already
/// executed: the sweep, recording or counting a vote, and keeping a
/// transaction id all leave it executed.
pub proof fn lemma_executed_proposal_stays_refused(
    s: StoreModel,
    id: u64,
    now: u64,
    voter: Seq<char>,
    vote_id: u64,
    vote: bool,
    w: nat,
    hash_id: u64,
    tx: Seq<char>,
)
    requires
        store_wf(s),
        holds_id(s.proposals, id),
        s.proposals[index_of(s.proposals, id)].is_executed,
    ensures
        claim_outcome(s.proposals, id) == Err::<(), GovernanceError>(
            GovernanceError::AlreadyExecuted,
        ),
        claim_outcome(swept(s.proposals, now), id) == Err::<(), GovernanceError>(
            GovernanceError::AlreadyExecuted,
        ),
        claim_outcome(with_vote(s, vote_id, voter, vote).proposals, id) == Err::<
            (),
            GovernanceError,
        >(GovernanceError::AlreadyExecuted),
        has_pending_vote(s.votes, vote_id, voter) ==> claim_outcome(
            counted(s, vote_id, voter, w).proposals,
            id,
        ) == Err::<(), GovernanceError>(GovernanceError::AlreadyExecuted),
        holds_id(s.proposals, hash_id) ==> claim_outcome(with_hash(s.proposals, hash_id, tx), id)
            == Err::<(), GovernanceError>(GovernanceError::AlreadyExecuted),
{
    let ps = s.proposals;
    let k = index_of(ps, id);
    lemma_index_of_same_ids(ps, ps, id);
    lemma_index_of_same_ids(ps, swept(ps, now), id);
    if has_pending_vote(s.votes, vote_id, voter) {
        let c = counted(s, vote_id, voter, w).proposals;
        assert forall|i: int| 0 <= i < ps.len() implies #[trigger] ps[i].id == c[i].id by {}
        lemma_index_of_same_ids(ps, c, id);
    }
    if holds_id(ps, hash_id) {
        let h = with_hash(ps, hash_id, tx);
        lemma_index_of_same_ids(ps, ps, hash_id);
        assert forall|i: int| 0 <= i < ps.len() implies #[trigger] ps[i].id == h[i].id by {}
        lemma_index_of_same_ids(ps, h, id);
        assert(h[k].is_executed);
    }
}

/// A proposal that is submitted with zero duration ends at its start, so a
/// vote at any later time is refused as closed, before any sweep.
pub proof fn lemma_zero_duration_refuses_votes(s: StoreModel, p: ProposalView, now: u64)
    requires
        store_wf(s),
        s.last_id < p.id,
        p.is_open,
        p.end == p.start,
        p.start < now,
    ensures
        vote_gate(s.proposals.push(p), p.id, now) == Err::<Seq<char>, GovernanceError>(
            GovernanceError::Closed,
        ),
{
    let ps = s.proposals.push(p);
    let n = s.proposals.len() as int;
    assert(ps[n].id == p.id);
    let k = index_of(ps, p.id);
    assert(ps[k].id == p.id);
    if k < n {
        assert(ps[k] == s.proposals[k]);
    }
}

/// A fresh proposal with one yes vote of weight `w` has yes tally `w` and
/// no tally zero.
pub proof fn lemma_single_yes_vote_tally(s: StoreModel, id: u64, voter: Seq<char>, w: nat)
    requires
        store_wf(s),
        record_outcome(s, id, voter) == Ok::<(), GovernanceError>(()),
        s.proposals[index_of(s.proposals, id)].yes == 0,
        s.proposals[index_of(s.proposals, id)].no == 0,
    ensures
        has_pending_vote(with_vote(s, id, voter, true).votes, id, voter),
        counted(with_vote(s, id, voter, true), id, voter, w).proposals[index_of(
            s.proposals,
            id,
        )].yes == w,
        counted(with_vote(s, id, voter, true), id, voter, w).proposals[index_of(
            s.proposals,
            id,
        )].no == 0,
{
    let s2 = with_vote(s, id, voter, true);
    let n = s.votes.len() as int;
    assert(s2.votes[n].proposal_id == id && s2.votes[n].voter == voter && s2.votes[n].weight
        is None);
    let c = pending_index(s2.votes, id, voter);
    assert(s2.votes[c].proposal_id == id && s2.votes[c].voter == voter);
    if c < n {
        assert(s2.votes[c] == s.votes[c]);
    }
    assert(c == n);
    let k = index_of(s.proposals, id);
    assert(s.proposals[k].id == id);
}

/// Claiming execution leaves the proposal executed and without a
/// transaction id; only a later successful broadcast may set one.
pub proof fn lemma_claimed_proposal_has_no_hash(s: StoreModel, id: u64)
    requires
        store_wf(s),
        claim_outcome(s.proposals, id) == Ok::<(), GovernanceError>(()),
    ensures
        executed(s.proposals, id)[index_of(s.proposals, id)].is_executed,
        executed(s.proposals, id)[index_of(s.proposals, id)].tx_hash is None,
{
    let k = index_of(s.proposals, id);
    assert(s.proposals[k].id == id);
}

} // verus!
