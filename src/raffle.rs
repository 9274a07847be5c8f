use std::collections::HashMap;
use vstd::prelude::*;

use crate::error::RaffleError;
use crate::types::{AccountId, Number, RaffleId};

verus! {

broadcast use vstd::std_specs::hash::group_hash_axioms;

/// Where the current raffle stands.
#[derive(Debug, Clone, Copy, PartialEq, Eq, Structural)]
pub enum Status {
    NotStarted,
    Ongoing,
    WaitingResults,
    WaitingWinners,
    Closed,
}

/// The raffle state machine: the current raffle, its status, and the results
/// and winners recorded for each raffle.
#[derive(Debug)]
pub struct Data {
    pub current_raffle_id: RaffleId,
    pub status: Status,
    pub results: HashMap<RaffleId, Vec<Number>>,
    pub winners: HashMap<RaffleId, Vec<AccountId>>,
}

impl Data {
    /// The invariant of the state machine: results and winners are only
    /// known for raffles that have started, winners only once results are,
    /// and the status of the current raffle says which of the two it has.
    pub open spec fn wf(self) -> bool {
        let id = self.current_raffle_id;
        &&& forall|k: RaffleId| #[trigger]
            self.results@.contains_key(k) ==> 1 <= k <= id
        &&& forall|k: RaffleId| #[trigger]
            self.winners@.contains_key(k) ==> self.results@.contains_key(k)
        &&& self.status == Status::NotStarted <==> id == 0
        &&& (self.status == Status::Ongoing || self.status == Status::WaitingResults)
            ==> !self.results@.contains_key(id)
        &&& self.status == Status::WaitingWinners ==> self.results@.contains_key(id)
            && !self.winners@.contains_key(id)
        &&& self.status == Status::Closed ==> self.winners@.contains_key(id)
    }

    /// A new raffle can start from these statuses.
    pub open spec fn can_start(self) -> bool {
        self.status == Status::NotStarted || self.status == Status::Closed
    }

    /// The state machine before any raffle.
    pub fn new() -> (r: Data)
        ensures
            r.wf(),
            r.current_raffle_id == 0,
            r.status == Status::NotStarted,
            r.results@.is_empty(),
            r.winners@.is_empty(),
    {
        Data {
            current_raffle_id: 0,
            status: Status::NotStarted,
            results: HashMap::new(),
            winners: HashMap::new(),
        }
    }

    /// Starts the next raffle: its id is the current one plus one, its status
    /// `Ongoing`.
    pub fn start_new_raffle(&mut self) -> (r: Result<RaffleId, RaffleError>)
        requires
            old(self).wf(),
        ensures
            final(self).wf(),
            r == start_outcome(*old(self)),
            r is Err ==> *final(self) == *old(self),
            r is Ok ==> *final(self) == (Data {
                current_raffle_id: (old(self).current_raffle_id + 1) as u32,
                status: Status::Ongoing,
                ..*old(self)
            }),
    {
        if self.status != Status::NotStarted && self.status != Status::Closed {
            return Err(RaffleError::IncorrectStatus);
        }
        let new_raffle_id = match self.current_raffle_id.checked_add(1) {
            Some(id) => id,
            None => return Err(RaffleError::AddOverFlow),
        };
        self.current_raffle_id = new_raffle_id;
        self.status = Status::Ongoing;
        Ok(new_raffle_id)
    }

    /// Closes the participation of the current raffle: it now waits for its
    /// results.
    pub fn stop_current_raffle(&mut self) -> (r: Result<(), RaffleError>)
        requires
            old(self).wf(),
        ensures
            final(self).wf(),
            old(self).status == Status::Ongoing ==> r is Ok && *final(self) == (Data {
                status: Status::WaitingResults,
                ..*old(self)
            }),
            old(self).status != Status::Ongoing ==> r == Err::<(), _>(RaffleError::IncorrectStatus)
                && *final(self) == *old(self),
    {
        if self.status != Status::Ongoing {
            return Err(RaffleError::IncorrectStatus);
        }
        self.status = Status::WaitingResults;
        Ok(())
    }

    pub fn get_current_raffle_id(&self) -> (r: RaffleId)
        ensures
            r == self.current_raffle_id,
    {
        self.current_raffle_id
    }

    pub fn get_current_status(&self) -> (r: Status)
        ensures
            r == self.status,
    {
        self.status
    }

    /// The results recorded for `raffle_id`, if any.
    pub fn get_results(&self, raffle_id: RaffleId) -> (r: Option<Vec<Number>>)
        ensures
            match r {
                Some(v) => self.results@.contains_key(raffle_id) && v@ == self.results@[raffle_id]@,
                None => !self.results@.contains_key(raffle_id),
            },
    {
        match self.results.get(&raffle_id) {
            Some(v) => Some(copy_numbers(v)),
            None => None,
        }
    }

    /// The winners recorded for `raffle_id`, if any.
    pub fn get_winners(&self, raffle_id: RaffleId) -> (r: Option<Vec<AccountId>>)
        ensures
            match r {
                Some(v) => self.winners@.contains_key(raffle_id) && v@ == self.winners@[raffle_id]@,
                None => !self.winners@.contains_key(raffle_id),
            },
    {
        match self.winners.get(&raffle_id) {
            Some(v) => Some(copy_accounts(v)),
            None => None,
        }
    }

    /// Whether results for `raffle_id` may be recorded now.
    pub fn check_results_allowed(&self, raffle_id: RaffleId) -> (r: Result<(), RaffleError>)
        ensures
            r == set_results_outcome(*self, raffle_id),
    {
        if self.current_raffle_id != raffle_id {
            return Err(RaffleError::IncorrectRaffle);
        }
        if self.results.contains_key(&raffle_id) {
            return Err(RaffleError::ExistingResults);
        }
        if self.status != Status::WaitingResults {
            return Err(RaffleError::IncorrectStatus);
        }
        Ok(())
    }

    /// Whether winners for `raffle_id` may be recorded now.
    pub fn check_winners_allowed(&self, raffle_id: RaffleId) -> (r: Result<(), RaffleError>)
        ensures
            r == set_winners_outcome(*self, raffle_id),
    {
        if self.current_raffle_id != raffle_id {
            return Err(RaffleError::IncorrectRaffle);
        }
        if self.winners.contains_key(&raffle_id) {
            return Err(RaffleError::ExistingWinners);
        }
        if self.status != Status::WaitingWinners {
            return Err(RaffleError::IncorrectStatus);
        }
        Ok(())
    }

    /// Records the results of the current raffle, which then waits for its
    /// winners. Results are recorded once: a second attempt is refused.
    pub fn set_results(&mut self, raffle_id: RaffleId, results: Vec<Number>) -> (r: Result<
        (),
        RaffleError,
    >)
        requires
            old(self).wf(),
        ensures
            final(self).wf(),
            r is Err ==> *final(self) == *old(self),
            r == set_results_outcome(*old(self), raffle_id),
            r is Ok ==> {
                &&& final(self).results@ == old(self).results@.insert(raffle_id, results)
                &&& final(self).status == Status::WaitingWinners
                &&& final(self).current_raffle_id == old(self).current_raffle_id
                &&& final(self).winners == old(self).winners
            },
    {
        self.check_results_allowed(raffle_id)?;
        self.results.insert(raffle_id, results);
        self.status = Status::WaitingWinners;
        Ok(())
    }

    /// Succeeds when `numbers` are the results recorded for `raffle_id`.
    pub fn ensure_same_results(&self, raffle_id: RaffleId, numbers: &[Number]) -> (r: Result<
        (),
        RaffleError,
    >)
        ensures
            r is Ok <==> self.results@.contains_key(raffle_id) && self.results@[raffle_id]@
                == numbers@,
            r is Err ==> r == Err::<(), RaffleError>(RaffleError::DifferentResults),
    {
        let result = match self.results.get(&raffle_id) {
            Some(v) => v,
            None => return Err(RaffleError::DifferentResults),
        };
        if result.len() != numbers.len() {
            return Err(RaffleError::DifferentResults);
        }
        let mut i: usize = 0;
        while i < numbers.len()
            invariant
                self.results@.contains_key(raffle_id),
                *result == self.results@[raffle_id],
                result@.len() == numbers@.len(),
                i <= numbers@.len(),
                forall|j: int| 0 <= j < i ==> result@[j] == numbers@[j],
            decreases numbers@.len() - i,
        {
            if numbers[i] != result[i] {
                assert(result@[i as int] != numbers@[i as int]);
                return Err(RaffleError::DifferentResults);
            }
            i = i + 1;
        }
        assert(result@ =~= numbers@);
        Ok(())
    }

    /// Records the winners of the current raffle, which is then closed.
    /// Winners are recorded once: a second attempt is refused.
    pub fn set_winners(&mut self, raffle_id: RaffleId, winners: Vec<AccountId>) -> (r: Result<
        (),
        RaffleError,
    >)
        requires
            old(self).wf(),
        ensures
            final(self).wf(),
            r is Err ==> *final(self) == *old(self),
            r == set_winners_outcome(*old(self), raffle_id),
            r is Ok ==> {
                &&& final(self).winners@ == old(self).winners@.insert(raffle_id, winners)
                &&& final(self).status == Status::Closed
                &&& final(self).current_raffle_id == old(self).current_raffle_id
                &&& final(self).results == old(self).results
            },
    {
        self.check_winners_allowed(raffle_id)?;
        self.winners.insert(raffle_id, winners);
        self.status = Status::Closed;
        Ok(())
    }

    /// Participation is open while the current raffle is `Ongoing`.
    pub fn can_participate(&self) -> (r: Result<(), RaffleError>)
        ensures
            self.status == Status::Ongoing ==> r is Ok,
            self.status != Status::Ongoing ==> r == Err::<(), _>(RaffleError::IncorrectStatus),
    {
        if self.status != Status::Ongoing {
            return Err(RaffleError::IncorrectStatus);
        }
        Ok(())
    }
}

/// What starting a new raffle gives: the id of the new raffle, or why it
/// cannot start.
pub open spec fn start_outcome(d: Data) -> Result<RaffleId, RaffleError> {
    if !d.can_start() {
        Err(RaffleError::IncorrectStatus)
    } else if d.current_raffle_id == u32::MAX {
        Err(RaffleError::AddOverFlow)
    } else {
        Ok((d.current_raffle_id + 1) as u32)
    }
}

/// What recording results for `raffle_id` gives: the checks in order are the
/// raffle id, results already recorded, then the status.
pub open spec fn set_results_outcome(d: Data, raffle_id: RaffleId) -> Result<(), RaffleError> {
    if d.current_raffle_id != raffle_id {
        Err(RaffleError::IncorrectRaffle)
    } else if d.results@.contains_key(raffle_id) {
        Err(RaffleError::ExistingResults)
    } else if d.status != Status::WaitingResults {
        Err(RaffleError::IncorrectStatus)
    } else {
        Ok(())
    }
}

/// What recording winners for `raffle_id` gives: the checks in order are the
/// raffle id, winners already recorded, then the status.
pub open spec fn set_winners_outcome(d: Data, raffle_id: RaffleId) -> Result<(), RaffleError> {
    if d.current_raffle_id != raffle_id {
        Err(RaffleError::IncorrectRaffle)
    } else if d.winners@.contains_key(raffle_id) {
        Err(RaffleError::ExistingWinners)
    } else if d.status != Status::WaitingWinners {
        Err(RaffleError::IncorrectStatus)
    } else {
        Ok(())
    }
}

/// Results are refused with `IncorrectStatus` for the current raffle while it
/// has none and does not wait for them.
pub proof fn lemma_results_need_waiting_status(d: Data, raffle_id: RaffleId)
    requires
        d.wf(),
        raffle_id == d.current_raffle_id,
        !d.results@.contains_key(raffle_id),
        d.status != Status::WaitingResults,
    ensures
        set_results_outcome(d, raffle_id) == Err::<(), RaffleError>(RaffleError::IncorrectStatus),
{
}

/// Once results are recorded for a raffle, recording results for it again is
/// refused with `ExistingResults`, and the recorded results are those of the
/// first time.
pub proof fn lemma_results_set_once(
    before: Data,
    after: Data,
    raffle_id: RaffleId,
    results: Vec<Number>,
)
    requires
        set_results_outcome(before, raffle_id) is Ok,
        after.current_raffle_id == before.current_raffle_id,
        after.results@ == before.results@.insert(raffle_id, results),
    ensures
        set_results_outcome(after, raffle_id) == Err::<(), RaffleError>(
            RaffleError::ExistingResults,
        ),
        after.results@[raffle_id] == results,
{
}

/// A copy of a list of numbers.
pub fn copy_numbers(v: &Vec<Number>) -> (r: Vec<Number>)
    ensures
        r@ == v@,
{
    let mut r: Vec<Number> = Vec::new();
    let mut i: usize = 0;
    while i < v.len()
        invariant
            i <= v@.len(),
            r@ == v@.subrange(0, i as int),
        decreases v@.len() - i,
    {
        r.push(v[i]);
        i = i + 1;
    }
    assert(v@.subrange(0, v@.len() as int) =~= v@);
    r
}

/// A copy of a list of accounts.
pub fn copy_accounts(v: &Vec<AccountId>) -> (r: Vec<AccountId>)
    ensures
        r@ == v@,
{
    let mut r: Vec<AccountId> = Vec::new();
    let mut i: usize = 0;
    while i < v.len()
        invariant
            i <= v@.len(),
            r@ == v@.subrange(0, i as int),
        decreases v@.len() - i,
    {
        r.push(v[i]);
        i = i + 1;
    }
    assert(v@.subrange(0, v@.len() as int) =~= v@);
    r
}

} // verus!
