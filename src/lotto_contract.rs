use vstd::prelude::*;

use crate::config::{self, numbers_outcome, same_config_outcome, Config};
use crate::error::RaffleError;
use crate::message::{LottoRequestMessage, LottoResponseMessage, Request, Response};
use crate::raffle::{self, set_results_outcome, set_winners_outcome, start_outcome, Status};
use crate::reward::{self, credited, share_of};
use crate::types::{AccountId, Balance, Number, RaffleId};

verus! {

/// A participant registered picks for a raffle.
#[derive(Debug, Clone, PartialEq, Eq)]
pub struct ParticipationRegistered {
    pub raffle_id: RaffleId,
    pub participant: AccountId,
    pub numbers: Vec<Number>,
}

/// A raffle started.
#[derive(Debug, Clone, Copy, PartialEq, Eq)]
pub struct RaffleStarted {
    pub raffle_id: RaffleId,
}

/// A raffle stopped taking participations.
#[derive(Debug, Clone, Copy, PartialEq, Eq)]
pub struct RaffleEnded {
    pub raffle_id: RaffleId,
}

/// The drawn numbers of a raffle were recorded.
#[derive(Debug, Clone, PartialEq, Eq)]
pub struct ResultReceived {
    pub raffle_id: RaffleId,
    pub numbers: Vec<Number>,
}

/// The winners of a raffle were recorded.
#[derive(Debug, Clone, PartialEq, Eq)]
pub struct WinnersRevealed {
    pub raffle_id: RaffleId,
    pub winners: Vec<AccountId>,
}

/// A winner was credited a reward.
#[derive(Debug, Clone, Copy, PartialEq, Eq)]
pub struct PendingReward {
    pub account: AccountId,
    pub amount: Balance,
}

/// A winner claimed its reward.
#[derive(Debug, Clone, Copy, PartialEq, Eq)]
pub struct RewardsClaimed {
    pub account: AccountId,
    pub amount: Balance,
}

/// What the contract reports, in the order it happened.
#[derive(Debug, Clone, PartialEq, Eq)]
pub enum Event {
    ParticipationRegistered(ParticipationRegistered),
    RaffleStarted(RaffleStarted),
    RaffleEnded(RaffleEnded),
    ResultReceived(ResultReceived),
    WinnersRevealed(WinnersRevealed),
    PendingReward(PendingReward),
    RewardsClaimed(RewardsClaimed),
}

/// Errors of the lotto contract.
#[derive(Debug, Clone, Copy, PartialEq, Eq, Structural)]
pub enum ContractError {
    RaffleError(RaffleError),
    /// A response that does not answer its own request.
    UnsupportedAction,
}

/// A raffle error, as the contract reports it.
pub open spec fn lift<T>(r: Result<T, RaffleError>) -> Result<T, ContractError> {
    match r {
        Ok(v) => Ok(v),
        Err(e) => Err(ContractError::RaffleError(e)),
    }
}

/// The on-chain lotto: configuration, raffle state machine and reward
/// ledger, with the requests it queued for the draw worker and the events it
/// reported.
#[derive(Debug)]
pub struct Contract {
    pub config: config::Data,
    pub lotto: raffle::Data,
    pub reward: reward::Data,
    /// The last raffle whose results were recorded: draws up to it may be
    /// verified.
    pub last_raffle_for_verif: Option<RaffleId>,
    /// Requests for the draw worker, oldest first.
    pub messages: Vec<LottoRequestMessage>,
    pub events: Vec<Event>,
}

/// What a participation with `numbers` gives: the picks are checked first,
/// then whether the raffle is open.
pub open spec fn participate_outcome(c: Contract, numbers: Seq<Number>) -> Result<(), RaffleError> {
    match numbers_outcome(c.config.config, numbers) {
        Err(e) => Err(e),
        Ok(_) => if c.lotto.status == Status::Ongoing {
            Ok(())
        } else {
            Err(RaffleError::IncorrectStatus)
        },
    }
}

/// What a batch of participations gives: the error of the first one that is
/// refused, if any.
pub open spec fn batch_outcome(c: Contract, picks: Seq<Seq<Number>>) -> Result<(), RaffleError>
    decreases picks.len(),
{
    if picks.len() == 0 {
        Ok(())
    } else {
        match participate_outcome(c, picks[0]) {
            Err(e) => Err(e),
            Ok(_) => batch_outcome(c, picks.drop_first()),
        }
    }
}

/// `e` registers `numbers` of `participant` for `raffle_id`.
pub open spec fn is_registration(
    e: Event,
    raffle_id: RaffleId,
    participant: AccountId,
    numbers: Seq<Number>,
) -> bool {
    e matches Event::ParticipationRegistered(p) && p.raffle_id == raffle_id && p.participant
        == participant && p.numbers@ == numbers
}

/// What recording `numbers` as the results of `raffle_id`, drawn with
/// `config`, gives: the config is compared first, then the numbers are
/// checked, then the state machine decides.
pub open spec fn results_outcome(
    c: Contract,
    raffle_id: RaffleId,
    config: Config,
    numbers: Seq<Number>,
) -> Result<(), RaffleError> {
    match same_config_outcome(c.config.config, config) {
        Err(e) => Err(e),
        Ok(_) => match numbers_outcome(c.config.config, numbers) {
            Err(e) => Err(e),
            Ok(_) => set_results_outcome(c.lotto, raffle_id),
        },
    }
}

/// `after` is `before` once `numbers` were recorded as the results of
/// `raffle_id` and the winners were asked for.
pub open spec fn results_recorded(
    before: Contract,
    after: Contract,
    raffle_id: RaffleId,
    numbers: Vec<Number>,
) -> bool {
    &&& after.lotto == (raffle::Data {
        status: Status::WaitingWinners,
        results: after.lotto.results,
        ..before.lotto
    })
    &&& after.lotto.results@ == before.lotto.results@.insert(raffle_id, numbers)
    &&& after.last_raffle_for_verif == Some(raffle_id)
    &&& after.events@.len() == before.events@.len() + 1
    &&& after.events@.drop_last() == before.events@
    &&& after.events@.last() matches Event::ResultReceived(e) && e.raffle_id == raffle_id
        && e.numbers@ == numbers@
    &&& after.messages@.len() == before.messages@.len() + 1
    &&& after.messages@.drop_last() == before.messages@
    &&& after.messages@.last().raffle_id == raffle_id
    &&& after.messages@.last().request matches Request::CheckWinners(v) && v@ == numbers@
    &&& after.config == before.config
    &&& after.reward == before.reward
}

/// What recording `winners` for `raffle_id`, found for `numbers`, gives:
/// the numbers must be the recorded results, then the state machine decides,
/// then the rewards or the next raffle must be possible.
pub open spec fn winners_outcome(
    c: Contract,
    raffle_id: RaffleId,
    numbers: Seq<Number>,
    winners: Seq<AccountId>,
    balance: Balance,
) -> Result<(), RaffleError> {
    if !(c.lotto.results@.contains_key(raffle_id) && c.lotto.results@[raffle_id]@ == numbers) {
        Err(RaffleError::DifferentResults)
    } else {
        match set_winners_outcome(c.lotto, raffle_id) {
            Err(e) => Err(e),
            Ok(_) => if winners.len() > 0 {
                if c.reward.total_pending_rewards > balance {
                    Err(RaffleError::AddOverFlow)
                } else {
                    Ok(())
                }
            } else if c.lotto.current_raffle_id == u32::MAX {
                Err(RaffleError::AddOverFlow)
            } else {
                Ok(())
            },
        }
    }
}

/// `after` is `before` once `winners` were recorded for `raffle_id`: each
/// winner is credited an equal share of what `balance` holds beyond the
/// pending rewards, or, with no winner, the next raffle starts.
pub open spec fn winners_recorded(
    before: Contract,
    after: Contract,
    raffle_id: RaffleId,
    winners: Vec<AccountId>,
    balance: Balance,
) -> bool {
    let n = winners@.len();
    let base = before.events@.len() as int;
    &&& after.lotto.winners@ == before.lotto.winners@.insert(raffle_id, winners)
    &&& after.lotto.results == before.lotto.results
    &&& after.events@.subrange(0, base) == before.events@
    &&& after.events@[base] matches Event::WinnersRevealed(e) && e.raffle_id == raffle_id
        && e.winners@ == winners@
    &&& if n > 0 {
        let share = share_of(balance as int, before.reward.total_pending_rewards as int, n as int);
        &&& after.lotto.status == Status::Closed
        &&& after.lotto.current_raffle_id == before.lotto.current_raffle_id
        &&& after.reward.wf()
        &&& credited(before.reward, after.reward, winners@, share)
        &&& after.events@.len() == base + 1 + n
        &&& forall|k: int|
            0 <= k < n ==> #[trigger] after.events@[base + 1 + k] == Event::PendingReward(
                PendingReward { account: winners@[k], amount: share as Balance },
            )
    } else {
        &&& after.lotto.status == Status::Ongoing
        &&& after.lotto.current_raffle_id == before.lotto.current_raffle_id + 1
        &&& after.reward == before.reward
        &&& after.events@.len() == base + 2
        &&& after.events@[base + 1] == Event::RaffleStarted(
            RaffleStarted { raffle_id: after.lotto.current_raffle_id },
        )
    }
    &&& after.config == before.config
    &&& after.last_raffle_for_verif == before.last_raffle_for_verif
    &&& after.messages == before.messages
}

/// What applying the response `m` gives: a response must answer the kind of
/// request it carries.
pub open spec fn message_outcome(c: Contract, m: LottoResponseMessage, balance: Balance) -> Result<
    (),
    ContractError,
> {
    match (m.response, m.request.request) {
        (Response::Numbers(numbers), Request::DrawNumbers(nb_numbers, min_number, max_number)) => lift(
            results_outcome(
                c,
                m.request.raffle_id,
                Config { nb_numbers, min_number, max_number },
                numbers@,
            ),
        ),
        (Response::Winners(winners), Request::CheckWinners(numbers)) => lift(
            winners_outcome(c, m.request.raffle_id, numbers@, winners@, balance),
        ),
        _ => Err(ContractError::UnsupportedAction),
    }
}

/// `after` is `before` once the response `m` was applied.
pub open spec fn message_applied(
    before: Contract,
    after: Contract,
    m: LottoResponseMessage,
    balance: Balance,
) -> bool {
    match (m.response, m.request.request) {
        (Response::Numbers(numbers), Request::DrawNumbers(..)) => results_recorded(
            before,
            after,
            m.request.raffle_id,
            numbers,
        ),
        (Response::Winners(winners), Request::CheckWinners(_)) => winners_recorded(
            before,
            after,
            m.request.raffle_id,
            winners,
            balance,
        ),
        _ => false,
    }
}

/// Every result and every winner list recorded in `before` is still
/// recorded, unchanged, in `after`.
pub open spec fn records_kept(before: Contract, after: Contract) -> bool {
    &&& forall|k: RaffleId| #[trigger]
        before.lotto.results@.contains_key(k) ==> after.lotto.results@.contains_key(k)
            && after.lotto.results@[k] == before.lotto.results@[k]
    &&& forall|k: RaffleId| #[trigger]
        before.lotto.winners@.contains_key(k) ==> after.lotto.winners@.contains_key(k)
            && after.lotto.winners@[k] == before.lotto.winners@[k]
}

/// Keeping the records is transitive: along any run of operations, each of
/// which keeps them, what was recorded stays recorded.
pub proof fn lemma_records_kept_trans(a: Contract, b: Contract, c: Contract)
    requires
        records_kept(a, b),
        records_kept(b, c),
    ensures
        records_kept(a, c),
{
}

/// Applying a response records what it carries: the results of its raffle
/// for drawn numbers, its winners for winners.
pub proof fn lemma_applied_is_recorded(
    before: Contract,
    after: Contract,
    m: LottoResponseMessage,
    balance: Balance,
)
    requires
        message_outcome(before, m, balance) is Ok,
        message_applied(before, after, m, balance),
    ensures
        match (m.response, m.request.request) {
            (Response::Numbers(_), Request::DrawNumbers(..)) => after.lotto.results@.contains_key(
                m.request.raffle_id,
            ),
            (Response::Winners(_), Request::CheckWinners(_)) => after.lotto.winners@.contains_key(
                m.request.raffle_id,
            ),
            _ => true,
        },
{
}

/// A response is refused, whatever happened since it was first applied, as
/// long as what it carries is recorded: drawn numbers for a raffle whose
/// results are recorded, and winners for a raffle whose winners are. A
/// refused response changes nothing.
pub proof fn lemma_recorded_response_refused(c: Contract, m: LottoResponseMessage, balance: Balance)
    requires
        match (m.response, m.request.request) {
            (Response::Numbers(_), Request::DrawNumbers(..)) => c.lotto.results@.contains_key(
                m.request.raffle_id,
            ),
            (Response::Winners(_), Request::CheckWinners(_)) => c.lotto.winners@.contains_key(
                m.request.raffle_id,
            ),
            _ => true,
        },
    ensures
        message_outcome(c, m, balance) is Err,
{
}

/// A response that was applied is refused when it is delivered again, and
/// nothing is applied twice: drawn numbers with `ExistingResults`, winners
/// with `ExistingWinners`, and an empty list of winners, after which the next
/// raffle started, with `IncorrectRaffle`.
pub proof fn lemma_replay_rejected(
    before: Contract,
    after: Contract,
    m: LottoResponseMessage,
    balance: Balance,
    later_balance: Balance,
)
    requires
        message_outcome(before, m, balance) is Ok,
        message_applied(before, after, m, balance),
    ensures
        message_outcome(after, m, later_balance) is Err,
        match (m.response, m.request.request) {
            (Response::Numbers(_), Request::DrawNumbers(..)) => message_outcome(
                after,
                m,
                later_balance,
            ) == Err::<(), ContractError>(ContractError::RaffleError(RaffleError::ExistingResults)),
            (Response::Winners(w), Request::CheckWinners(_)) => if w@.len() > 0 {
                message_outcome(after, m, later_balance) == Err::<(), ContractError>(
                    ContractError::RaffleError(RaffleError::ExistingWinners),
                )
            } else {
                message_outcome(after, m, later_balance) == Err::<(), ContractError>(
                    ContractError::RaffleError(RaffleError::IncorrectRaffle),
                )
            },
            _ => true,
        },
{
}

impl Contract {
    pub open spec fn wf(self) -> bool {
        &&& self.config.wf()
        &&& self.lotto.wf()
        &&& self.reward.wf()
    }

    /// A contract with no config, no raffle, no reward.
    pub fn new() -> (r: Contract)
        ensures
            r.wf(),
            r.config.config is None,
            r.lotto.status == Status::NotStarted,
            r.lotto.current_raffle_id == 0,
            r.lotto.results@.is_empty(),
            r.lotto.winners@.is_empty(),
            r.reward.pending().is_empty(),
            r.reward.total_pending_rewards == 0,
            r.last_raffle_for_verif is None,
            r.messages@.len() == 0,
            r.events@.len() == 0,
    {
        Contract {
            config: config::Data::new(),
            lotto: raffle::Data::new(),
            reward: reward::Data::new(),
            last_raffle_for_verif: None,
            messages: Vec::new(),
            events: Vec::new(),
        }
    }

    /// Replaces the config; only while no raffle is in progress.
    pub fn set_config(&mut self, config: Config) -> (r: Result<(), RaffleError>)
        requires
            old(self).wf(),
        ensures
            final(self).wf(),
            records_kept(*old(self), *final(self)),
            !old(self).lotto.can_start() ==> r == Err::<(), _>(RaffleError::IncorrectStatus),
            old(self).lotto.can_start() && !config.is_valid() ==> r == Err::<(), _>(
                RaffleError::IncorrectConfig,
            ),
            old(self).lotto.can_start() && config.is_valid() ==> r is Ok,
            r is Err ==> *final(self) == *old(self),
            r is Ok ==> *final(self) == (Contract {
                config: config::Data { config: Some(config) },
                ..*old(self)
            }),
    {
        let status = self.lotto.get_current_status();
        if status != Status::NotStarted && status != Status::Closed {
            return Err(RaffleError::IncorrectStatus);
        }
        self.config.set_config(config)
    }

    pub fn get_config(&self) -> (r: Option<Config>)
        ensures
            r == self.config.config,
    {
        self.config.get_config()
    }

    /// Starts the next raffle.
    pub fn start_raffle(&mut self) -> (r: Result<RaffleId, ContractError>)
        requires
            old(self).wf(),
        ensures
            final(self).wf(),
            records_kept(*old(self), *final(self)),
            r == lift(start_outcome(old(self).lotto)),
            r is Err ==> *final(self) == *old(self),
            r matches Ok(id) ==> {
                &&& final(self).lotto == (raffle::Data {
                    current_raffle_id: id,
                    status: Status::Ongoing,
                    ..old(self).lotto
                })
                &&& final(self).events@ == old(self).events@.push(
                    Event::RaffleStarted(RaffleStarted { raffle_id: id }),
                )
                &&& final(self).config == old(self).config
                &&& final(self).reward == old(self).reward
                &&& final(self).last_raffle_for_verif == old(self).last_raffle_for_verif
                &&& final(self).messages == old(self).messages
            },
    {
        self.inner_start_raffle()
    }

    fn inner_start_raffle(&mut self) -> (r: Result<RaffleId, ContractError>)
        requires
            old(self).wf(),
        ensures
            final(self).wf(),
            records_kept(*old(self), *final(self)),
            r == lift(start_outcome(old(self).lotto)),
            r is Err ==> *final(self) == *old(self),
            r matches Ok(id) ==> {
                &&& final(self).lotto == (raffle::Data {
                    current_raffle_id: id,
                    status: Status::Ongoing,
                    ..old(self).lotto
                })
                &&& final(self).events@ == old(self).events@.push(
                    Event::RaffleStarted(RaffleStarted { raffle_id: id }),
                )
                &&& final(self).config == old(self).config
                &&& final(self).reward == old(self).reward
                &&& final(self).last_raffle_for_verif == old(self).last_raffle_for_verif
                &&& final(self).messages == old(self).messages
            },
    {
        let raffle_id = match self.lotto.start_new_raffle() {
            Ok(id) => id,
            Err(e) => return Err(ContractError::RaffleError(e)),
        };
        self.events.push(Event::RaffleStarted(RaffleStarted { raffle_id }));
        Ok(raffle_id)
    }

    /// Registers the picks of `participant` for the current raffle.
    pub fn participate(&mut self, participant: AccountId, numbers: Vec<Number>) -> (r: Result<
        (),
        ContractError,
    >)
        requires
            old(self).wf(),
        ensures
            final(self).wf(),
            records_kept(*old(self), *final(self)),
            r == lift(participate_outcome(*old(self), numbers@)),
            r is Err ==> *final(self) == *old(self),
            r is Ok ==> *final(self) == (Contract { events: final(self).events, ..*old(self) })
                && final(self).events@ == old(self).events@.push(
                Event::ParticipationRegistered(
                    ParticipationRegistered {
                        raffle_id: old(self).lotto.current_raffle_id,
                        participant,
                        numbers,
                    },
                ),
            ),
    {
        if let Err(e) = self.config.check_numbers(numbers.as_slice()) {
            return Err(ContractError::RaffleError(e));
        }
        if let Err(e) = self.lotto.can_participate() {
            return Err(ContractError::RaffleError(e));
        }
        let raffle_id = self.lotto.get_current_raffle_id();
        self.events.push(
            Event::ParticipationRegistered(
                ParticipationRegistered { raffle_id, participant, numbers },
            ),
        );
        Ok(())
    }

    /// Registers several picks of `participant`; when one is refused, none
    /// is registered.
    pub fn participate_batch(&mut self, participant: AccountId, numbers: Vec<Vec<Number>>) -> (r:
        Result<(), ContractError>)
        requires
            old(self).wf(),
        ensures
            final(self).wf(),
            records_kept(*old(self), *final(self)),
            r == lift(batch_outcome(*old(self), numbers@.map_values(|v: Vec<Number>| v@))),
            r is Err ==> *final(self) == *old(self),
            r is Ok ==> {
                &&& *final(self) == (Contract { events: final(self).events, ..*old(self) })
                &&& final(self).events@.len() == old(self).events@.len() + numbers@.len()
                &&& final(self).events@.subrange(0, old(self).events@.len() as int)
                    == old(self).events@
                &&& forall|k: int|
                    0 <= k < numbers@.len() ==> is_registration(
                        #[trigger] final(self).events@[old(self).events@.len() + k],
                        old(self).lotto.current_raffle_id,
                        participant,
                        numbers@[k]@,
                    )
            },
    {
        let ghost picks = numbers@.map_values(|v: Vec<Number>| v@);
        let n = numbers.len();
        assert(picks.subrange(0, n as int) =~= picks);
        let mut i: usize = 0;
        while i < n
            invariant
                *self == *old(self),
                self.wf(),
                n == numbers@.len(),
                i <= n,
                picks == numbers@.map_values(|v: Vec<Number>| v@),
                batch_outcome(*self, picks) == batch_outcome(*self, picks.subrange(i as int, n as int)),
            decreases n - i,
        {
            let ghost rest = picks.subrange(i as int, n as int);
            assert(rest[0] == numbers@[i as int]@);
            assert(rest.drop_first() =~= picks.subrange(i + 1, n as int));
            if let Err(e) = self.config.check_numbers(numbers[i].as_slice()) {
                return Err(ContractError::RaffleError(e));
            }
            if let Err(e) = self.lotto.can_participate() {
                return Err(ContractError::RaffleError(e));
            }
            i = i + 1;
        }
        assert(picks.subrange(n as int, n as int).len() == 0);
        let ghost start = self.events@;
        let raffle_id = self.lotto.get_current_raffle_id();
        let mut j: usize = 0;
        while j < n
            invariant
                n == numbers@.len(),
                j <= n,
                *self == (Contract { events: self.events, ..*old(self) }),
                start == old(self).events@,
                raffle_id == old(self).lotto.current_raffle_id,
                self.events@.len() == start.len() + j,
                self.events@.subrange(0, start.len() as int) == start,
                forall|k: int|
                    0 <= k < j ==> is_registration(
                        #[trigger] self.events@[start.len() + k],
                        raffle_id,
                        participant,
                        numbers@[k]@,
                    ),
            decreases n - j,
        {
            let picked = raffle::copy_numbers(&numbers[j]);
            self.events.push(
                Event::ParticipationRegistered(
                    ParticipationRegistered { raffle_id, participant, numbers: picked },
                ),
            );
            assert(self.events@.subrange(0, start.len() as int) =~= start);
            assert(is_registration(self.events@[start.len() + j], raffle_id, participant, numbers@[j as int]@));
            j = j + 1;
        }
        Ok(())
    }

    /// Stops the current raffle and asks the worker to draw its numbers with
    /// the config of now.
    pub fn complete_raffle(&mut self) -> (r: Result<(), ContractError>)
        requires
            old(self).wf(),
        ensures
            final(self).wf(),
            records_kept(*old(self), *final(self)),
            old(self).lotto.status != Status::Ongoing ==> r == Err::<(), _>(
                ContractError::RaffleError(RaffleError::IncorrectStatus),
            ),
            old(self).lotto.status == Status::Ongoing && old(self).config.config is None ==> r
                == Err::<(), _>(ContractError::RaffleError(RaffleError::ConfigNotSet)),
            r is Err ==> *final(self) == *old(self),
            old(self).lotto.status == Status::Ongoing ==> match old(self).config.config {
                None => true,
                Some(c) => {
                    let id = old(self).lotto.current_raffle_id;
                    &&& r is Ok
                    &&& final(self).lotto == (raffle::Data {
                        status: Status::WaitingResults,
                        ..old(self).lotto
                    })
                    &&& final(self).events@ == old(self).events@.push(
                        Event::RaffleEnded(RaffleEnded { raffle_id: id }),
                    )
                    &&& final(self).messages@ == old(self).messages@.push(
                        LottoRequestMessage {
                            raffle_id: id,
                            request: Request::DrawNumbers(c.nb_numbers, c.min_number, c.max_number),
                        },
                    )
                    &&& final(self).config == old(self).config
                    &&& final(self).reward == old(self).reward
                    &&& final(self).last_raffle_for_verif == old(self).last_raffle_for_verif
                },
            },
    {
        if let Err(e) = self.lotto.can_participate() {
            return Err(ContractError::RaffleError(e));
        }
        let config = match self.config.ensure_config() {
            Ok(c) => c,
            Err(e) => return Err(ContractError::RaffleError(e)),
        };
        let _ = self.lotto.stop_current_raffle();
        let raffle_id = self.lotto.get_current_raffle_id();
        self.events.push(Event::RaffleEnded(RaffleEnded { raffle_id }));
        self.messages.push(
            LottoRequestMessage {
                raffle_id,
                request: Request::DrawNumbers(config.nb_numbers, config.min_number, config.max_number),
            },
        );
        Ok(())
    }
    /// Records the drawn `numbers` of `raffle_id`, drawn with `config`, and
    /// asks the worker for the winners.
    pub fn inner_set_results(&mut self, raffle_id: RaffleId, config: Config, numbers: Vec<Number>) -> (r:
        Result<(), ContractError>)
        requires
            old(self).wf(),
        ensures
            final(self).wf(),
            records_kept(*old(self), *final(self)),
            r == lift(results_outcome(*old(self), raffle_id, config, numbers@)),
            r is Err ==> *final(self) == *old(self),
            r is Ok ==> results_recorded(*old(self), *final(self), raffle_id, numbers),
    {
        if let Err(e) = self.config.ensure_same_config(&config) {
            return Err(ContractError::RaffleError(e));
        }
        if let Err(e) = self.config.check_numbers(numbers.as_slice()) {
            return Err(ContractError::RaffleError(e));
        }
        let received = raffle::copy_numbers(&numbers);
        let asked = raffle::copy_numbers(&numbers);
        let ghost stored = numbers;
        if let Err(e) = self.lotto.set_results(raffle_id, numbers) {
            return Err(ContractError::RaffleError(e));
        }
        self.last_raffle_for_verif = Some(raffle_id);
        self.events.push(Event::ResultReceived(ResultReceived { raffle_id, numbers: received }));
        self.messages.push(LottoRequestMessage { raffle_id, request: Request::CheckWinners(asked) });
        proof {
            assert(self.events@.drop_last() =~= old(self).events@);
            assert(self.messages@.drop_last() =~= old(self).messages@);
        }
        Ok(())
    }

    /// Records the `winners` of `raffle_id`, found for `numbers`; credits
    /// them out of `balance`, or starts the next raffle when there is none.
    pub fn inner_set_winners(
        &mut self,
        raffle_id: RaffleId,
        numbers: Vec<Number>,
        winners: Vec<AccountId>,
        balance: Balance,
    ) -> (r: Result<(), ContractError>)
        requires
            old(self).wf(),
        ensures
            final(self).wf(),
            records_kept(*old(self), *final(self)),
            r == lift(winners_outcome(*old(self), raffle_id, numbers@, winners@, balance)),
            r is Err ==> *final(self) == *old(self),
            r is Ok ==> winners_recorded(*old(self), *final(self), raffle_id, winners, balance),
    {
        if let Err(e) = self.lotto.ensure_same_results(raffle_id, numbers.as_slice()) {
            return Err(ContractError::RaffleError(e));
        }
        if let Err(e) = self.lotto.check_winners_allowed(raffle_id) {
            return Err(ContractError::RaffleError(e));
        }
        if winners.len() > 0 {
            if self.reward.total_pending_rewards > balance {
                return Err(ContractError::RaffleError(RaffleError::AddOverFlow));
            }
        } else if self.lotto.current_raffle_id == u32::MAX {
            return Err(ContractError::RaffleError(RaffleError::AddOverFlow));
        }
        let ghost base = self.events@.len();
        let ghost given = winners;
        let revealed = raffle::copy_accounts(&winners);
        let to_credit = raffle::copy_accounts(&winners);
        let _ = self.lotto.set_winners(raffle_id, winners);
        self.events.push(Event::WinnersRevealed(WinnersRevealed { raffle_id, winners: revealed }));
        assert(self.events@.subrange(0, base as int) =~= old(self).events@);
        if to_credit.len() > 0 {
            let ghost before_reward = self.reward;
            let share = match self.reward.add_winners(&to_credit, balance) {
                Ok(share) => share,
                Err(e) => return Err(ContractError::RaffleError(e)),
            };
            let n = to_credit.len();
            let ghost credited_state = *self;
            let mut k: usize = 0;
            while k < n
                invariant
                    *self == (Contract { events: self.events, ..credited_state }),
                    n == to_credit@.len(),
                    to_credit@ == given@,
                    k <= n,
                    self.events@.len() == base + 1 + k,
                    self.events@.subrange(0, base as int) == old(self).events@,
                    self.events@[base as int] == Event::WinnersRevealed(WinnersRevealed { raffle_id, winners: revealed }),
                    forall|j: int|
                        0 <= j < k ==> #[trigger] self.events@[base + 1 + j] == Event::PendingReward(
                            PendingReward { account: to_credit@[j], amount: share },
                        ),
                decreases n - k,
            {
                let account = to_credit[k];
                self.events.push(Event::PendingReward(PendingReward { account, amount: share }));
                assert(self.events@.subrange(0, base as int) =~= old(self).events@);
                k = k + 1;
            }
        } else {
            let _ = self.inner_start_raffle();
            assert(self.events@.subrange(0, base as int) =~= old(self).events@);
        }
        Ok(())
    }

    /// Applies a response of the draw worker: drawn numbers answer a draw
    /// request, winners answer a winners request. `balance` is what the
    /// contract holds, out of which winners are credited.
    pub fn on_message_received(&mut self, message: LottoResponseMessage, balance: Balance) -> (r:
        Result<(), ContractError>)
        requires
            old(self).wf(),
        ensures
            final(self).wf(),
            records_kept(*old(self), *final(self)),
            r == message_outcome(*old(self), message, balance),
            r is Err ==> *final(self) == *old(self),
            r is Ok ==> message_applied(*old(self), *final(self), message, balance),
    {
        let raffle_id = message.request.raffle_id;
        match message.response {
            Response::Numbers(numbers) => match message.request.request {
                Request::DrawNumbers(nb_numbers, min_number, max_number) => self.inner_set_results(
                    raffle_id,
                    Config { nb_numbers, min_number, max_number },
                    numbers,
                ),
                Request::CheckWinners(_) => Err(ContractError::UnsupportedAction),
            },
            Response::Winners(winners) => match message.request.request {
                Request::CheckWinners(numbers) => self.inner_set_winners(
                    raffle_id,
                    numbers,
                    winners,
                    balance,
                ),
                Request::DrawNumbers(..) => Err(ContractError::UnsupportedAction),
            },
        }
    }

    /// Clears the reward of `from` and returns its amount, which the caller
    /// transfers to `from`.
    pub fn claim_from(&mut self, from: AccountId) -> (r: Result<Balance, ContractError>)
        requires
            old(self).wf(),
        ensures
            final(self).wf(),
            records_kept(*old(self), *final(self)),
            !old(self).reward.pending().contains_key(from) ==> r == Err::<Balance, _>(
                ContractError::RaffleError(RaffleError::NoReward),
            ),
            r is Err ==> *final(self) == *old(self),
            old(self).reward.pending().contains_key(from) ==> {
                let amount = old(self).reward.pending()[from];
                &&& r == Ok::<Balance, ContractError>(amount)
                &&& final(self).reward.pending() == old(self).reward.pending().remove(from)
                &&& final(self).reward.total_pending_rewards
                    == old(self).reward.total_pending_rewards - amount
                &&& final(self).events@ == old(self).events@.push(
                    Event::RewardsClaimed(RewardsClaimed { account: from, amount }),
                )
                &&& final(self).config == old(self).config
                &&& final(self).lotto == old(self).lotto
                &&& final(self).last_raffle_for_verif == old(self).last_raffle_for_verif
                &&& final(self).messages == old(self).messages
            },
    {
        let amount = match self.reward.claim_from(from) {
            Ok(amount) => amount,
            Err(e) => return Err(ContractError::RaffleError(e)),
        };
        self.events.push(Event::RewardsClaimed(RewardsClaimed { account: from, amount }));
        Ok(amount)
    }

    pub fn get_current_raffle_id(&self) -> (r: RaffleId)
        ensures
            r == self.lotto.current_raffle_id,
    {
        self.lotto.get_current_raffle_id()
    }

    pub fn get_current_status(&self) -> (r: Status)
        ensures
            r == self.lotto.status,
    {
        self.lotto.get_current_status()
    }

    /// The results recorded for `raffle_id`, if any.
    pub fn get_results(&self, raffle_id: RaffleId) -> (r: Option<Vec<Number>>)
        ensures
            match r {
                Some(v) => self.lotto.results@.contains_key(raffle_id) && v@
                    == self.lotto.results@[raffle_id]@,
                None => !self.lotto.results@.contains_key(raffle_id),
            },
    {
        self.lotto.get_results(raffle_id)
    }

    /// The winners recorded for `raffle_id`, if any.
    pub fn get_winners(&self, raffle_id: RaffleId) -> (r: Option<Vec<AccountId>>)
        ensures
            match r {
                Some(v) => self.lotto.winners@.contains_key(raffle_id) && v@
                    == self.lotto.winners@[raffle_id]@,
                None => !self.lotto.winners@.contains_key(raffle_id),
            },
    {
        self.lotto.get_winners(raffle_id)
    }

    pub fn get_last_raffle_for_verif(&self) -> (r: Option<RaffleId>)
        ensures
            r == self.last_raffle_for_verif,
    {
        self.last_raffle_for_verif
    }

    pub fn get_total_pending_rewards(&self) -> (r: Balance)
        ensures
            r == self.reward.total_pending_rewards,
    {
        self.reward.get_total_pending_rewards()
    }

    /// Whether `from` has a reward to claim.
    pub fn has_pending_rewards_from(&self, from: AccountId) -> (r: bool)
        requires
            self.wf(),
        ensures
            r == self.reward.pending().contains_key(from),
    {
        self.reward.has_pending_rewards_from(from)
    }

    /// The reward that `from` may claim, if any.
    pub fn get_pending_rewards_from(&self, from: AccountId) -> (r: Option<Balance>)
        requires
            self.wf(),
        ensures
            r == (if self.reward.pending().contains_key(from) {
                Some(self.reward.pending()[from])
            } else {
                None::<Balance>
            }),
    {
        self.reward.get_pending_rewards_from(from)
    }
}

} // verus!
