use vstd::prelude::*;
use vstd::string::StringSliceAdditionalSpecFns;

use crate::draw::{
    distinct, draw, draw_from, draw_salt, draw_step, lemma_step_shape, numbers_match,
    numbers_view, same_numbers, verify_outcome, vrf_bytes, within,
};
use crate::indexer::{decimal, number_filters, push_decimal, push_str_bytes, query_body};
use crate::message::{LottoRequestMessage, LottoResponseMessage, Request, Response};
use crate::types::{AccountId, Number, RaffleId};

verus! {

/// Errors of the draw worker.
#[derive(Debug, Clone, Copy, PartialEq, Eq, Structural)]
pub enum ContractError {
    BadOrigin,
    ClientNotConfigured,
    InvalidKeyLength,
    InvalidAddressLength,
    NoRequestInQueue,
    FailedToCreateClient,
    FailedToCommitTx,
    FailedToCallRollup,
    NoNumber,
    IndexerNotConfigured,
    HttpRequestFailed,
    InvalidResponseBody,
    InvalidSs58Address,
    MinGreaterThanMax,
    AddOverFlow,
    SubOverFlow,
    DivByZero,
    InvalidContractId,
    CurrentRaffleUnknown,
    UnauthorizedRaffle,
    /// The random source gave fewer than eight bytes.
    InvalidRandomOutput,
}

/// How the worker reaches the lotto contract.
#[derive(Debug)]
pub struct TargetConfig {
    /// The RPC endpoint of the target chain.
    pub rpc: String,
    pub pallet_id: u8,
    pub call_id: u8,
    /// The address of the lotto contract on the target chain.
    pub contract_id: [u8; 32],
    /// The key that pays for meta-transactions, if they are used.
    pub sender_key: Option<[u8; 32]>,
}

/// The off-chain draw worker.
#[derive(Debug)]
pub struct Lotto {
    pub owner: AccountId,
    pub consumer_config: Option<TargetConfig>,
    pub indexer_url: Option<String>,
    /// The key that signs the worker's transactions.
    pub attest_key: [u8; 32],
}

/// What answering a request takes next.
#[derive(Debug)]
pub enum Step {
    /// The response is ready.
    Reply(LottoResponseMessage),
    /// The participation index must be queried with this body first.
    QueryIndexer(Vec<u8>),
}

/// The 32 bytes of `v`, when it has exactly 32.
pub fn to_bytes32(v: &Vec<u8>) -> (r: Option<[u8; 32]>)
    ensures
        match r {
            Some(a) => v@.len() == 32 && a@ == v@,
            None => v@.len() != 32,
        },
{
    if v.len() != 32 {
        return None;
    }
    let mut a: [u8; 32] = [0u8; 32];
    let mut i: usize = 0;
    while i < 32
        invariant
            v@.len() == 32,
            i <= 32,
            forall|j: int| 0 <= j < i ==> a@[j] == v@[j],
        decreases 32 - i,
    {
        a[i] = v[i];
        i = i + 1;
    }
    assert(a@ =~= v@);
    Some(a)
}

/// `r` answers `message` with the draw `drawn`.
pub open spec fn draw_answer(
    r: Result<Step, ContractError>,
    message: LottoRequestMessage,
    drawn: Result<Seq<Number>, ContractError>,
) -> bool {
    match drawn {
        Ok(s) => match r {
            Ok(Step::Reply(m)) => m.request == message && match m.response {
                Response::Numbers(v) => v@ == s,
                _ => false,
            },
            _ => false,
        },
        Err(e) => r == Err::<Step, ContractError>(e),
    }
}

/// `taken` followed by empty outputs, up to 256 attempts.
pub open spec fn padded(taken: Seq<Seq<u8>>) -> Seq<Seq<u8>> {
    taken + Seq::new((256 - taken.len()) as nat, |j: int| Seq::<u8>::empty())
}

proof fn lemma_padded(taken: Seq<Seq<u8>>)
    requires
        taken.len() <= 256,
    ensures
        padded(taken).len() == 256,
        padded(taken).subrange(0, taken.len() as int) =~= taken,
        forall|j: int| 0 <= j < taken.len() ==> padded(taken)[j] == taken[j],
{
}

impl Lotto {
    /// A worker owned by `owner`, signing with `attest_key`, not configured
    /// yet.
    pub fn default(owner: AccountId, attest_key: [u8; 32]) -> (r: Lotto)
        ensures
            r.owner == owner,
            r.attest_key == attest_key,
            r.consumer_config is None,
            r.indexer_url is None,
    {
        Lotto { owner, consumer_config: None, indexer_url: None, attest_key }
    }

    pub fn owner(&self) -> (r: AccountId)
        ensures
            r == self.owner,
    {
        self.owner
    }

    /// Succeeds when `caller` owns the worker.
    pub fn ensure_owner(&self, caller: AccountId) -> (r: Result<(), ContractError>)
        ensures
            r is Ok <==> caller == self.owner,
            r is Err ==> r == Err::<(), _>(ContractError::BadOrigin),
    {
        if crate::types::account_eq(&caller, &self.owner) {
            Ok(())
        } else {
            Err(ContractError::BadOrigin)
        }
    }

    /// The target contract's address, or `ClientNotConfigured`.
    pub fn ensure_client_configured(&self) -> (r: Result<[u8; 32], ContractError>)
        ensures
            match self.consumer_config {
                Some(c) => r == Ok::<[u8; 32], ContractError>(c.contract_id),
                None => r == Err::<[u8; 32], _>(ContractError::ClientNotConfigured),
            },
    {
        match &self.consumer_config {
            Some(c) => Ok(c.contract_id),
            None => Err(ContractError::ClientNotConfigured),
        }
    }

    /// How the worker reaches the target contract, if it is configured.
    pub fn get_target_contract(&self) -> (r: Option<(String, u8, u8, [u8; 32])>)
        ensures
            match self.consumer_config {
                Some(c) => r matches Some(t) && t.0@ == c.rpc@ && t.1 == c.pallet_id && t.2
                    == c.call_id && t.3 == c.contract_id,
                None => r is None,
            },
    {
        match &self.consumer_config {
            Some(c) => Some((c.rpc.clone(), c.pallet_id, c.call_id, c.contract_id)),
            None => None,
        }
    }

    /// Sets how the worker reaches the target contract; owner only. The
    /// address and the sender key must have 32 bytes.
    pub fn config_target_contract(
        &mut self,
        caller: AccountId,
        rpc: String,
        pallet_id: u8,
        call_id: u8,
        contract_id: Vec<u8>,
        sender_key: Option<Vec<u8>>,
    ) -> (r: Result<(), ContractError>)
        ensures
            caller != old(self).owner ==> r == Err::<(), _>(ContractError::BadOrigin),
            caller == old(self).owner && contract_id@.len() != 32 ==> r == Err::<(), _>(
                ContractError::InvalidAddressLength,
            ),
            caller == old(self).owner && contract_id@.len() == 32 && (sender_key matches Some(k)
                && k@.len() != 32) ==> r == Err::<(), _>(ContractError::InvalidKeyLength),
            caller == old(self).owner && contract_id@.len() == 32 && match sender_key {
                Some(k) => k@.len() == 32,
                None => true,
            } ==> r is Ok,
            r is Err ==> *final(self) == *old(self),
            r is Ok ==> {
                &&& caller == old(self).owner
                &&& final(self).owner == old(self).owner
                &&& final(self).indexer_url == old(self).indexer_url
                &&& final(self).attest_key == old(self).attest_key
                &&& final(self).consumer_config matches Some(c) && c.rpc == rpc && c.pallet_id
                    == pallet_id && c.call_id == call_id && c.contract_id@ == contract_id@
                    && match sender_key {
                    Some(k) => c.sender_key matches Some(s) && s@ == k@,
                    None => c.sender_key is None,
                }
            },
    {
        self.ensure_owner(caller)?;
        let contract_id = match to_bytes32(&contract_id) {
            Some(a) => a,
            None => return Err(ContractError::InvalidAddressLength),
        };
        let sender_key = match sender_key {
            Some(key) => match to_bytes32(&key) {
                Some(k) => Some(k),
                None => return Err(ContractError::InvalidKeyLength),
            },
            None => None,
        };
        self.consumer_config = Some(
            TargetConfig { rpc, pallet_id, call_id, contract_id, sender_key },
        );
        Ok(())
    }

    pub fn get_indexer_url(&self) -> (r: Option<String>)
        ensures
            match self.indexer_url {
                Some(u) => r matches Some(v) && v@ == u@,
                None => r is None,
            },
    {
        match &self.indexer_url {
            Some(u) => Some(u.clone()),
            None => None,
        }
    }

    /// Sets the participation index endpoint; owner only.
    pub fn config_indexer(&mut self, caller: AccountId, indexer_url: String) -> (r: Result<
        (),
        ContractError,
    >)
        ensures
            caller != old(self).owner ==> r == Err::<(), _>(ContractError::BadOrigin)
                && *final(self) == *old(self),
            caller == old(self).owner ==> r is Ok && *final(self) == (Lotto {
                indexer_url: Some(indexer_url),
                ..*old(self)
            }),
    {
        self.ensure_owner(caller)?;
        self.indexer_url = Some(indexer_url);
        Ok(())
    }

    /// Hands the worker to `new_owner`; owner only.
    pub fn transfer_ownership(&mut self, caller: AccountId, new_owner: AccountId) -> (r: Result<
        (),
        ContractError,
    >)
        ensures
            caller != old(self).owner ==> r == Err::<(), _>(ContractError::BadOrigin)
                && *final(self) == *old(self),
            caller == old(self).owner ==> r is Ok && *final(self) == (Lotto {
                owner: new_owner,
                ..*old(self)
            }),
    {
        self.ensure_owner(caller)?;
        self.owner = new_owner;
        Ok(())
    }
    /// Draws `nb_numbers` distinct numbers in `[smallest_number,
    /// biggest_number]` for `raffle_id`. Attempt `i` asks the random source
    /// for the bytes of the salt `draw_salt(i, raffle_id, target contract)`
    /// and makes a `draw_step` with them; attempts go on until enough
    /// numbers are kept, at most 256 of them.
    ///
    /// The random bytes are the runtime's, so the result is stated for some
    /// bytes: it is the `draw` of 256 attempt outputs, of which those used
    /// are the ones the runtime gave.
    pub fn inner_get_numbers(
        &self,
        raffle_id: RaffleId,
        nb_numbers: u8,
        smallest_number: Number,
        biggest_number: Number,
    ) -> (r: Result<Vec<Number>, ContractError>)
        ensures
            self.consumer_config is None ==> r == Err::<Vec<Number>, _>(
                ContractError::ClientNotConfigured,
            ),
            self.consumer_config is Some && smallest_number > biggest_number ==> r == Err::<
                Vec<Number>,
                _,
            >(ContractError::MinGreaterThanMax),
            self.consumer_config is Some && smallest_number <= biggest_number && nb_numbers == 0
                ==> (r matches Ok(v) && v@.len() == 0),
            self.consumer_config is Some ==> exists|outputs: Seq<Seq<u8>>|
                outputs.len() == 256 && #[trigger] draw(
                    outputs,
                    nb_numbers,
                    smallest_number,
                    biggest_number,
                ) == numbers_view(r),
            r matches Ok(v) ==> v@.len() == nb_numbers && distinct(v@) && within(
                v@,
                smallest_number,
                biggest_number,
            ),
    {
        let contract_id = self.ensure_client_configured()?;
        if smallest_number > biggest_number {
            proof {
                let w = padded(seq![]);
                assert(draw(w, nb_numbers, smallest_number, biggest_number) == numbers_view(
                    Err(ContractError::MinGreaterThanMax),
                ));
            }
            return Err(ContractError::MinGreaterThanMax);
        }
        let mut numbers: Vec<Number> = Vec::new();
        let ghost mut seen: Seq<Seq<u8>> = seq![];
        let mut i: u8 = 0;
        while numbers.len() < nb_numbers as usize
            invariant
                self.consumer_config is Some,
                smallest_number <= biggest_number,
                seen.len() == i,
                numbers@.len() <= nb_numbers,
                distinct(numbers@),
                within(numbers@, smallest_number, biggest_number),
                forall|w: Seq<Seq<u8>>|
                    w.len() == 256 && w.subrange(0, i as int) == seen ==> #[trigger] draw(
                        w,
                        nb_numbers,
                        smallest_number,
                        biggest_number,
                    ) == draw_from(
                        w,
                        nb_numbers,
                        smallest_number,
                        biggest_number,
                        i as nat,
                        numbers@,
                    ),
            decreases 256 - i,
        {
            let salt = draw_salt(i, raffle_id, &contract_id);
            let output = vrf_bytes(&salt);
            let ghost taken = seen.push(output@);
            let ghost acc = numbers@;
            proof {
                lemma_padded(taken);
            }
            let next = match draw_step(&numbers, &output, smallest_number, biggest_number) {
                Ok(next) => next,
                Err(e) => {
                    proof {
                        let w = padded(taken);
                        assert(w.subrange(0, i as int) =~= seen);
                        assert(w[i as int] == output@);
                        assert(draw(w, nb_numbers, smallest_number, biggest_number) == numbers_view(
                            Err(e),
                        ));
                    }
                    return Err(e);
                },
            };
            proof {
                lemma_step_shape(acc, output@, smallest_number, biggest_number);
            }
            numbers = next;
            if i == 255 {
                proof {
                    let w = padded(taken);
                    assert(w.subrange(0, i as int) =~= seen);
                    assert(w[i as int] == output@);
                    assert(draw(w, nb_numbers, smallest_number, biggest_number) == numbers_view(
                        Err(ContractError::AddOverFlow),
                    ));
                }
                return Err(ContractError::AddOverFlow);
            }
            proof {
                assert forall|w: Seq<Seq<u8>>|
                    w.len() == 256 && w.subrange(0, i + 1) == taken implies #[trigger] draw(
                    w,
                    nb_numbers,
                    smallest_number,
                    biggest_number,
                ) == draw_from(
                    w,
                    nb_numbers,
                    smallest_number,
                    biggest_number,
                    (i + 1) as nat,
                    numbers@,
                ) by {
                    assert(w.subrange(0, i as int) =~= seen) by {
                        assert forall|j: int| 0 <= j < i implies w.subrange(0, i as int)[j] == seen[j] by {
                            assert(w.subrange(0, i + 1)[j] == taken[j]);
                        }
                    }
                    assert(w[i as int] == w.subrange(0, i + 1)[i as int]);
                }
                seen = taken;
            }
            i = i + 1;
        }
        proof {
            lemma_padded(seen);
            let w = padded(seen);
            assert(w.subrange(0, i as int) =~= seen);
            assert(draw(w, nb_numbers, smallest_number, biggest_number) == numbers_view(
                Ok(numbers),
            ));
        }
        Ok(numbers)
    }

    /// Whether `numbers` are the numbers drawn for `raffle_id` with these
    /// parameters, in any order; stated, as the draw, for some random bytes.
    pub fn inner_verify_numbers(
        &self,
        raffle_id: RaffleId,
        nb_numbers: u8,
        smallest_number: Number,
        biggest_number: Number,
        numbers: Vec<Number>,
    ) -> (r: Result<bool, ContractError>)
        ensures
            self.consumer_config is None ==> r == Err::<bool, _>(ContractError::ClientNotConfigured),
            self.consumer_config is Some && smallest_number > biggest_number ==> r == Err::<bool, _>(
                ContractError::MinGreaterThanMax,
            ),
            self.consumer_config is Some ==> exists|outputs: Seq<Seq<u8>>|
                outputs.len() == 256 && verify_outcome(
                    #[trigger] draw(outputs, nb_numbers, smallest_number, biggest_number),
                    numbers@,
                ) == r,
    {
        let winning = self.inner_get_numbers(
            raffle_id,
            nb_numbers,
            smallest_number,
            biggest_number,
        );
        proof {
            if self.consumer_config is Some {
                let w = choose|w: Seq<Seq<u8>>|
                    w.len() == 256 && #[trigger] draw(
                        w,
                        nb_numbers,
                        smallest_number,
                        biggest_number,
                    ) == numbers_view(winning);
                assert(verify_outcome(draw(w, nb_numbers, smallest_number, biggest_number), numbers@)
                    == match winning {
                    Ok(v) => Ok::<bool, ContractError>(same_numbers(v@, numbers@)),
                    Err(e) => Err(e),
                });
            }
        }
        match winning {
            Ok(winning) => Ok(numbers_match(&winning, &numbers)),
            Err(e) => Err(e),
        }
    }

    /// Verifies the numbers of a past raffle: `contract_id` must be the
    /// target contract, and `raffle_id` at most `last_raffle`, the last
    /// raffle whose results the target contract recorded.
    pub fn verify_numbers(
        &self,
        contract_id: [u8; 32],
        raffle_id: RaffleId,
        nb_numbers: u8,
        smallest_number: Number,
        biggest_number: Number,
        numbers: Vec<Number>,
        last_raffle: Option<RaffleId>,
    ) -> (r: Result<bool, ContractError>)
        ensures
            match self.consumer_config {
                None => r == Err::<bool, _>(ContractError::ClientNotConfigured),
                Some(c) => if contract_id != c.contract_id {
                    r == Err::<bool, _>(ContractError::InvalidContractId)
                } else {
                    match last_raffle {
                        None => r == Err::<bool, _>(ContractError::CurrentRaffleUnknown),
                        Some(last) => if raffle_id > last {
                            r == Err::<bool, _>(ContractError::UnauthorizedRaffle)
                        } else if smallest_number > biggest_number {
                            r == Err::<bool, _>(ContractError::MinGreaterThanMax)
                        } else {
                            exists|outputs: Seq<Seq<u8>>|
                                outputs.len() == 256 && verify_outcome(
                                    #[trigger] draw(
                                        outputs,
                                        nb_numbers,
                                        smallest_number,
                                        biggest_number,
                                    ),
                                    numbers@,
                                ) == r
                        },
                    }
                },
            },
    {
        let target = self.ensure_client_configured()?;
        if !crate::types::account_eq(&contract_id, &target) {
            return Err(ContractError::InvalidContractId);
        }
        let last_raffle = match last_raffle {
            Some(last) => last,
            None => return Err(ContractError::CurrentRaffleUnknown),
        };
        if raffle_id > last_raffle {
            return Err(ContractError::UnauthorizedRaffle);
        }
        self.inner_verify_numbers(raffle_id, nb_numbers, smallest_number, biggest_number, numbers)
    }

    /// The body of the query for the winners of `raffle_id` for `numbers`.
    pub fn winners_query(&self, raffle_id: RaffleId, numbers: &Vec<Number>) -> (r: Result<
        Vec<u8>,
        ContractError,
    >)
        ensures
            numbers@.len() == 0 ==> r == Err::<Vec<u8>, _>(ContractError::NoNumber),
            numbers@.len() > 0 && self.indexer_url is None ==> r == Err::<Vec<u8>, _>(
                ContractError::IndexerNotConfigured,
            ),
            numbers@.len() > 0 && self.indexer_url is Some ==> (r matches Ok(body) && body@
                == query_body(raffle_id, numbers@)),
    {
        if numbers.len() == 0 {
            return Err(ContractError::NoNumber);
        }
        if self.indexer_url.is_none() {
            return Err(ContractError::IndexerNotConfigured);
        }
        let mut body: Vec<u8> = Vec::new();
        push_str_bytes(&mut body, "{\"query\" : \"{participations(filter:{and:[{numRaffle:{equalTo:\\\"");
        push_decimal(&mut body, raffle_id);
        push_str_bytes(&mut body, "\\\"}}");
        let mut k: usize = 0;
        while k < numbers.len()
            invariant
                k <= numbers@.len(),
                body@ == "{\"query\" : \"{participations(filter:{and:[{numRaffle:{equalTo:\\\"".spec_bytes()
                    + decimal(raffle_id as nat) + "\\\"}}".spec_bytes() + number_filters(
                    numbers@.subrange(0, k as int),
                ),
            decreases numbers@.len() - k,
        {
            push_str_bytes(&mut body, ",{numbers:{contains:\\\"");
            push_decimal(&mut body, numbers[k] as u32);
            push_str_bytes(&mut body, "\\\"}}");
            k = k + 1;
            assert(numbers@.subrange(0, k as int).drop_last() =~= numbers@.subrange(0, k - 1));
            assert(body@ =~= "{\"query\" : \"{participations(filter:{and:[{numRaffle:{equalTo:\\\"".spec_bytes()
                + decimal(raffle_id as nat) + "\\\"}}".spec_bytes() + number_filters(
                numbers@.subrange(0, k as int),
            ));
        }
        push_str_bytes(&mut body, "]}){ nodes { accountId } } }\"}");
        assert(numbers@.subrange(0, numbers@.len() as int) =~= numbers@);
        assert(body@ =~= query_body(raffle_id, numbers@));
        Ok(body)
    }

    /// Answers `message`: a draw request is answered at once, with a draw
    /// stated as in `inner_get_numbers`; a winners request needs the
    /// participation index to be queried first.
    pub fn handle_request(&self, message: LottoRequestMessage) -> (r: Result<Step, ContractError>)
        ensures
            match message.request {
                Request::DrawNumbers(nb_numbers, smallest_number, biggest_number) => {
                    &&& self.consumer_config is None ==> r == Err::<Step, _>(
                        ContractError::ClientNotConfigured,
                    )
                    &&& self.consumer_config is Some ==> exists|outputs: Seq<Seq<u8>>|
                        outputs.len() == 256 && draw_answer(
                            r,
                            message,
                            #[trigger] draw(outputs, nb_numbers, smallest_number, biggest_number),
                        )
                },
                Request::CheckWinners(numbers) => if numbers@.len() == 0 {
                    r == Err::<Step, _>(ContractError::NoNumber)
                } else if self.indexer_url is None {
                    r == Err::<Step, _>(ContractError::IndexerNotConfigured)
                } else {
                    r matches Ok(Step::QueryIndexer(body)) && body@ == query_body(
                        message.raffle_id,
                        numbers@,
                    )
                },
            },
    {
        match &message.request {
            Request::DrawNumbers(nb_numbers, smallest_number, biggest_number) => {
                let drawn = self.inner_get_numbers(
                    message.raffle_id,
                    *nb_numbers,
                    *smallest_number,
                    *biggest_number,
                );
                let ghost d = drawn;
                let r = match drawn {
                    Ok(numbers) => Ok(
                        Step::Reply(
                            LottoResponseMessage {
                                request: message,
                                response: Response::Numbers(numbers),
                            },
                        ),
                    ),
                    Err(e) => Err(e),
                };
                proof {
                    if self.consumer_config is Some {
                        let w = choose|w: Seq<Seq<u8>>|
                            w.len() == 256 && #[trigger] draw(
                                w,
                                *nb_numbers,
                                *smallest_number,
                                *biggest_number,
                            ) == numbers_view(d);
                        assert(draw_answer(
                            r,
                            message,
                            draw(w, *nb_numbers, *smallest_number, *biggest_number),
                        ));
                    }
                }
                r
            },
            Request::CheckWinners(numbers) => {
                let body = self.winners_query(message.raffle_id, numbers)?;
                Ok(Step::QueryIndexer(body))
            },
        }
    }
}

} // verus!
