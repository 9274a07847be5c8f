use sp_core::crypto::{AccountId32, Ss58Codec};
use vstd::prelude::*;
use vstd::string::StringSliceAdditionalSpecFns;

use crate::message::{LottoRequestMessage, LottoResponseMessage, Response};
use crate::types::{AccountId, Number, RaffleId};
use crate::worker::ContractError;

verus! {

/// The 32 bytes of the account that the SS58 text `address` encodes, if it
/// is a well-formed SS58 address.
pub uninterp spec fn ss58_account(address: Seq<char>) -> Option<Seq<u8>>;

/// Relies on `sp_core`'s `Ss58Codec::from_ss58check_with_version` for
/// `AccountId32`, which decodes the base-58 text, checks its length, its
/// address format and its checksum, and depends on the text alone.
#[verifier::external_body]
fn account_from_ss58(address: &str) -> (r: Option<AccountId>)
    ensures
        match r {
            Some(a) => ss58_account(address@) == Some(a@),
            None => ss58_account(address@) is None,
        },
{
    match AccountId32::from_ss58check_with_version(address) {
        Ok((account, _)) => Some(account.into()),
        Err(_) => None,
    }
}

/// The decimal digits of `n`, in ASCII.
pub open spec fn decimal(n: nat) -> Seq<u8>
    decreases n,
{
    if n < 10 {
        seq![(48 + n) as u8]
    } else {
        decimal(n / 10).push((48 + n % 10) as u8)
    }
}

/// One clause of the participation filter per number: the picks must
/// contain it.
pub open spec fn number_filters(numbers: Seq<Number>) -> Seq<u8>
    decreases numbers.len(),
{
    if numbers.len() == 0 {
        seq![]
    } else {
        number_filters(numbers.drop_last()) + ",{numbers:{contains:\\\"".spec_bytes() + decimal(
            numbers.last() as nat,
        ) + "\\\"}}".spec_bytes()
    }
}

/// The GraphQL body that asks the participation index for the accounts
/// whose picks for `raffle_id` contain all of `numbers`.
pub open spec fn query_body(raffle_id: RaffleId, numbers: Seq<Number>) -> Seq<u8> {
    "{\"query\" : \"{participations(filter:{and:[{numRaffle:{equalTo:\\\"".spec_bytes() + decimal(
        raffle_id as nat,
    ) + "\\\"}}".spec_bytes() + number_filters(numbers) + "]}){ nodes { accountId } } }\"}".spec_bytes()
}

/// What the participation index answered: the SS58 addresses of the
/// matching participants.
#[derive(Debug, Clone, PartialEq)]
pub struct IndexerResponse {
    pub account_ids: Vec<String>,
}

/// Appends the bytes of `s` to `v`.
pub(crate) fn push_str_bytes(v: &mut Vec<u8>, s: &str)
    ensures
        final(v)@ == old(v)@ + s.spec_bytes(),
{
    let bytes = s.as_bytes();
    let mut k: usize = 0;
    while k < bytes.len()
        invariant
            bytes@ == s.spec_bytes(),
            k <= bytes@.len(),
            v@ == old(v)@ + bytes@.subrange(0, k as int),
        decreases bytes@.len() - k,
    {
        v.push(bytes[k]);
        k = k + 1;
        assert(bytes@.subrange(0, k as int) =~= bytes@.subrange(0, k - 1).push(bytes@[k - 1]));
    }
    assert(bytes@.subrange(0, bytes@.len() as int) =~= bytes@);
}

/// Appends the decimal digits of `n` to `v`.
pub(crate) fn push_decimal(v: &mut Vec<u8>, n: u32)
    ensures
        final(v)@ == old(v)@ + decimal(n as nat),
    decreases n,
{
    if n >= 10 {
        push_decimal(v, n / 10);
    }
    v.push((48 + n % 10) as u8);
    assert(v@ =~= old(v)@ + decimal(n as nat));
}

/// The winners that the participation index answered: the answer must have
/// status 200 and a body that could be read, and each address must be a
/// valid SS58 address.
pub fn inner_get_winners(status_code: u16, response: &Option<IndexerResponse>) -> (r: Result<
    Vec<AccountId>,
    ContractError,
>)
    ensures
        status_code != 200 ==> r == Err::<Vec<AccountId>, _>(ContractError::HttpRequestFailed),
        status_code == 200 && response is None ==> r == Err::<Vec<AccountId>, _>(
            ContractError::InvalidResponseBody,
        ),
        status_code == 200 ==> match *response {
            None => true,
            Some(resp) => if exists|k: int|
                0 <= k < resp.account_ids@.len() && (#[trigger] ss58_account(
                    resp.account_ids@[k]@,
                )) is None {
                r == Err::<Vec<AccountId>, _>(ContractError::InvalidSs58Address)
            } else {
                match r {
                    Ok(v) => v@.len() == resp.account_ids@.len() && forall|k: int|
                        0 <= k < v@.len() ==> ss58_account(resp.account_ids@[k]@) == Some(
                            #[trigger] v@[k]@,
                        ),
                    Err(_) => false,
                }
            },
        },
{
    if status_code != 200 {
        return Err(ContractError::HttpRequestFailed);
    }
    let resp = match response {
        Some(resp) => resp,
        None => return Err(ContractError::InvalidResponseBody),
    };
    let mut winners: Vec<AccountId> = Vec::new();
    let mut k: usize = 0;
    while k < resp.account_ids.len()
        invariant
            status_code == 200,
            *response == Some(*resp),
            k <= resp.account_ids@.len(),
            winners@.len() == k,
            forall|j: int|
                0 <= j < k ==> ss58_account(resp.account_ids@[j]@) == Some(#[trigger] winners@[j]@),
        decreases resp.account_ids@.len() - k,
    {
        match account_from_ss58(resp.account_ids[k].as_str()) {
            Some(account) => winners.push(account),
            None => return Err(ContractError::InvalidSs58Address),
        }
        k = k + 1;
    }
    proof {
        assert forall|j: int| 0 <= j < resp.account_ids@.len() implies (#[trigger] ss58_account(
            resp.account_ids@[j]@,
        )) is Some by {
            assert(ss58_account(resp.account_ids@[j]@) == Some(winners@[j]@));
        }
    }
    Ok(winners)
}

/// The response to the winners request `message`, from what the
/// participation index answered.
pub fn handle_indexer_reply(
    message: LottoRequestMessage,
    status_code: u16,
    response: &Option<IndexerResponse>,
) -> (r: Result<LottoResponseMessage, ContractError>)
    ensures
        match inner_get_winners_outcome(status_code, *response) {
            Err(e) => r == Err::<LottoResponseMessage, _>(e),
            Ok(_) => match r {
                Ok(m) => m.request == message && match m.response {
                    Response::Winners(v) => v@.len() == response->Some_0.account_ids@.len()
                        && forall|k: int|
                        0 <= k < v@.len() ==> ss58_account(response->Some_0.account_ids@[k]@)
                            == Some(#[trigger] v@[k]@),
                    _ => false,
                },
                Err(_) => false,
            },
        },
{
    let winners = inner_get_winners(status_code, response)?;
    Ok(LottoResponseMessage { request: message, response: Response::Winners(winners) })
}

/// Whether the participation index's answer can be turned into winners, and
/// if not, why.
pub open spec fn inner_get_winners_outcome(status_code: u16, response: Option<IndexerResponse>) -> Result<
    (),
    ContractError,
> {
    if status_code != 200 {
        Err(ContractError::HttpRequestFailed)
    } else {
        match response {
            None => Err(ContractError::InvalidResponseBody),
            Some(resp) => if exists|k: int|
                0 <= k < resp.account_ids@.len() && (#[trigger] ss58_account(resp.account_ids@[k]@)) is None {
                Err(ContractError::InvalidSs58Address)
            } else {
                Ok(())
            },
        }
    }
}

} // verus!
