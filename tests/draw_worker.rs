use std::borrow::Cow;

use lotto::draw::{draw_salt, draw_step, inner_get_number, numbers_match};
use lotto::indexer::{handle_indexer_reply, inner_get_winners, IndexerResponse};
use lotto::worker::{ContractError, Lotto, Step};
use lotto::message::{LottoRequestMessage, Request, Response};
use lotto::types::{AccountId, Number, RaffleId};

const OWNER: AccountId = [7u8; 32];
const TARGET: [u8; 32] = [9u8; 32];

/// Stands for the runtime's key derivation in tests: a fixed mix of the salt.
fn mock_random(input: Cow<[u8]>) -> Vec<u8> {
    let mut h: u64 = 0xcbf29ce484222325;
    for &b in input.iter() {
        h ^= b as u64;
        h = h.wrapping_mul(0x100000001b3);
    }
    let mut out = Vec::new();
    for _ in 0..8 {
        h ^= h >> 33;
        h = h.wrapping_mul(0xff51afd7ed558ccd);
        h ^= h >> 33;
        out.extend_from_slice(&h.to_le_bytes());
    }
    out
}

fn install_random() {
    pink_extension::chain_extension::mock::mock_derive_sr25519_key(mock_random);
}

fn expected_draw(target: [u8; 32], raffle_id: RaffleId, count: u8, min: Number, max: Number) -> Vec<Number> {
    let mut numbers = Vec::new();
    let mut i: u8 = 0;
    while numbers.len() < count as usize {
        let mut key = b"vrf:".to_vec();
        key.push(i);
        key.extend_from_slice(&raffle_id.to_be_bytes());
        key.extend_from_slice(&target);
        let out = mock_random(Cow::Owned(key));
        let mut bytes = [0u8; 8];
        bytes.copy_from_slice(&out[0..8]);
        let rand = u64::from_le_bytes(bytes) as u128;
        let n = (rand % (max as u128 - min as u128 + 1)) as Number + min;
        if !numbers.contains(&n) {
            numbers.push(n);
        }
        i += 1;
    }
    numbers
}

fn init_contract() -> Lotto {
    install_random();
    let mut lotto = Lotto::default(OWNER, [0u8; 32]);
    lotto
        .config_target_contract(OWNER, "http://localhost:9944".to_string(), 1, 2, TARGET.to_vec(), None)
        .unwrap();
    lotto.config_indexer(OWNER, "https://indexer.example".to_string()).unwrap();
    lotto
}

#[test]
fn test_get_numbers() {
    let lotto = init_contract();
    let raffle_id = 1;
    let nb_numbers = 5;
    let smallest_number = 1;
    let biggest_number = 50;
    let result = lotto
        .inner_get_numbers(raffle_id, nb_numbers, smallest_number, biggest_number)
        .unwrap();
    assert_eq!(nb_numbers as usize, result.len());
    for &n in result.iter() {
        assert!(n >= smallest_number);
        assert!(n <= biggest_number);
    }
}

#[test]
fn test_get_numbers_from_1_to_5() {
    let lotto = init_contract();
    let raffle_id = 1;
    let nb_numbers = 5;
    let smallest_number = 1;
    let biggest_number = 5;
    let result = lotto
        .inner_get_numbers(raffle_id, nb_numbers, smallest_number, biggest_number)
        .unwrap();
    assert_eq!(nb_numbers as usize, result.len());
    for &n in result.iter() {
        assert!(n >= smallest_number);
        assert!(n <= biggest_number);
    }
    let mut sorted = result.clone();
    sorted.sort();
    assert_eq!(vec![1, 2, 3, 4, 5], sorted);
}

#[test]
fn test_with_different_draw_num() {
    let lotto = init_contract();
    let nb_numbers = 5;
    let smallest_number = 1;
    let biggest_number = 50;
    let mut results = Vec::new();
    for i in 0..100 {
        let result = lotto
            .inner_get_numbers(i, nb_numbers, smallest_number, biggest_number)
            .unwrap();
        results.iter().for_each(|r| assert_ne!(result, *r));
        let result_2 = lotto
            .inner_get_numbers(i, nb_numbers, smallest_number, biggest_number)
            .unwrap();
        assert_eq!(result, result_2);
        results.push(result);
    }
}

#[test]
fn draw_follows_the_salted_random_source() {
    let lotto = init_contract();
    assert_eq!(expected_draw(TARGET, 6, 4, 1, 50), lotto.inner_get_numbers(6, 4, 1, 50).unwrap());
    assert_eq!(expected_draw(TARGET, 7, 6, 10, 20), lotto.inner_get_numbers(7, 6, 10, 20).unwrap());
}

#[test]
fn draw_errors() {
    install_random();
    let lotto = Lotto::default(OWNER, [0u8; 32]);
    assert_eq!(Err(ContractError::ClientNotConfigured), lotto.inner_get_numbers(1, 4, 1, 50));
    let lotto = init_contract();
    assert_eq!(Err(ContractError::MinGreaterThanMax), lotto.inner_get_numbers(1, 4, 50, 1));
    // two numbers cannot be drawn out of one
    assert_eq!(Err(ContractError::AddOverFlow), lotto.inner_get_numbers(1, 2, 3, 3));
    assert_eq!(Ok(vec![3]), lotto.inner_get_numbers(1, 1, 3, 3));
    assert_eq!(Ok(vec![]), lotto.inner_get_numbers(1, 0, 1, 50));
}

#[test]
fn number_from_random_bytes() {
    let mut output = vec![1u8, 0, 0, 0, 0, 0, 0, 0];
    output.extend_from_slice(&[0xaa; 56]);
    assert_eq!(Ok(2), inner_get_number(&output, 1, 50));
    assert_eq!(Ok(16), inner_get_number(&vec![0xff; 8], 1, 50));
    assert_eq!(Ok(0xffff), inner_get_number(&vec![0xff; 8], 0, 0xffff));
    assert_eq!(Ok(7), inner_get_number(&vec![0x12; 8], 7, 7));
    assert_eq!(Err(ContractError::InvalidRandomOutput), inner_get_number(&vec![0xff; 7], 1, 50));
    assert_eq!(Err(ContractError::SubOverFlow), inner_get_number(&vec![0xff; 8], 2, 1));
}

#[test]
fn test_verify_numbers() {
    let lotto = init_contract();
    let raffle_id = 1;
    let nb_numbers = 5;
    let smallest_number = 1;
    let biggest_number = 50;
    let numbers = lotto
        .inner_get_numbers(raffle_id, nb_numbers, smallest_number, biggest_number)
        .unwrap();
    assert_eq!(
        Ok(true),
        lotto.inner_verify_numbers(raffle_id, nb_numbers, smallest_number, biggest_number, numbers.clone())
    );
    assert_eq!(
        Ok(false),
        lotto.inner_verify_numbers(raffle_id + 1, nb_numbers, smallest_number, biggest_number, numbers.clone())
    );
}

#[test]
fn test_verify_numbers_with_bad_contract_id() {
    let mut lotto = init_contract();
    let raffle_id = 1;
    let nb_numbers = 5;
    let smallest_number = 1;
    let biggest_number = 50;
    let numbers = lotto
        .inner_get_numbers(raffle_id, nb_numbers, smallest_number, biggest_number)
        .unwrap();
    assert_eq!(
        Ok(true),
        lotto.inner_verify_numbers(raffle_id, nb_numbers, smallest_number, biggest_number, numbers.clone())
    );
    let target_contract = lotto.get_target_contract().unwrap();
    let bad_contract_id: [u8; 32] = [0; 32];
    lotto
        .config_target_contract(
            OWNER,
            target_contract.0,
            target_contract.1,
            target_contract.2,
            bad_contract_id.to_vec(),
            None,
        )
        .unwrap();
    assert_eq!(
        Ok(false),
        lotto.inner_verify_numbers(raffle_id, nb_numbers, smallest_number, biggest_number, numbers.clone())
    );
}

#[test]
fn verify_numbers_only_for_past_raffles() {
    let lotto = init_contract();
    let numbers = lotto.inner_get_numbers(3, 4, 1, 50).unwrap();
    let mut reordered = numbers.clone();
    reordered.reverse();
    assert_eq!(Ok(true), lotto.verify_numbers(TARGET, 3, 4, 1, 50, reordered, Some(3)));
    assert_eq!(
        Err(ContractError::UnauthorizedRaffle),
        lotto.verify_numbers(TARGET, 3, 4, 1, 50, numbers.clone(), Some(2))
    );
    assert_eq!(
        Err(ContractError::CurrentRaffleUnknown),
        lotto.verify_numbers(TARGET, 3, 4, 1, 50, numbers.clone(), None)
    );
    assert_eq!(
        Err(ContractError::InvalidContractId),
        lotto.verify_numbers([0u8; 32], 3, 4, 1, 50, numbers.clone(), Some(3))
    );
    let mut shorter = numbers.clone();
    shorter.pop();
    assert_eq!(Ok(false), lotto.verify_numbers(TARGET, 3, 4, 1, 50, shorter, Some(3)));
}

#[test]
fn numbers_match_as_sets() {
    assert!(numbers_match(&vec![1, 2, 3], &vec![3, 1, 2]));
    assert!(!numbers_match(&vec![1, 2], &vec![1, 1]));
    assert!(!numbers_match(&vec![1, 2], &vec![1, 2, 3]));
    assert!(!numbers_match(&vec![1, 2], &vec![1, 4]));
    assert!(numbers_match(&vec![], &vec![]));
}

#[test]
fn test_no_number() {
    let lotto = init_contract();
    let numbers: Vec<Number> = vec![];
    assert_eq!(Err(ContractError::NoNumber), lotto.winners_query(0, &numbers));
}

#[test]
fn winners_query_body() {
    let lotto = init_contract();
    let body = lotto.winners_query(2, &vec![15, 1]).unwrap();
    let expected = r#"{"query" : "{participations(filter:{and:[{numRaffle:{equalTo:\"2\"}},{numbers:{contains:\"15\"}},{numbers:{contains:\"1\"}}]}){ nodes { accountId } } }"}"#;
    assert_eq!(expected.as_bytes(), body.as_slice());
    let unconfigured = Lotto::default(OWNER, [0u8; 32]);
    assert_eq!(Err(ContractError::IndexerNotConfigured), unconfigured.winners_query(2, &vec![15]));
}

#[test]
fn winners_from_indexer_answer() {
    let alice = "5GrwvaEF5zXb26Fz9rcQpDWS57CtERHpNehXCPcNoHGKutQY".to_string();
    let bob = "5FHneW46xGXgs5mUiveU4sbTyGBzmstUspZC92UhjJM694ty".to_string();
    let alice_id: AccountId = [
        0xd4, 0x35, 0x93, 0xc7, 0x15, 0xfd, 0xd3, 0x1c, 0x61, 0x14, 0x1a, 0xbd, 0x04, 0xa9, 0x9f,
        0xd6, 0x82, 0x2c, 0x85, 0x58, 0x85, 0x4c, 0xcd, 0xe3, 0x9a, 0x56, 0x84, 0xe7, 0xa5, 0x6d,
        0xa2, 0x7d,
    ];
    let bob_id: AccountId = [
        0x8e, 0xaf, 0x04, 0x15, 0x16, 0x87, 0x73, 0x63, 0x26, 0xc9, 0xfe, 0xa1, 0x7e, 0x25, 0xfc,
        0x52, 0x87, 0x61, 0x36, 0x93, 0xc9, 0x12, 0x90, 0x9c, 0xb2, 0x26, 0xaa, 0x47, 0x94, 0xf2,
        0x6a, 0x48,
    ];
    let answer = Some(IndexerResponse { account_ids: vec![alice.clone(), bob.clone()] });
    assert_eq!(Ok(vec![alice_id, bob_id]), inner_get_winners(200, &answer));
    let empty = Some(IndexerResponse { account_ids: vec![] });
    assert_eq!(Ok(vec![]), inner_get_winners(200, &empty));
    assert_eq!(Err(ContractError::HttpRequestFailed), inner_get_winners(500, &answer));
    assert_eq!(Err(ContractError::InvalidResponseBody), inner_get_winners(200, &None));
    let bad = Some(IndexerResponse { account_ids: vec![alice, "not an address".to_string()] });
    assert_eq!(Err(ContractError::InvalidSs58Address), inner_get_winners(200, &bad));

    let request = LottoRequestMessage { raffle_id: 4, request: Request::CheckWinners(vec![1, 2]) };
    let reply = handle_indexer_reply(request.clone(), 200, &Some(IndexerResponse { account_ids: vec![bob] })).unwrap();
    assert_eq!(request, reply.request);
    assert_eq!(Response::Winners(vec![bob_id]), reply.response);
}

#[test]
fn requests_are_handled() {
    let lotto = init_contract();
    let request = LottoRequestMessage { raffle_id: 6, request: Request::DrawNumbers(4, 1, 50) };
    match lotto.handle_request(request.clone()).unwrap() {
        Step::Reply(response) => {
            assert_eq!(request, response.request);
            assert_eq!(Response::Numbers(expected_draw(TARGET, 6, 4, 1, 50)), response.response);
        }
        Step::QueryIndexer(_) => panic!("a draw needs no query"),
    }
    let request = LottoRequestMessage { raffle_id: 6, request: Request::CheckWinners(vec![4]) };
    match lotto.handle_request(request).unwrap() {
        Step::QueryIndexer(body) => assert_eq!(lotto.winners_query(6, &vec![4]).unwrap(), body),
        Step::Reply(_) => panic!("winners need a query"),
    }
    let request = LottoRequestMessage { raffle_id: 6, request: Request::CheckWinners(vec![]) };
    assert!(matches!(lotto.handle_request(request), Err(ContractError::NoNumber)));
}

#[test]
fn worker_is_configured_by_its_owner() {
    let mut lotto = Lotto::default(OWNER, [0u8; 32]);
    let stranger: AccountId = [8u8; 32];
    assert_eq!(
        Err(ContractError::BadOrigin),
        lotto.config_indexer(stranger, "https://indexer.example".to_string())
    );
    assert_eq!(None, lotto.get_indexer_url());
    assert_eq!(
        Err(ContractError::InvalidAddressLength),
        lotto.config_target_contract(OWNER, "rpc".to_string(), 1, 2, vec![1; 31], None)
    );
    assert_eq!(
        Err(ContractError::InvalidKeyLength),
        lotto.config_target_contract(OWNER, "rpc".to_string(), 1, 2, vec![1; 32], Some(vec![2; 33]))
    );
    assert_eq!(None, lotto.get_target_contract());
    assert_eq!(
        Ok(()),
        lotto.config_target_contract(OWNER, "rpc".to_string(), 1, 2, vec![1; 32], Some(vec![2; 32]))
    );
    assert_eq!(Some(("rpc".to_string(), 1, 2, [1; 32])), lotto.get_target_contract());
    assert_eq!(Err(ContractError::BadOrigin), lotto.transfer_ownership(stranger, stranger));
    assert_eq!(Ok(()), lotto.transfer_ownership(OWNER, stranger));
    assert_eq!(stranger, lotto.owner());
}

#[test]
fn draw_step_keeps_new_numbers_only() {
    let mut output = vec![1u8, 0, 0, 0, 0, 0, 0, 0];
    output.extend_from_slice(&[0x55; 24]);
    // these bytes select 2 in [1, 50]
    assert_eq!(Ok(vec![7, 2]), draw_step(&vec![7], &output, 1, 50));
    assert_eq!(Ok(vec![2, 7]), draw_step(&vec![2, 7], &output, 1, 50));
    assert_eq!(Ok(vec![2]), draw_step(&vec![], &output, 1, 50));
    assert_eq!(Err(ContractError::InvalidRandomOutput), draw_step(&vec![7], &vec![1, 2, 3], 1, 50));
    assert_eq!(Err(ContractError::SubOverFlow), draw_step(&vec![7], &output, 50, 1));
}

#[test]
fn draw_salt_layout() {
    let salt = draw_salt(3, 0x01020304, &TARGET);
    let mut expected = vec![3u8, 1, 2, 3, 4];
    expected.extend_from_slice(&TARGET);
    assert_eq!(expected, salt);
}
