use lotto::config::Config;
use lotto::error::RaffleError;
use lotto::lotto_contract::{Contract, ContractError, Event, RaffleStarted};
use lotto::message::{LottoRequestMessage, LottoResponseMessage, Request, Response};
use lotto::raffle::{self, Status};
use lotto::types::{AccountId, Balance, Number, RaffleId};

const ALICE: AccountId = [1u8; 32];
const BOB: AccountId = [2u8; 32];
const CHARLIE: AccountId = [3u8; 32];
const DAVE: AccountId = [4u8; 32];

fn config() -> Config {
    Config { nb_numbers: 4, min_number: 1, max_number: 50 }
}

fn numbers_response(raffle_id: RaffleId, numbers: Vec<Number>) -> LottoResponseMessage {
    LottoResponseMessage {
        request: LottoRequestMessage { raffle_id, request: Request::DrawNumbers(4, 1, 50) },
        response: Response::Numbers(numbers),
    }
}

fn winners_response(
    raffle_id: RaffleId,
    numbers: Vec<Number>,
    winners: Vec<AccountId>,
) -> LottoResponseMessage {
    LottoResponseMessage {
        request: LottoRequestMessage { raffle_id, request: Request::CheckWinners(numbers) },
        response: Response::Winners(winners),
    }
}

fn configured() -> Contract {
    let mut contract = Contract::new();
    contract.set_config(config()).unwrap();
    contract
}

fn send(contract: &mut Contract, message: LottoResponseMessage, balance: Balance) {
    contract.on_message_received(message, balance).unwrap();
}

#[test]
fn test_raffles() {
    let mut contract = configured();

    let mut raffle_id = contract.start_raffle().unwrap();
    assert_eq!(1, raffle_id);
    assert_eq!(1, contract.get_current_raffle_id());
    assert_eq!(Status::Ongoing, contract.get_current_status());
    assert_eq!(None, contract.get_results(raffle_id));
    assert_eq!(None, contract.get_winners(raffle_id));

    contract.participate(DAVE, vec![5, 40, 8, 2]).unwrap();
    contract.participate(DAVE, vec![3, 6, 7, 5]).unwrap();
    contract.participate(DAVE, vec![12, 4, 6, 2]).unwrap();
    contract.participate(DAVE, vec![15, 44, 4, 1]).unwrap();
    contract.participate(CHARLIE, vec![50, 3, 8, 2]).unwrap();
    contract.participate(CHARLIE, vec![34, 6, 2, 5]).unwrap();
    contract.participate(CHARLIE, vec![12, 4, 6, 4]).unwrap();

    contract.complete_raffle().unwrap();
    assert_eq!(Status::WaitingResults, contract.get_current_status());
    assert_eq!(None, contract.get_last_raffle_for_verif());
    assert_eq!(
        Some(&LottoRequestMessage { raffle_id: 1, request: Request::DrawNumbers(4, 1, 50) }),
        contract.messages.last()
    );

    let results: Vec<Number> = vec![5, 40, 8, 2];
    send(&mut contract, numbers_response(raffle_id, results.clone()), 100);
    assert_eq!(Status::WaitingWinners, contract.get_current_status());
    assert_eq!(Some(1), contract.get_last_raffle_for_verif());
    assert_eq!(
        Some(&LottoRequestMessage { raffle_id: 1, request: Request::CheckWinners(results.clone()) }),
        contract.messages.last()
    );

    send(&mut contract, winners_response(raffle_id, results, vec![DAVE]), 100);
    assert_eq!(Status::Closed, contract.get_current_status());
    assert_eq!(100, contract.get_total_pending_rewards());
    assert_eq!(Some(100), contract.get_pending_rewards_from(DAVE));

    // funded again: the contract now holds 200
    raffle_id = contract.start_raffle().unwrap();
    assert_eq!(2, raffle_id);
    assert_eq!(Status::Ongoing, contract.get_current_status());
    contract.participate(DAVE, vec![5, 40, 8, 2]).unwrap();
    contract.complete_raffle().unwrap();
    assert_eq!(Status::WaitingResults, contract.get_current_status());
    assert_eq!(Some(1), contract.get_last_raffle_for_verif());

    let results: Vec<Number> = vec![8, 10, 4, 1];
    send(&mut contract, numbers_response(raffle_id, results.clone()), 200);
    assert_eq!(Status::WaitingWinners, contract.get_current_status());
    assert_eq!(Some(2), contract.get_last_raffle_for_verif());

    // no winner: the next raffle starts by itself
    send(&mut contract, winners_response(raffle_id, results, vec![]), 200);
    assert_eq!(Status::Ongoing, contract.get_current_status());
    raffle_id = raffle_id + 1;
    assert_eq!(raffle_id, contract.get_current_raffle_id());

    // funded again: the contract now holds 300
    contract.participate(DAVE, vec![5, 40, 8, 2]).unwrap();
    contract.participate(CHARLIE, vec![5, 40, 8, 2]).unwrap();
    contract.complete_raffle().unwrap();
    let results: Vec<Number> = vec![8, 10, 4, 2];
    send(&mut contract, numbers_response(raffle_id, results.clone()), 300);
    send(&mut contract, winners_response(raffle_id, results, vec![DAVE, CHARLIE]), 300);

    assert_eq!(Some(vec![5, 40, 8, 2]), contract.get_results(1));
    assert_eq!(Some(vec![DAVE]), contract.get_winners(1));
    assert_eq!(Some(vec![8, 10, 4, 1]), contract.get_results(2));
    assert_eq!(Some(vec![]), contract.get_winners(2));
    assert_eq!(Some(vec![8, 10, 4, 2]), contract.get_results(3));
    assert_eq!(Some(vec![DAVE, CHARLIE]), contract.get_winners(3));

    assert_eq!(300, contract.get_total_pending_rewards());
    assert_eq!(Ok(200), contract.claim_from(DAVE));
    assert_eq!(Ok(100), contract.claim_from(CHARLIE));
    assert_eq!(None, contract.get_pending_rewards_from(BOB));
    assert_eq!(0, contract.get_total_pending_rewards());
}

#[test]
fn scenario_single_winner_takes_the_pot() {
    let mut contract = configured();
    assert_eq!(Ok(1), contract.start_raffle());
    contract.participate(DAVE, vec![5, 40, 8, 2]).unwrap();
    contract.participate(ALICE, vec![1, 2, 3, 4]).unwrap();
    contract.complete_raffle().unwrap();
    assert_eq!(Status::WaitingResults, contract.get_current_status());
    send(&mut contract, numbers_response(1, vec![5, 40, 8, 2]), 1000);
    assert_eq!(Status::WaitingWinners, contract.get_current_status());
    assert_eq!(Some(vec![5, 40, 8, 2]), contract.get_results(1));
    send(&mut contract, winners_response(1, vec![5, 40, 8, 2], vec![DAVE]), 1000);
    assert_eq!(Status::Closed, contract.get_current_status());
    assert_eq!(Some(1000), contract.get_pending_rewards_from(DAVE));
    assert_eq!(None, contract.get_pending_rewards_from(ALICE));
}

#[test]
fn replayed_numbers_are_refused() {
    let mut contract = configured();
    contract.start_raffle().unwrap();
    contract.complete_raffle().unwrap();
    send(&mut contract, numbers_response(1, vec![5, 40, 8, 2]), 0);
    assert_eq!(
        Err(ContractError::RaffleError(RaffleError::ExistingResults)),
        contract.on_message_received(numbers_response(1, vec![5, 40, 8, 2]), 0)
    );
    assert_eq!(
        Err(ContractError::RaffleError(RaffleError::ExistingResults)),
        contract.on_message_received(numbers_response(1, vec![1, 2, 3, 4]), 0)
    );
    assert_eq!(Some(vec![5, 40, 8, 2]), contract.get_results(1));
    assert_eq!(Status::WaitingWinners, contract.get_current_status());
}

#[test]
fn replayed_winners_are_refused() {
    let mut contract = configured();
    contract.start_raffle().unwrap();
    contract.complete_raffle().unwrap();
    send(&mut contract, numbers_response(1, vec![5, 40, 8, 2]), 0);
    send(&mut contract, winners_response(1, vec![5, 40, 8, 2], vec![DAVE]), 90);
    assert_eq!(
        Err(ContractError::RaffleError(RaffleError::ExistingWinners)),
        contract.on_message_received(winners_response(1, vec![5, 40, 8, 2], vec![DAVE]), 180)
    );
    assert_eq!(Some(90), contract.get_pending_rewards_from(DAVE));
    assert_eq!(90, contract.get_total_pending_rewards());
}

#[test]
fn replayed_empty_winners_are_refused() {
    let mut contract = configured();
    contract.start_raffle().unwrap();
    contract.complete_raffle().unwrap();
    send(&mut contract, numbers_response(1, vec![5, 40, 8, 2]), 0);
    send(&mut contract, winners_response(1, vec![5, 40, 8, 2], vec![]), 0);
    assert_eq!(2, contract.get_current_raffle_id());
    assert_eq!(
        Err(ContractError::RaffleError(RaffleError::IncorrectRaffle)),
        contract.on_message_received(winners_response(1, vec![5, 40, 8, 2], vec![]), 0)
    );
    assert_eq!(2, contract.get_current_raffle_id());
    assert_eq!(Status::Ongoing, contract.get_current_status());
}

#[test]
fn no_winner_starts_next_raffle() {
    let mut contract = configured();
    contract.start_raffle().unwrap();
    contract.complete_raffle().unwrap();
    send(&mut contract, numbers_response(1, vec![1, 2, 3, 4]), 0);
    let before = contract.events.len();
    send(&mut contract, winners_response(1, vec![1, 2, 3, 4], vec![]), 0);
    assert_eq!(Status::Ongoing, contract.get_current_status());
    assert_eq!(2, contract.get_current_raffle_id());
    assert_eq!(before + 2, contract.events.len());
    assert_eq!(Event::RaffleStarted(RaffleStarted { raffle_id: 2 }), contract.events[before + 1]);
}

#[test]
fn results_need_waiting_status() {
    let mut contract = configured();
    contract.start_raffle().unwrap();
    assert_eq!(
        Err(ContractError::RaffleError(RaffleError::IncorrectStatus)),
        contract.on_message_received(numbers_response(1, vec![5, 40, 8, 2]), 0)
    );
    assert_eq!(None, contract.get_results(1));
}

#[test]
fn results_are_set_once() {
    let mut data = raffle::Data::new();
    data.start_new_raffle().unwrap();
    assert_eq!(Err(RaffleError::IncorrectStatus), data.set_results(1, vec![1, 2]));
    data.stop_current_raffle().unwrap();
    assert_eq!(Err(RaffleError::IncorrectRaffle), data.set_results(2, vec![1, 2]));
    assert_eq!(Ok(()), data.set_results(1, vec![1, 2]));
    assert_eq!(Err(RaffleError::ExistingResults), data.set_results(1, vec![3, 4]));
    assert_eq!(Some(vec![1, 2]), data.get_results(1));
    assert_eq!(Ok(()), data.ensure_same_results(1, &[1, 2]));
    assert_eq!(Err(RaffleError::DifferentResults), data.ensure_same_results(1, &[2, 1]));
    assert_eq!(Err(RaffleError::DifferentResults), data.ensure_same_results(1, &[1]));
    assert_eq!(Err(RaffleError::DifferentResults), data.ensure_same_results(2, &[1, 2]));
    assert_eq!(Ok(()), data.set_winners(1, vec![ALICE]));
    assert_eq!(Err(RaffleError::ExistingWinners), data.set_winners(1, vec![BOB]));
    assert_eq!(Some(vec![ALICE]), data.get_winners(1));
    assert_eq!(Status::Closed, data.get_current_status());
}

#[test]
fn state_machine_guards() {
    let mut data = raffle::Data::new();
    assert_eq!(Err(RaffleError::IncorrectStatus), data.stop_current_raffle());
    assert_eq!(Err(RaffleError::IncorrectStatus), data.can_participate());
    assert_eq!(Ok(1), data.start_new_raffle());
    assert_eq!(Err(RaffleError::IncorrectStatus), data.start_new_raffle());
    assert_eq!(Ok(()), data.can_participate());
    assert_eq!(Err(RaffleError::IncorrectStatus), data.set_winners(1, vec![]));
}

#[test]
fn config_is_checked() {
    let mut contract = Contract::new();
    assert_eq!(
        Err(RaffleError::IncorrectConfig),
        contract.set_config(Config { nb_numbers: 0, min_number: 1, max_number: 50 })
    );
    assert_eq!(
        Err(RaffleError::IncorrectConfig),
        contract.set_config(Config { nb_numbers: 4, min_number: 50, max_number: 50 })
    );
    assert_eq!(None, contract.get_config());
    assert_eq!(Ok(()), contract.set_config(config()));
    assert_eq!(Some(config()), contract.get_config());
    contract.start_raffle().unwrap();
    assert_eq!(Err(RaffleError::IncorrectStatus), contract.set_config(config()));
}

#[test]
fn participation_is_checked() {
    let mut contract = Contract::new();
    assert_eq!(
        Err(ContractError::RaffleError(RaffleError::ConfigNotSet)),
        contract.participate(ALICE, vec![1, 2, 3, 4])
    );
    contract.set_config(config()).unwrap();
    assert_eq!(
        Err(ContractError::RaffleError(RaffleError::IncorrectStatus)),
        contract.participate(ALICE, vec![1, 2, 3, 4])
    );
    contract.start_raffle().unwrap();
    assert_eq!(
        Err(ContractError::RaffleError(RaffleError::IncorrectNbNumbers)),
        contract.participate(ALICE, vec![1, 2, 3])
    );
    assert_eq!(
        Err(ContractError::RaffleError(RaffleError::IncorrectNumbers)),
        contract.participate(ALICE, vec![1, 2, 3, 51])
    );
    assert_eq!(
        Err(ContractError::RaffleError(RaffleError::IncorrectNumbers)),
        contract.participate(ALICE, vec![0, 2, 3, 4])
    );
    let before = contract.events.len();
    assert_eq!(Ok(()), contract.participate(ALICE, vec![1, 2, 3, 50]));
    assert_eq!(before + 1, contract.events.len());
}

#[test]
fn batch_participation_is_all_or_nothing() {
    let mut contract = configured();
    contract.start_raffle().unwrap();
    let before = contract.events.len();
    assert_eq!(
        Err(ContractError::RaffleError(RaffleError::IncorrectNumbers)),
        contract.participate_batch(ALICE, vec![vec![1, 2, 3, 4], vec![1, 2, 3, 99]])
    );
    assert_eq!(before, contract.events.len());
    assert_eq!(Ok(()), contract.participate_batch(ALICE, vec![vec![1, 2, 3, 4], vec![5, 6, 7, 8]]));
    assert_eq!(before + 2, contract.events.len());
}

#[test]
fn complete_raffle_needs_ongoing_raffle_and_config() {
    let mut contract = Contract::new();
    assert_eq!(
        Err(ContractError::RaffleError(RaffleError::IncorrectStatus)),
        contract.complete_raffle()
    );
    contract.start_raffle().unwrap();
    assert_eq!(
        Err(ContractError::RaffleError(RaffleError::ConfigNotSet)),
        contract.complete_raffle()
    );
    assert_eq!(Status::Ongoing, contract.get_current_status());
    assert!(contract.messages.is_empty());
}

#[test]
fn responses_must_match_their_request() {
    let mut contract = configured();
    contract.start_raffle().unwrap();
    contract.complete_raffle().unwrap();
    let crossed = LottoResponseMessage {
        request: LottoRequestMessage { raffle_id: 1, request: Request::CheckWinners(vec![1]) },
        response: Response::Numbers(vec![1, 2, 3, 4]),
    };
    assert_eq!(Err(ContractError::UnsupportedAction), contract.on_message_received(crossed, 0));
    let crossed = LottoResponseMessage {
        request: LottoRequestMessage { raffle_id: 1, request: Request::DrawNumbers(4, 1, 50) },
        response: Response::Winners(vec![ALICE]),
    };
    assert_eq!(Err(ContractError::UnsupportedAction), contract.on_message_received(crossed, 0));
    let other_config = LottoResponseMessage {
        request: LottoRequestMessage { raffle_id: 1, request: Request::DrawNumbers(5, 1, 50) },
        response: Response::Numbers(vec![1, 2, 3, 4]),
    };
    assert_eq!(
        Err(ContractError::RaffleError(RaffleError::DifferentConfig)),
        contract.on_message_received(other_config, 0)
    );
    assert_eq!(
        Err(ContractError::RaffleError(RaffleError::IncorrectNbNumbers)),
        contract.on_message_received(numbers_response(1, vec![1, 2, 3]), 0)
    );
    send(&mut contract, numbers_response(1, vec![1, 2, 3, 4]), 0);
    assert_eq!(
        Err(ContractError::RaffleError(RaffleError::DifferentResults)),
        contract.on_message_received(winners_response(1, vec![4, 3, 2, 1], vec![ALICE]), 0)
    );
}

#[test]
fn winners_need_enough_balance() {
    let mut contract = configured();
    contract.start_raffle().unwrap();
    contract.complete_raffle().unwrap();
    send(&mut contract, numbers_response(1, vec![1, 2, 3, 4]), 0);
    send(&mut contract, winners_response(1, vec![1, 2, 3, 4], vec![ALICE]), 500);
    contract.start_raffle().unwrap();
    contract.complete_raffle().unwrap();
    send(&mut contract, numbers_response(2, vec![1, 2, 3, 5]), 0);
    assert_eq!(
        Err(ContractError::RaffleError(RaffleError::AddOverFlow)),
        contract.on_message_received(winners_response(2, vec![1, 2, 3, 5], vec![BOB]), 400)
    );
    assert_eq!(Status::WaitingWinners, contract.get_current_status());
    assert_eq!(None, contract.get_winners(2));
}

#[test]
fn claim_without_reward_fails() {
    let mut contract = Contract::new();
    assert_eq!(
        Err(ContractError::RaffleError(RaffleError::NoReward)),
        contract.claim_from(ALICE)
    );
}
