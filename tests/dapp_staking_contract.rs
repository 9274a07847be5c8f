use lotto::dapp_staking::{Contract, ContractError, ILoveAstar, ILoveLucky, OwnershipTransferred};
use lotto::types::AccountId;

const OWNER: AccountId = [1u8; 32];
const OTHER: AccountId = [2u8; 32];
const SELF_ADDRESS: AccountId = [3u8; 32];

#[test]
fn ownership_moves_only_by_the_owner() {
    let (mut contract, event) = Contract::new(OWNER, SELF_ADDRESS);
    assert_eq!(OwnershipTransferred { contract: SELF_ADDRESS, previous: None, new: Some(OWNER) }, event);
    assert_eq!(Some(OWNER), contract.owner());
    assert_eq!(
        Err(ContractError::CallerIsNotOwner),
        contract.transfer_ownership(OTHER, SELF_ADDRESS, Some(OTHER))
    );
    assert_eq!(
        Err(ContractError::NewOwnerIsNotSet),
        contract.transfer_ownership(OWNER, SELF_ADDRESS, None)
    );
    assert_eq!(
        Ok(OwnershipTransferred { contract: SELF_ADDRESS, previous: Some(OWNER), new: Some(OTHER) }),
        contract.transfer_ownership(OWNER, SELF_ADDRESS, Some(OTHER))
    );
    assert_eq!(
        Ok(OwnershipTransferred { contract: SELF_ADDRESS, previous: Some(OTHER), new: None }),
        contract.renounce_ownership(OTHER, SELF_ADDRESS)
    );
    assert_eq!(None, contract.owner());
    assert_eq!(Err(ContractError::CallerIsNotOwner), contract.renounce_ownership(OTHER, SELF_ADDRESS));
}

#[test]
fn deployment_addresses() {
    let (mut contract, _) = Contract::new(OWNER, SELF_ADDRESS);
    assert!(!contract.lotto_is_deployed_on_astar_substrate());
    assert!(!contract.lotto_is_deployed_on_astar_zk_evm());
    assert_eq!(Err(ContractError::CallerIsNotOwner), contract.set_substrate_address(OTHER, OTHER));
    assert_eq!(Ok(()), contract.set_substrate_address(OWNER, OTHER));
    assert_eq!(Some(OTHER), contract.get_substrate_address());
    assert!(contract.lotto_is_deployed_on_astar_substrate());
    assert_eq!(Err(ContractError::CallerIsNotOwner), contract.set_zk_evm_address(OTHER, [5u8; 20]));
    assert_eq!(Ok(()), contract.set_zk_evm_address(OWNER, [5u8; 20]));
    assert_eq!(Some([5u8; 20]), contract.get_zk_evm_address());
    assert!(contract.lotto_is_deployed_on_astar_zk_evm());
}

#[test]
fn love_is_sent() {
    let (contract, _) = Contract::new(OWNER, SELF_ADDRESS);
    assert_eq!(ILoveAstar { sender: OTHER }, contract.send_love_to_astar(OTHER));
    assert_eq!(ILoveLucky { sender: OTHER }, contract.send_love_to_lucky(OTHER));
}
