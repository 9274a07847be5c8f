use vstd::prelude::*;

use crate::types::{account_eq, AccountId};

verus! {

/// A 20-byte address of an EVM chain.
pub type AccountId20 = [u8; 20];

/// The owner of the contract changed.
#[derive(Debug, Clone, Copy, PartialEq, Eq)]
pub struct OwnershipTransferred {
    pub contract: AccountId,
    pub previous: Option<AccountId>,
    pub new: Option<AccountId>,
}

/// Someone sent love to Astar.
#[derive(Debug, Clone, Copy, PartialEq, Eq)]
pub struct ILoveAstar {
    pub sender: AccountId,
}

/// Someone sent love to Lucky.
#[derive(Debug, Clone, Copy, PartialEq, Eq)]
pub struct ILoveLucky {
    pub sender: AccountId,
}

/// Errors of the dApp staking contract.
#[derive(Debug, Clone, Copy, PartialEq, Eq, Structural)]
pub enum ContractError {
    CallerIsNotOwner,
    NewOwnerIsNotSet,
}

/// The contract registered for dApp staking: it records where the lotto is
/// deployed.
#[derive(Debug, Clone, Copy)]
pub struct Contract {
    pub owner: Option<AccountId>,
    pub substrate_address: Option<AccountId>,
    pub zk_evm_address: Option<AccountId20>,
}

impl Contract {
    /// A contract at `contract`, owned by `caller`; with the event that
    /// reports it.
    pub fn new(caller: AccountId, contract: AccountId) -> (r: (Contract, OwnershipTransferred))
        ensures
            r.0 == (Contract { owner: Some(caller), substrate_address: None, zk_evm_address: None }),
            r.1 == (OwnershipTransferred { contract, previous: None, new: Some(caller) }),
    {
        let mut instance = Contract { owner: None, substrate_address: None, zk_evm_address: None };
        let event = instance.inner_set_ownership(contract, Some(caller));
        (instance, event)
    }

    pub fn owner(&self) -> (r: Option<AccountId>)
        ensures
            r == self.owner,
    {
        self.owner
    }

    /// Succeeds when `caller` owns the contract.
    pub fn ensure_owner(&self, caller: AccountId) -> (r: Result<(), ContractError>)
        ensures
            self.owner == Some(caller) ==> r is Ok,
            self.owner != Some(caller) ==> r == Err::<(), _>(ContractError::CallerIsNotOwner),
    {
        match self.owner {
            Some(owner) => if account_eq(&owner, &caller) {
                Ok(())
            } else {
                Err(ContractError::CallerIsNotOwner)
            },
            None => Err(ContractError::CallerIsNotOwner),
        }
    }

    fn inner_set_ownership(&mut self, contract: AccountId, new_owner: Option<AccountId>) -> (r:
        OwnershipTransferred)
        ensures
            *final(self) == (Contract { owner: new_owner, ..*old(self) }),
            r == (OwnershipTransferred { contract, previous: old(self).owner, new: new_owner }),
    {
        let old_owner = self.owner;
        self.owner = new_owner;
        OwnershipTransferred { contract, previous: old_owner, new: new_owner }
    }

    /// Leaves the contract without owner; owner only.
    pub fn renounce_ownership(&mut self, caller: AccountId, contract: AccountId) -> (r: Result<
        OwnershipTransferred,
        ContractError,
    >)
        ensures
            old(self).owner != Some(caller) ==> r == Err::<OwnershipTransferred, _>(
                ContractError::CallerIsNotOwner,
            ) && *final(self) == *old(self),
            old(self).owner == Some(caller) ==> r == Ok::<OwnershipTransferred, ContractError>(
                OwnershipTransferred { contract, previous: Some(caller), new: None },
            ) && *final(self) == (Contract { owner: None, ..*old(self) }),
    {
        self.ensure_owner(caller)?;
        Ok(self.inner_set_ownership(contract, None))
    }

    /// Hands the contract to `new_owner`, which must be set; owner only.
    pub fn transfer_ownership(
        &mut self,
        caller: AccountId,
        contract: AccountId,
        new_owner: Option<AccountId>,
    ) -> (r: Result<OwnershipTransferred, ContractError>)
        ensures
            old(self).owner != Some(caller) ==> r == Err::<OwnershipTransferred, _>(
                ContractError::CallerIsNotOwner,
            ),
            old(self).owner == Some(caller) && new_owner is None ==> r == Err::<
                OwnershipTransferred,
                _,
            >(ContractError::NewOwnerIsNotSet),
            r is Err ==> *final(self) == *old(self),
            old(self).owner == Some(caller) && new_owner is Some ==> r == Ok::<
                OwnershipTransferred,
                ContractError,
            >(OwnershipTransferred { contract, previous: Some(caller), new: new_owner })
                && *final(self) == (Contract { owner: new_owner, ..*old(self) }),
    {
        self.ensure_owner(caller)?;
        if new_owner.is_none() {
            return Err(ContractError::NewOwnerIsNotSet);
        }
        Ok(self.inner_set_ownership(contract, new_owner))
    }

    /// Records the lotto's address on Astar Substrate; owner only.
    pub fn set_substrate_address(&mut self, caller: AccountId, address: AccountId) -> (r: Result<
        (),
        ContractError,
    >)
        ensures
            old(self).owner != Some(caller) ==> r == Err::<(), _>(ContractError::CallerIsNotOwner)
                && *final(self) == *old(self),
            old(self).owner == Some(caller) ==> r is Ok && *final(self) == (Contract {
                substrate_address: Some(address),
                ..*old(self)
            }),
    {
        self.ensure_owner(caller)?;
        self.substrate_address = Some(address);
        Ok(())
    }

    pub fn get_substrate_address(&self) -> (r: Option<AccountId>)
        ensures
            r == self.substrate_address,
    {
        self.substrate_address
    }

    pub fn lotto_is_deployed_on_astar_substrate(&self) -> (r: bool)
        ensures
            r == self.substrate_address is Some,
    {
        self.substrate_address.is_some()
    }

    /// Records the lotto's address on Astar zkEVM; owner only.
    pub fn set_zk_evm_address(&mut self, caller: AccountId, address: AccountId20) -> (r: Result<
        (),
        ContractError,
    >)
        ensures
            old(self).owner != Some(caller) ==> r == Err::<(), _>(ContractError::CallerIsNotOwner)
                && *final(self) == *old(self),
            old(self).owner == Some(caller) ==> r is Ok && *final(self) == (Contract {
                zk_evm_address: Some(address),
                ..*old(self)
            }),
    {
        self.ensure_owner(caller)?;
        self.zk_evm_address = Some(address);
        Ok(())
    }

    pub fn get_zk_evm_address(&self) -> (r: Option<AccountId20>)
        ensures
            r == self.zk_evm_address,
    {
        self.zk_evm_address
    }

    pub fn lotto_is_deployed_on_astar_zk_evm(&self) -> (r: bool)
        ensures
            r == self.zk_evm_address is Some,
    {
        self.zk_evm_address.is_some()
    }

    /// The event by which `sender` sends love to Astar.
    pub fn send_love_to_astar(&self, sender: AccountId) -> (r: ILoveAstar)
        ensures
            r == (ILoveAstar { sender }),
    {
        ILoveAstar { sender }
    }

    /// The event by which `sender` sends love to Lucky.
    pub fn send_love_to_lucky(&self, sender: AccountId) -> (r: ILoveLucky)
        ensures
            r == (ILoveLucky { sender }),
    {
        ILoveLucky { sender }
    }
}

} // verus!
