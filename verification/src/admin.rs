//! The owner's commands on the global configuration.
use crate::error::ContractError;
use crate::ledger::{agrees, Ledger, LedgerView, Outcome};
use crate::msg::{
    AddressCheck, AddressCheckView, Env, Instruction, InstructionView, MessageInfo, Response,
};
use crate::state::StateView;
use vstd::prelude::*;

verus! {

/// What naming another token contract does: the address must have passed the host's
/// check and the caller must be the owner.
pub open spec fn spec_token_address(
    pre: LedgerView,
    sender: Seq<char>,
    address: Seq<char>,
    check: AddressCheckView,
) -> Outcome {
    if !check.address {
        Err(ContractError::InvalidAddress)
    } else if sender != pre.config.owner {
        Err(ContractError::Unauthorized)
    } else {
        Ok(
            (
                LedgerView { config: StateView { token_address: address, ..pre.config }, ..pre },
                Seq::empty(),
            ),
        )
    }
}

/// What handing the ledger to another owner does: the caller must be the owner and the
/// address must have passed the host's check.
pub open spec fn spec_change_owner(
    pre: LedgerView,
    sender: Seq<char>,
    address: Seq<char>,
    check: AddressCheckView,
) -> Outcome {
    if sender != pre.config.owner {
        Err(ContractError::Unauthorized)
    } else if !check.address {
        Err(ContractError::InvalidAddress)
    } else {
        Ok(
            (
                LedgerView { config: StateView { owner: address, ..pre.config }, ..pre },
                Seq::empty(),
            ),
        )
    }
}

/// What the owner's recovery of an asset does: the collection's address must have passed
/// the host's check and the caller must be the owner; the ledger stays as it is, and the
/// collection is asked to hand the asset to the owner.
pub open spec fn spec_fix_nft(
    pre: LedgerView,
    sender: Seq<char>,
    address: Seq<char>,
    token_id: Seq<char>,
    check: AddressCheckView,
) -> Outcome {
    if !check.address {
        Err(ContractError::InvalidAddress)
    } else if sender != pre.config.owner {
        Err(ContractError::Unauthorized)
    } else {
        Ok(
            (
                pre,
                seq![
                    InstructionView::TransferNft {
                        contract_addr: address,
                        recipient: sender,
                        token_id,
                    },
                ],
            ),
        )
    }
}

/// Names another token contract: see [`spec_token_address`].
pub fn execute_token_address(
    ledger: &mut Ledger,
    env: Env,
    info: MessageInfo,
    address: String,
    check: &AddressCheck,
) -> (r: Result<Response, ContractError>)
    requires
        old(ledger)@.wf(),
    ensures
        agrees(
            spec_token_address(old(ledger)@, info@.sender, address@, check@),
            old(ledger)@,
            final(ledger)@,
            r,
        ),
        final(ledger)@.wf(),
{
    if !check.address {
        return Err(ContractError::InvalidAddress);
    }
    if ledger.config.owner != info.sender {
        return Err(ContractError::Unauthorized);
    }
    ledger.config.token_address = address;
    Ok(Response::new())
}

/// Hands the ledger to another owner: see [`spec_change_owner`].
pub fn execute_change_owner(
    ledger: &mut Ledger,
    env: Env,
    info: MessageInfo,
    address: String,
    check: &AddressCheck,
) -> (r: Result<Response, ContractError>)
    requires
        old(ledger)@.wf(),
    ensures
        agrees(
            spec_change_owner(old(ledger)@, info@.sender, address@, check@),
            old(ledger)@,
            final(ledger)@,
            r,
        ),
        final(ledger)@.wf(),
{
    if ledger.config.owner != info.sender {
        return Err(ContractError::Unauthorized);
    }
    if !check.address {
        return Err(ContractError::InvalidAddress);
    }
    ledger.config.owner = address;
    Ok(Response::new())
}

/// Recovers an asset that a collection holds for the ledger: see [`spec_fix_nft`].
pub fn execute_fix_nft(
    ledger: &mut Ledger,
    env: Env,
    info: MessageInfo,
    address: String,
    token_id: String,
    check: &AddressCheck,
) -> (r: Result<Response, ContractError>)
    requires
        old(ledger)@.wf(),
    ensures
        agrees(
            spec_fix_nft(old(ledger)@, info@.sender, address@, token_id@, check@),
            old(ledger)@,
            final(ledger)@,
            r,
        ),
        final(ledger)@.wf(),
{
    if !check.address {
        return Err(ContractError::InvalidAddress);
    }
    if ledger.config.owner != info.sender {
        return Err(ContractError::Unauthorized);
    }
    let mut messages: Vec<Instruction> = Vec::new();
    messages.push(
        Instruction::TransferNft { contract_addr: address, recipient: info.sender, token_id },
    );
    let response = Response { messages };
    assert(response@ =~= seq![
        InstructionView::TransferNft {
            contract_addr: address@,
            recipient: info@.sender,
            token_id: token_id@,
        },
    ]);
    Ok(response)
}

} // verus!
