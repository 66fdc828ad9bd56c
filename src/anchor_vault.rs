//! The program's three entry points.
use crate::ledger::{Deposits, Initialize, Ledger, VaultError, Withdraw};
use vstd::prelude::*;

verus! {

/// Initialises the owner's vault: see [`Initialize::initialize`].
pub fn initialize(ctx: &Initialize, ledger: &mut Ledger) -> (r: Result<(), VaultError>)
    requires
        old(ledger).wf(),
    ensures
        final(ledger).wf(),
        (final(ledger)@, r) == old(ledger)@.initialize(
            ctx.user.bytes@,
            ctx.vault_state.bytes@,
            ctx.vault.bytes@,
        ),
{
    ctx.initialize(ledger)
}

/// Deposits `amount` into the owner's vault: see [`Deposits::deposit`].
pub fn deposit(ctx: &Deposits, ledger: &mut Ledger, amount: u64) -> (r: Result<(), VaultError>)
    requires
        old(ledger).wf(),
    ensures
        final(ledger).wf(),
        (final(ledger)@, r) == old(ledger)@.deposit(
            ctx.user.bytes@,
            ctx.vault_state.bytes@,
            ctx.vault.bytes@,
            amount,
        ),
{
    ctx.deposit(ledger, amount)
}

/// Withdraws `amount` from the owner's vault: see [`Withdraw::withdraw`].
pub fn withdraw(ctx: &Withdraw, ledger: &mut Ledger, amount: u64) -> (r: Result<(), VaultError>)
    requires
        old(ledger).wf(),
    ensures
        final(ledger).wf(),
        (final(ledger)@, r) == old(ledger)@.withdraw(
            ctx.user.bytes@,
            ctx.vault_state.bytes@,
            ctx.vault.bytes@,
            amount,
        ),
{
    ctx.withdraw(ledger, amount)
}

} // verus!
