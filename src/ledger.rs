//! The vault state machine: state records that hold the bumps, value records
//! that hold balances, and the three operations on them.
use crate::address::{
    derive_address, derived, lemma_derive_then_verify, verifies, verify_address, Address,
};
use crate::table::Table;
use vstd::prelude::*;

verus! {

/// Bytes of a state record: an 8-byte discriminator and the two bumps.
pub const STATE_RECORD_SPACE: usize = 10;

/// The label of a state record's seeds, `b"state"`.
pub open spec fn state_label() -> Seq<u8> {
    seq![115u8, 116u8, 97u8, 116u8, 101u8]
}

/// The label of a value record's seeds, `b"vault"`.
pub open spec fn vault_label() -> Seq<u8> {
    seq![118u8, 97u8, 117u8, 108u8, 116u8]
}

pub fn state_label_bytes() -> (r: Vec<u8>)
    ensures
        r@ == state_label(),
{
    let mut v: Vec<u8> = Vec::new();
    v.push(115u8);
    v.push(116u8);
    v.push(97u8);
    v.push(116u8);
    v.push(101u8);
    assert(v@ =~= state_label());
    v
}

pub fn vault_label_bytes() -> (r: Vec<u8>)
    ensures
        r@ == vault_label(),
{
    let mut v: Vec<u8> = Vec::new();
    v.push(118u8);
    v.push(97u8);
    v.push(117u8);
    v.push(108u8);
    v.push(116u8);
    assert(v@ =~= vault_label());
    v
}

/// The state record of one owner: the bumps of its own address and of its
/// value record's address.
#[derive(Clone, Copy, Debug, PartialEq, Eq, Structural)]
pub struct VaultState {
    pub state_bump: u8,
    pub vault_bump: u8,
}

/// Why an operation was refused. A refused operation changes nothing.
#[derive(Clone, Copy, Debug, PartialEq, Eq, Structural)]
pub enum VaultError {
    /// A presented address is not the one derived from its seeds and bump.
    AddressMismatch,
    /// The owner's state record exists already.
    AlreadyInitialized,
    /// No state record at the presented address.
    NotInitialized,
    /// A zero amount, or one that would overflow a balance.
    InvalidAmount,
    /// The amount exceeds the value record's balance.
    InsufficientFunds,
    /// The amount would take the balance below the reserve.
    ReserveViolation,
    /// No bump gives an address for the seeds.
    DerivationExhausted,
}

/// The abstract state of a ledger.
pub struct LedgerModel {
    pub program_id: Seq<u8>,
    pub reserve: u64,
    pub states: Map<Seq<u8>, VaultState>,
    pub vaults: Map<Seq<u8>, u64>,
}

impl LedgerModel {
    /// The balance of the value record at `key`; zero where there is none.
    pub open spec fn balance_of(self, key: Seq<u8>) -> nat {
        if self.vaults.contains_key(key) {
            self.vaults[key] as nat
        } else {
            0
        }
    }

    /// The state record at `state` exists, `state` is derived from the owner
    /// with its stored state bump, and `vault` from `state` with its stored
    /// vault bump.
    pub open spec fn authorized(self, owner: Seq<u8>, state: Seq<u8>, vault: Seq<u8>) -> bool {
        &&& self.states.contains_key(state)
        &&& verifies(self.program_id, state_label(), owner, self.states[state].state_bump, state)
        &&& verifies(self.program_id, vault_label(), state, self.states[state].vault_bump, vault)
    }

    /// Initialising the owner's vault with the presented addresses: the new
    /// model and the result.
    pub open spec fn initialize(self, owner: Seq<u8>, state: Seq<u8>, vault: Seq<u8>) -> (
        LedgerModel,
        Result<(), VaultError>,
    ) {
        match derived(self.program_id, state_label(), owner) {
            None => (self, Err(VaultError::DerivationExhausted)),
            Some((s, sb)) => if s != state {
                (self, Err(VaultError::AddressMismatch))
            } else if self.states.contains_key(state) {
                (self, Err(VaultError::AlreadyInitialized))
            } else {
                match derived(self.program_id, vault_label(), state) {
                    None => (self, Err(VaultError::DerivationExhausted)),
                    Some((v, vb)) => if v != vault {
                        (self, Err(VaultError::AddressMismatch))
                    } else if self.balance_of(vault) + self.reserve > u64::MAX {
                        (self, Err(VaultError::InvalidAmount))
                    } else {
                        (
                            LedgerModel {
                                states: self.states.insert(
                                    state,
                                    VaultState { state_bump: sb, vault_bump: vb },
                                ),
                                vaults: self.vaults.insert(
                                    vault,
                                    (self.balance_of(vault) + self.reserve) as u64,
                                ),
                                ..self
                            },
                            Ok(()),
                        )
                    },
                }
            },
        }
    }

    /// Depositing `amount` from the owner into its value record.
    pub open spec fn deposit(self, owner: Seq<u8>, state: Seq<u8>, vault: Seq<u8>, amount: u64) -> (
        LedgerModel,
        Result<(), VaultError>,
    ) {
        if amount == 0 {
            (self, Err(VaultError::InvalidAmount))
        } else if !self.states.contains_key(state) {
            (self, Err(VaultError::NotInitialized))
        } else if !self.authorized(owner, state, vault) {
            (self, Err(VaultError::AddressMismatch))
        } else if self.balance_of(vault) + amount > u64::MAX {
            (self, Err(VaultError::InvalidAmount))
        } else {
            (
                LedgerModel {
                    vaults: self.vaults.insert(vault, (self.balance_of(vault) + amount) as u64),
                    ..self
                },
                Ok(()),
            )
        }
    }

    /// Withdrawing `amount` from the owner's value record to the owner.
    pub open spec fn withdraw(self, owner: Seq<u8>, state: Seq<u8>, vault: Seq<u8>, amount: u64) -> (
        LedgerModel,
        Result<(), VaultError>,
    ) {
        if amount == 0 {
            (self, Err(VaultError::InvalidAmount))
        } else if !self.states.contains_key(state) {
            (self, Err(VaultError::NotInitialized))
        } else if !self.authorized(owner, state, vault) {
            (self, Err(VaultError::AddressMismatch))
        } else if amount > self.balance_of(vault) {
            (self, Err(VaultError::InsufficientFunds))
        } else if amount + self.reserve > self.balance_of(vault) {
            (self, Err(VaultError::ReserveViolation))
        } else {
            (
                LedgerModel {
                    vaults: self.vaults.insert(vault, (self.balance_of(vault) - amount) as u64),
                    ..self
                },
                Ok(()),
            )
        }
    }
}

/// The records of one vault program: state records and value records, the
/// program id that addresses are derived under, and the reserve that each
/// value record must keep.
pub struct Ledger {
    program_id: Address,
    reserve: u64,
    states: Table<VaultState>,
    vaults: Table<u64>,
}

impl View for Ledger {
    type V = LedgerModel;

    closed spec fn view(&self) -> LedgerModel {
        LedgerModel {
            program_id: self.program_id.bytes@,
            reserve: self.reserve,
            states: self.states@,
            vaults: self.vaults@,
        }
    }
}

impl Ledger {
    pub closed spec fn wf(&self) -> bool {
        self.states.wf() && self.vaults.wf()
    }

    /// An empty ledger under `program_id`, whose value records keep `reserve`.
    pub fn new(program_id: Address, reserve: u64) -> (r: Ledger)
        ensures
            r.wf(),
            r@.program_id == program_id.bytes@,
            r@.reserve == reserve,
            r@.states == Map::<Seq<u8>, VaultState>::empty(),
            r@.vaults == Map::<Seq<u8>, u64>::empty(),
    {
        Ledger { program_id, reserve, states: Table::new(), vaults: Table::new() }
    }

    pub fn program_id(&self) -> (r: Address)
        ensures
            r.bytes@ == self@.program_id,
    {
        self.program_id
    }

    pub fn reserve(&self) -> (r: u64)
        ensures
            r == self@.reserve,
    {
        self.reserve
    }

    /// The balance of the value record at `key`; zero where there is none.
    pub fn balance(&self, key: &Address) -> (r: u64)
        requires
            self.wf(),
        ensures
            r == self@.balance_of(key.bytes@),
    {
        match self.vaults.get(key) {
            Some(b) => b,
            None => 0,
        }
    }

    /// The state record at `key`, if any.
    pub fn state(&self, key: &Address) -> (r: Option<VaultState>)
        requires
            self.wf(),
        ensures
            r == (if self@.states.contains_key(key.bytes@) {
                Some(self@.states[key.bytes@])
            } else {
                None
            }),
    {
        self.states.get(key)
    }

    /// The canonical address and bump of the owner's state record.
    pub fn state_address(&self, owner: &Address) -> (r: Option<(Address, u8)>)
        ensures
            match r {
                Some((a, b)) => derived(self@.program_id, state_label(), owner.bytes@) == Some(
                    (a.bytes@, b),
                ),
                None => derived(self@.program_id, state_label(), owner.bytes@) is None,
            },
    {
        derive_address(&self.program_id, &state_label_bytes(), owner)
    }

    /// The canonical address and bump of the value record that belongs to the
    /// state record at `state`.
    pub fn vault_address(&self, state: &Address) -> (r: Option<(Address, u8)>)
        ensures
            match r {
                Some((a, b)) => derived(self@.program_id, vault_label(), state.bytes@) == Some(
                    (a.bytes@, b),
                ),
                None => derived(self@.program_id, vault_label(), state.bytes@) is None,
            },
    {
        derive_address(&self.program_id, &vault_label_bytes(), state)
    }

    /// Re-derives both presented addresses from the stored bumps.
    fn authorize(&self, owner: &Address, st: VaultState, state: &Address, vault: &Address) -> (r:
        bool)
        requires
            self@.states.contains_key(state.bytes@),
            self@.states[state.bytes@] == st,
        ensures
            r == self@.authorized(owner.bytes@, state.bytes@, vault.bytes@),
    {
        verify_address(&self.program_id, &state_label_bytes(), owner, st.state_bump, state)
            && verify_address(&self.program_id, &vault_label_bytes(), state, st.vault_bump, vault)
    }
}

/// Initialising a vault a second time with the same addresses is refused as
/// already initialised.
pub proof fn lemma_initialize_twice(m: LedgerModel, owner: Seq<u8>, state: Seq<u8>, vault: Seq<u8>)
    requires
        m.initialize(owner, state, vault).1 is Ok,
    ensures
        m.initialize(owner, state, vault).0.initialize(owner, state, vault).1 == Err::<
            (),
            VaultError,
        >(VaultError::AlreadyInitialized),
{
}

/// Two successful deposits into the same vault give the same ledger in
/// either order, and raise the balance by the sum of the amounts.
pub proof fn lemma_deposits_commute(
    m: LedgerModel,
    owner: Seq<u8>,
    state: Seq<u8>,
    vault: Seq<u8>,
    a: u64,
    b: u64,
)
    requires
        m.deposit(owner, state, vault, a).1 is Ok,
        m.deposit(owner, state, vault, b).1 is Ok,
        m.balance_of(vault) + a + b <= u64::MAX,
    ensures
        m.deposit(owner, state, vault, a).0.deposit(owner, state, vault, b).1 is Ok,
        m.deposit(owner, state, vault, b).0.deposit(owner, state, vault, a).1 is Ok,
        m.deposit(owner, state, vault, a).0.deposit(owner, state, vault, b).0 == m.deposit(
            owner,
            state,
            vault,
            b,
        ).0.deposit(owner, state, vault, a).0,
        m.deposit(owner, state, vault, a).0.deposit(owner, state, vault, b).0.balance_of(vault)
            == m.balance_of(vault) + a + b,
{
    let ma = m.deposit(owner, state, vault, a).0;
    let mb = m.deposit(owner, state, vault, b).0;
    assert(ma.deposit(owner, state, vault, b).0.vaults =~= mb.deposit(
        owner,
        state,
        vault,
        a,
    ).0.vaults);
}

/// A vault initialised with no value record before it, then given the same
/// amount twice, holds twice the amount plus the reserve.
pub proof fn lemma_initialize_then_deposit_twice(
    m: LedgerModel,
    owner: Seq<u8>,
    state: Seq<u8>,
    vault: Seq<u8>,
    amount: u64,
)
    requires
        m.initialize(owner, state, vault).1 is Ok,
        !m.vaults.contains_key(vault),
        amount > 0,
        m.reserve + 2 * amount <= u64::MAX,
    ensures
        ({
            let m1 = m.initialize(owner, state, vault).0;
            let m2 = m1.deposit(owner, state, vault, amount);
            let m3 = m2.0.deposit(owner, state, vault, amount);
            &&& m2.1 is Ok
            &&& m3.1 is Ok
            &&& m3.0.balance_of(vault) == 2 * amount + m.reserve
        }),
{
    lemma_derive_then_verify(m.program_id, state_label(), owner);
    lemma_derive_then_verify(m.program_id, vault_label(), state);
}

/// With an authorised vault above its reserve, withdrawing exactly the
/// balance less the reserve succeeds and leaves the reserve, and withdrawing
/// one more is refused for lack of funds or for the reserve.
pub proof fn lemma_withdraw_boundary(m: LedgerModel, owner: Seq<u8>, state: Seq<u8>, vault: Seq<
    u8,
>)
    requires
        m.authorized(owner, state, vault),
        m.balance_of(vault) > m.reserve,
        m.balance_of(vault) - m.reserve + 1 <= u64::MAX,
    ensures
        ({
            let exact = (m.balance_of(vault) - m.reserve) as u64;
            let over = (m.balance_of(vault) - m.reserve + 1) as u64;
            &&& m.withdraw(owner, state, vault, exact).1 is Ok
            &&& m.withdraw(owner, state, vault, exact).0.balance_of(vault) == m.reserve
            &&& m.withdraw(owner, state, vault, over).1 == Err::<(), VaultError>(
                VaultError::ReserveViolation,
            ) || m.withdraw(owner, state, vault, over).1 == Err::<(), VaultError>(
                VaultError::InsufficientFunds,
            )
            &&& m.withdraw(owner, state, vault, over).0 == m
        }),
{
}

/// A zero amount is refused as invalid by deposit and by withdraw, and
/// changes nothing.
pub proof fn lemma_zero_amount_rejected(m: LedgerModel, owner: Seq<u8>, state: Seq<u8>, vault: Seq<
    u8,
>)
    ensures
        m.deposit(owner, state, vault, 0) == (m, Err::<(), VaultError>(VaultError::InvalidAmount)),
        m.withdraw(owner, state, vault, 0) == (m, Err::<(), VaultError>(VaultError::InvalidAmount)),
{
}

/// An operation of one owner changes no state record, and no value record but
/// the one at `vault`; it changes that one only where the owner's own state
/// record authorises it.
pub proof fn lemma_operations_stay_with_owner(
    m: LedgerModel,
    owner: Seq<u8>,
    state: Seq<u8>,
    vault: Seq<u8>,
    amount: u64,
    other: Seq<u8>,
)
    requires
        other != vault,
    ensures
        m.deposit(owner, state, vault, amount).0.states == m.states,
        m.deposit(owner, state, vault, amount).0.balance_of(other) == m.balance_of(other),
        m.deposit(owner, state, vault, amount).1 is Ok ==> m.authorized(owner, state, vault),
        m.withdraw(owner, state, vault, amount).0.states == m.states,
        m.withdraw(owner, state, vault, amount).0.balance_of(other) == m.balance_of(other),
        m.withdraw(owner, state, vault, amount).1 is Ok ==> m.authorized(owner, state, vault),
{
}

/// The addresses presented to initialise a vault: the owner, its state
/// record and its value record.
#[derive(Clone, Copy, Debug)]
pub struct Initialize {
    pub user: Address,
    pub vault_state: Address,
    pub vault: Address,
}

impl Initialize {
    /// Checks that both presented addresses are the canonical ones, creates
    /// the state record with their bumps, and funds the value record with the
    /// reserve.
    pub fn initialize(&self, ledger: &mut Ledger) -> (r: Result<(), VaultError>)
        requires
            old(ledger).wf(),
        ensures
            final(ledger).wf(),
            (final(ledger)@, r) == old(ledger)@.initialize(
                self.user.bytes@,
                self.vault_state.bytes@,
                self.vault.bytes@,
            ),
    {
        let (state, state_bump) = match ledger.state_address(&self.user) {
            Some(d) => d,
            None => return Err(VaultError::DerivationExhausted),
        };
        if !state.same(&self.vault_state) {
            return Err(VaultError::AddressMismatch);
        }
        if ledger.states.get(&self.vault_state).is_some() {
            return Err(VaultError::AlreadyInitialized);
        }
        let (vault, vault_bump) = match ledger.vault_address(&self.vault_state) {
            Some(d) => d,
            None => return Err(VaultError::DerivationExhausted),
        };
        if !vault.same(&self.vault) {
            return Err(VaultError::AddressMismatch);
        }
        let balance = ledger.balance(&self.vault);
        if balance > u64::MAX - ledger.reserve {
            return Err(VaultError::InvalidAmount);
        }
        ledger.states.set(&self.vault_state, VaultState { state_bump, vault_bump });
        ledger.vaults.set(&self.vault, balance + ledger.reserve);
        Ok(())
    }
}

/// The addresses presented to deposit: the owner, its state record and its
/// value record.
#[derive(Clone, Copy, Debug)]
pub struct Deposits {
    pub user: Address,
    pub vault_state: Address,
    pub vault: Address,
}

impl Deposits {
    /// Moves `amount` from the owner into its value record, once both
    /// presented addresses are re-derived from the stored bumps.
    pub fn deposit(&self, ledger: &mut Ledger, amount: u64) -> (r: Result<(), VaultError>)
        requires
            old(ledger).wf(),
        ensures
            final(ledger).wf(),
            (final(ledger)@, r) == old(ledger)@.deposit(
                self.user.bytes@,
                self.vault_state.bytes@,
                self.vault.bytes@,
                amount,
            ),
    {
        if amount == 0 {
            return Err(VaultError::InvalidAmount);
        }
        let st = match ledger.state(&self.vault_state) {
            Some(st) => st,
            None => return Err(VaultError::NotInitialized),
        };
        if !ledger.authorize(&self.user, st, &self.vault_state, &self.vault) {
            return Err(VaultError::AddressMismatch);
        }
        let balance = ledger.balance(&self.vault);
        if balance > u64::MAX - amount {
            return Err(VaultError::InvalidAmount);
        }
        ledger.vaults.set(&self.vault, balance + amount);
        Ok(())
    }
}

/// The addresses presented to withdraw: the owner, its state record and its
/// value record.
#[derive(Clone, Copy, Debug)]
pub struct Withdraw {
    pub user: Address,
    pub vault_state: Address,
    pub vault: Address,
}

impl Withdraw {
    /// Moves `amount` from the owner's value record to the owner, once both
    /// presented addresses are re-derived from the stored bumps, and never
    /// below the reserve.
    pub fn withdraw(&self, ledger: &mut Ledger, amount: u64) -> (r: Result<(), VaultError>)
        requires
            old(ledger).wf(),
        ensures
            final(ledger).wf(),
            (final(ledger)@, r) == old(ledger)@.withdraw(
                self.user.bytes@,
                self.vault_state.bytes@,
                self.vault.bytes@,
                amount,
            ),
    {
        if amount == 0 {
            return Err(VaultError::InvalidAmount);
        }
        let st = match ledger.state(&self.vault_state) {
            Some(st) => st,
            None => return Err(VaultError::NotInitialized),
        };
        if !ledger.authorize(&self.user, st, &self.vault_state, &self.vault) {
            return Err(VaultError::AddressMismatch);
        }
        let balance = ledger.balance(&self.vault);
        if amount > balance {
            return Err(VaultError::InsufficientFunds);
        }
        if balance < ledger.reserve || amount > balance - ledger.reserve {
            return Err(VaultError::ReserveViolation);
        }
        ledger.vaults.set(&self.vault, balance - amount);
        Ok(())
    }
}

} // verus!
