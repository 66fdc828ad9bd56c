//! Derivation authority: program-derived addresses and their bumps.
use anchor_lang::prelude::Pubkey;
use vstd::prelude::*;

verus! {

/// A 32-byte account address (an owner key, a program id, or a derived address).
#[derive(Clone, Copy, Debug)]
pub struct Address {
    pub bytes: [u8; 32],
}

impl Address {
    pub fn new(bytes: [u8; 32]) -> (r: Address)
        ensures
            r.bytes@ == bytes@,
    {
        Address { bytes }
    }

    /// Byte-wise equality of two addresses.
    pub fn same(&self, other: &Address) -> (r: bool)
        ensures
            r == (self.bytes@ == other.bytes@),
    {
        let mut i: usize = 0;
        while i < 32
            invariant
                0 <= i <= 32,
                self.bytes@.len() == 32,
                other.bytes@.len() == 32,
                forall|j: int| 0 <= j < i ==> self.bytes@[j] == other.bytes@[j],
            decreases 32 - i,
        {
            if self.bytes[i] != other.bytes[i] {
                return false;
            }
            i = i + 1;
        }
        proof {
            assert(self.bytes@ =~= other.bytes@);
        }
        true
    }
}

/// The address that the host derives from a list of seeds under a program
/// id, or `None` where the seeds give a point on the ed25519 curve (or break
/// the host's limits on seeds).
pub uninterp spec fn program_address_of(seeds: Seq<Seq<u8>>, program_id: Seq<u8>) -> Option<
    Seq<u8>,
>;

/// The derived address for the seeds `[label, seed, [bump]]`.
pub open spec fn pda(program_id: Seq<u8>, label: Seq<u8>, seed: Seq<u8>, bump: u8) -> Option<
    Seq<u8>,
> {
    program_address_of(seq![label, seed, seq![bump]], program_id)
}

/// `bump` is the canonical bump of `[label, seed]`: the largest non-zero bump
/// that gives an address.
pub open spec fn is_canonical_bump(
    program_id: Seq<u8>,
    label: Seq<u8>,
    seed: Seq<u8>,
    bump: u8,
) -> bool {
    &&& 1 <= bump
    &&& pda(program_id, label, seed, bump) is Some
    &&& forall|c: u8| bump < c ==> (#[trigger] pda(program_id, label, seed, c)) is None
}

/// The canonical derivation of `[label, seed]`: its address and its bump.
pub open spec fn derived(program_id: Seq<u8>, label: Seq<u8>, seed: Seq<u8>) -> Option<
    (Seq<u8>, u8),
> {
    if exists|b: u8| is_canonical_bump(program_id, label, seed, b) {
        let b = choose|b: u8| is_canonical_bump(program_id, label, seed, b);
        Some((pda(program_id, label, seed, b)->0, b))
    } else {
        None
    }
}

/// The address of the canonical derivation.
pub open spec fn derived_address(program_id: Seq<u8>, label: Seq<u8>, seed: Seq<u8>) -> Seq<u8> {
    match derived(program_id, label, seed) {
        Some((a, _)) => a,
        None => Seq::empty(),
    }
}

/// The bump of the canonical derivation.
pub open spec fn derived_bump(program_id: Seq<u8>, label: Seq<u8>, seed: Seq<u8>) -> u8 {
    match derived(program_id, label, seed) {
        Some((_, b)) => b,
        None => 0,
    }
}

/// Whether `candidate` is the address derived from `[label, seed, [bump]]`.
pub open spec fn verifies(
    program_id: Seq<u8>,
    label: Seq<u8>,
    seed: Seq<u8>,
    bump: u8,
    candidate: Seq<u8>,
) -> bool {
    pda(program_id, label, seed, bump) == Some(candidate)
}

/// Relies on `Pubkey::create_program_address`: it returns `Ok` exactly when the
/// seeds give an address off the curve, and that address depends on the seeds
/// and the program id alone.
#[verifier::external_body]
fn create_address(program_id: &Address, label: &Vec<u8>, seed: &Address, bump: u8) -> (r: Option<
    Address,
>)
    ensures
        match r {
            Some(a) => program_address_of(seq![label@, seed.bytes@, seq![bump]], program_id.bytes@)
                == Some(a.bytes@),
            None => program_address_of(seq![label@, seed.bytes@, seq![bump]], program_id.bytes@)
                is None,
        },
{
    let pid = Pubkey::new_from_array(program_id.bytes);
    let seeds: [&[u8]; 3] = [label.as_slice(), &seed.bytes, &[bump]];
    Pubkey::create_program_address(&seeds, &pid).ok().map(|k| Address { bytes: k.to_bytes() })
}

/// Relies on `Pubkey::try_find_program_address`: it tries the bumps from 255
/// down to 1 with `create_program_address` and returns the first address found
/// with its bump, or `None` when no bump gives one.
#[verifier::external_body]
fn find_address(program_id: &Address, label: &Vec<u8>, seed: &Address) -> (r: Option<(Address, u8)>)
    ensures
        match r {
            Some((a, b)) => {
                &&& 1 <= b
                &&& pda(program_id.bytes@, label@, seed.bytes@, b) == Some(a.bytes@)
                &&& forall|c: u8|
                    b < c ==> (#[trigger] pda(program_id.bytes@, label@, seed.bytes@, c)) is None
            },
            None => forall|c: u8|
                1 <= c ==> (#[trigger] pda(program_id.bytes@, label@, seed.bytes@, c)) is None,
        },
{
    let pid = Pubkey::new_from_array(program_id.bytes);
    let seeds: [&[u8]; 2] = [label.as_slice(), &seed.bytes];
    Pubkey::try_find_program_address(&seeds, &pid).map(|(k, b)| (Address { bytes: k.to_bytes() }, b))
}

/// Two canonical bumps of the same seeds are the same bump.
proof fn lemma_canonical_unique(program_id: Seq<u8>, label: Seq<u8>, seed: Seq<u8>, a: u8, b: u8)
    requires
        is_canonical_bump(program_id, label, seed, a),
        is_canonical_bump(program_id, label, seed, b),
    ensures
        a == b,
{
    if a < b {
        assert(pda(program_id, label, seed, b) is None);
    } else if b < a {
        assert(pda(program_id, label, seed, a) is None);
    }
}

/// Finds the canonical address and bump of the seeds `[label, seed]`.
pub fn derive_address(program_id: &Address, label: &Vec<u8>, seed: &Address) -> (r: Option<
    (Address, u8),
>)
    ensures
        match r {
            Some((a, b)) => derived(program_id.bytes@, label@, seed.bytes@) == Some((a.bytes@, b)),
            None => derived(program_id.bytes@, label@, seed.bytes@) is None,
        },
{
    let r = find_address(program_id, label, seed);
    proof {
        let (p, l, s) = (program_id.bytes@, label@, seed.bytes@);
        match r {
            Some((a, b)) => {
                assert(is_canonical_bump(p, l, s, b));
                let c = choose|c: u8| is_canonical_bump(p, l, s, c);
                lemma_canonical_unique(p, l, s, b, c);
            },
            None => {
                if exists|b: u8| is_canonical_bump(p, l, s, b) {
                    let b = choose|b: u8| is_canonical_bump(p, l, s, b);
                    assert(pda(p, l, s, b) is None);
                }
            },
        }
    }
    r
}

/// Checks that `candidate` is the address derived from `[label, seed, [bump]]`.
pub fn verify_address(
    program_id: &Address,
    label: &Vec<u8>,
    seed: &Address,
    bump: u8,
    candidate: &Address,
) -> (r: bool)
    ensures
        r == verifies(program_id.bytes@, label@, seed.bytes@, bump, candidate.bytes@),
{
    match create_address(program_id, label, seed, bump) {
        Some(a) => a.same(candidate),
        None => false,
    }
}

/// Deriving the canonical address and then verifying it with the bump that
/// came with it accepts that same address.
pub proof fn lemma_derive_then_verify(program_id: Seq<u8>, label: Seq<u8>, seed: Seq<u8>)
    requires
        derived(program_id, label, seed) is Some,
    ensures
        verifies(
            program_id,
            label,
            seed,
            derived_bump(program_id, label, seed),
            derived_address(program_id, label, seed),
        ),
{
}

/// Verifying with a bump above the canonical one never accepts an address,
/// in particular not the canonical address.
pub proof fn lemma_bump_above_canonical_rejected(
    program_id: Seq<u8>,
    label: Seq<u8>,
    seed: Seq<u8>,
    bump: u8,
    candidate: Seq<u8>,
)
    requires
        derived(program_id, label, seed) is Some,
        derived_bump(program_id, label, seed) < bump,
    ensures
        !verifies(program_id, label, seed, bump, candidate),
{
    let b = choose|b: u8| is_canonical_bump(program_id, label, seed, b);
    assert(pda(program_id, label, seed, bump) is None);
}

} // verus!
