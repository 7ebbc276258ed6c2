//! A program-derived address (PDA) with easy access to its signer seeds.
//!
//! Addresses are carried as their raw 32 bytes; what only the runtime's
//! derivation can compute — the address and bump seed that belong to a seed
//! list and program id — comes through one call into the runtime library.
//! The account whose address and owner are checked is handed in as those two
//! plain values.

use vstd::prelude::*;

verus! {

/// The address and bump seed that the runtime's derivation assigns to a seed
/// list and program id; `None` when no bump seed yields a valid off-curve
/// address or the seed list exceeds the runtime's limits.
pub uninterp spec fn pda_of(seeds: Seq<Seq<u8>>, program_id: Seq<u8>) -> Option<(Seq<u8>, u8)>;

/// Relies on `Pubkey::try_find_program_address`: whether a derivation exists,
/// and the derived address and bump seed, are a function of the seed list and
/// program id alone.
#[verifier::external_body]
fn derive_program_address(seeds: &Vec<Vec<u8>>, program_id: &[u8; 32]) -> (r: Option<
    ([u8; 32], u8),
>)
    ensures
        (r is Some) == (pda_of(seeds.deep_view(), program_id@) is Some),
        r matches Some(p) ==> pda_of(seeds.deep_view(), program_id@) matches Some(q) && p.0@
            == q.0 && p.1 == q.1,
{
    let key = solana_program::pubkey::Pubkey::new_from_array(*program_id);
    let seed_slices: Vec<&[u8]> = seeds.iter().map(|s| s.as_slice()).collect();
    solana_program::pubkey::Pubkey::try_find_program_address(&seed_slices, &key)
        .map(|(pda, bump)| (pda.to_bytes(), bump))
}

/// Why a PDA check failed.
#[derive(Debug, Clone, Copy, PartialEq, Eq, Structural)]
pub enum SignerPdaError {
    /// The seeds derive no address, or not the expected one.
    InvalidSeeds,
    /// The account exists but is not owned by the program.
    IllegalOwner,
}

/// A PDA together with the seeds (and bump seed) that make it sign.
#[derive(Debug)]
pub struct SignerPda {
    pub pda: [u8; 32],
    pub bump: [u8; 1],
    pub seeds: Vec<Vec<u8>>,
}

/// Compares two 32-byte keys.
fn bytes32_eq(a: &[u8; 32], b: &[u8; 32]) -> (r: bool)
    ensures
        r == (a@ == b@),
{
    let mut i: usize = 0;
    while i < 32
        invariant
            i <= 32,
            forall|j: int| 0 <= j < i ==> a@[j] == b@[j],
        decreases 32 - i,
    {
        if a[i] != b[i] {
            return false;
        }
        i = i + 1;
    }
    proof {
        assert(a@ =~= b@);
    }
    true
}

/// Copies a byte vector.
fn copy_bytes(v: &Vec<u8>) -> (r: Vec<u8>)
    ensures
        r@ == v@,
{
    let mut out: Vec<u8> = Vec::new();
    let mut i: usize = 0;
    while i < v.len()
        invariant
            i <= v@.len(),
            out@ == v@.subrange(0, i as int),
        decreases v@.len() - i,
    {
        out.push(v[i]);
        proof {
            assert(out@ =~= v@.subrange(0, i as int + 1));
        }
        i = i + 1;
    }
    proof {
        assert(out@ =~= v@);
    }
    out
}

impl SignerPda {
    /// Computes the PDA of `seeds` under `program_id` and checks that it
    /// matches the expected account address.
    pub fn new_checked(seeds: Vec<Vec<u8>>, program_id: &[u8; 32], expected_key: &[u8; 32]) -> (r:
        Result<SignerPda, SignerPdaError>)
        ensures
            match r {
                Ok(p) => {
                    &&& pda_of(seeds.deep_view(), program_id@) matches Some(q)
                    &&& q.0 == expected_key@
                    &&& p.pda@ == q.0
                    &&& p.bump@ == seq![q.1]
                    &&& p.seeds.deep_view() == seeds.deep_view()
                },
                Err(e) => e is InvalidSeeds && match pda_of(seeds.deep_view(), program_id@) {
                    Some(q) => q.0 != expected_key@,
                    None => true,
                },
            },
    {
        match derive_program_address(&seeds, program_id) {
            Some((pda, bump)) => {
                if bytes32_eq(&pda, expected_key) {
                    let signer = SignerPda { pda, bump: [bump], seeds };
                    proof {
                        assert(signer.bump@ =~= seq![bump]);
                    }
                    Ok(signer)
                } else {
                    Err(SignerPdaError::InvalidSeeds)
                }
            },
            None => Err(SignerPdaError::InvalidSeeds),
        }
    }

    /// Checks that an existing account sits at the PDA of `seeds` under
    /// `program_id` and is owned by the program.
    pub fn check_existing(
        seeds: Vec<Vec<u8>>,
        program_id: &[u8; 32],
        expected_key: &[u8; 32],
        expected_owner: &[u8; 32],
    ) -> (r: Result<(), SignerPdaError>)
        ensures
            match r {
                Ok(_) => {
                    &&& pda_of(seeds.deep_view(), program_id@) matches Some(q)
                    &&& q.0 == expected_key@
                    &&& expected_owner@ == program_id@
                },
                Err(e) => match e {
                    SignerPdaError::InvalidSeeds => match pda_of(
                        seeds.deep_view(),
                        program_id@,
                    ) {
                        Some(q) => q.0 != expected_key@,
                        None => true,
                    },
                    SignerPdaError::IllegalOwner => {
                        &&& pda_of(seeds.deep_view(), program_id@) matches Some(q)
                        &&& q.0 == expected_key@
                        &&& expected_owner@ != program_id@
                    },
                },
            },
    {
        match Self::new_checked(seeds, program_id, expected_key) {
            Ok(_) => {
                if !bytes32_eq(expected_owner, program_id) {
                    Err(SignerPdaError::IllegalOwner)
                } else {
                    Ok(())
                }
            },
            Err(e) => Err(e),
        }
    }

    /// The signer seeds of the PDA: the seeds followed by the bump seed.
    pub fn signer_seeds(&self) -> (r: Vec<Vec<u8>>)
        ensures
            r@.len() == self.seeds@.len() + 1,
            forall|k: int| 0 <= k < self.seeds@.len() ==> (#[trigger] r@[k])@ == self.seeds@[k]@,
            r@[self.seeds@.len() as int]@ == self.bump@,
    {
        let mut out: Vec<Vec<u8>> = Vec::new();
        let mut i: usize = 0;
        while i < self.seeds.len()
            invariant
                i <= self.seeds@.len(),
                out@.len() == i,
                forall|k: int| 0 <= k < i ==> (#[trigger] out@[k])@ == self.seeds@[k]@,
            decreases self.seeds@.len() - i,
        {
            let piece = copy_bytes(&self.seeds[i]);
            out.push(piece);
            i = i + 1;
        }
        let mut bump_seed: Vec<u8> = Vec::new();
        bump_seed.push(self.bump[0]);
        proof {
            assert(bump_seed@ =~= self.bump@);
        }
        out.push(bump_seed);
        out
    }
}

} // verus!
