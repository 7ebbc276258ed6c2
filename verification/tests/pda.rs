//! The program-derived-address checks, cross-validated against the runtime
//! library's own derivation.

use agsol::signer_pda::{SignerPda, SignerPdaError};
use solana_program::pubkey::Pubkey;

#[test]
fn test_checks_and_seeds() {
    let program_id_bytes: [u8; 32] = [3; 32];
    let seed_pubkey: [u8; 32] = [9; 32];
    let program_id = Pubkey::new_from_array(program_id_bytes);
    let seeds = &[b"this is a seed".as_slice(), seed_pubkey.as_ref()];
    let (pda, bump) = Pubkey::find_program_address(seeds, &program_id);

    let owned_seeds: Vec<Vec<u8>> = vec![b"this is a seed".to_vec(), seed_pubkey.to_vec()];
    let signer_pda =
        SignerPda::new_checked(owned_seeds.clone(), &program_id_bytes, &pda.to_bytes()).unwrap();
    assert_eq!(signer_pda.pda, pda.to_bytes());
    let mut expected_signer_seeds = owned_seeds.clone();
    expected_signer_seeds.push(vec![bump]);
    assert_eq!(signer_pda.signer_seeds(), expected_signer_seeds);

    // bad program_id
    assert_eq!(
        SignerPda::new_checked(owned_seeds.clone(), &[4; 32], &pda.to_bytes()).err().unwrap(),
        SignerPdaError::InvalidSeeds
    );
    // bad seeds
    assert_eq!(
        SignerPda::new_checked(vec![b"bad seed".to_vec()], &program_id_bytes, &pda.to_bytes())
            .err()
            .unwrap(),
        SignerPdaError::InvalidSeeds
    );
    // check existing
    assert!(SignerPda::check_existing(
        owned_seeds.clone(),
        &program_id_bytes,
        &pda.to_bytes(),
        &program_id_bytes
    )
    .is_ok());
    // bad owner
    let new_owner: [u8; 32] = [8; 32];
    assert_eq!(
        SignerPda::check_existing(owned_seeds, &program_id_bytes, &pda.to_bytes(), &new_owner)
            .err()
            .unwrap(),
        SignerPdaError::IllegalOwner
    );
}
