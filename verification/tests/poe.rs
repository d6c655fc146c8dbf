use token_ledger::poe::{ClaimRegistry, PoeError, PoeEvent};

#[test]
fn create_claim_records_owner_and_block() {
    let mut reg = ClaimRegistry::new();
    let claim = vec![1u8, 2, 3];
    assert_eq!(reg.create_claim(1, claim.clone(), 5), Ok(()));
    assert_eq!(reg.get_claim(&claim), Some((1, 5)));
    assert_eq!(reg.events, vec![PoeEvent::ClaimCreated(1, claim)]);
}

#[test]
fn create_claim_rejects_duplicate() {
    let mut reg = ClaimRegistry::new();
    let claim = vec![1u8, 2, 3];
    assert_eq!(reg.create_claim(1, claim.clone(), 5), Ok(()));
    let r = reg.create_claim(2, claim.clone(), 6);
    assert_eq!(r, Err(PoeError::ProofAlreadyClaimed));
    assert_eq!(reg.get_claim(&claim), Some((1, 5)));
    assert_eq!(reg.events.len(), 1);
}

#[test]
fn revoke_claim_frees_the_claim() {
    let mut reg = ClaimRegistry::new();
    let claim = vec![9u8, 9];
    assert_eq!(reg.create_claim(1, claim.clone(), 5), Ok(()));
    assert_eq!(reg.revoke_claim(1, claim.clone()), Ok(()));
    assert_eq!(reg.get_claim(&claim), None);
    assert_eq!(reg.events[1], PoeEvent::ClaimRevoked(1, claim.clone()));
    // The freed claim can be recorded anew, by someone else.
    assert_eq!(reg.create_claim(2, claim.clone(), 8), Ok(()));
    assert_eq!(reg.get_claim(&claim), Some((2, 8)));
}

#[test]
fn revoke_claim_rejects_non_owner_and_unknown() {
    let mut reg = ClaimRegistry::new();
    let claim = vec![4u8];
    assert_eq!(
        reg.revoke_claim(1, claim.clone()),
        Err(PoeError::NoSuchProof)
    );
    assert_eq!(reg.create_claim(1, claim.clone(), 5), Ok(()));
    assert_eq!(
        reg.revoke_claim(2, claim.clone()),
        Err(PoeError::NotProofOwner)
    );
    assert_eq!(reg.get_claim(&claim), Some((1, 5)));
}

#[test]
fn transfer_claim_moves_ownership_and_keeps_block() {
    let mut reg = ClaimRegistry::new();
    let claim = vec![7u8, 8];
    assert_eq!(reg.create_claim(1, claim.clone(), 7), Ok(()));
    assert_eq!(reg.transfer_claim(1, claim.clone(), 9), Ok(()));
    assert_eq!(reg.get_claim(&claim), Some((9, 7)));
    assert_eq!(reg.events[1], PoeEvent::ClaimTransfer(9, claim));
}

#[test]
fn transfer_claim_rejects_non_owner_and_unknown() {
    let mut reg = ClaimRegistry::new();
    let claim = vec![7u8, 8];
    assert_eq!(
        reg.transfer_claim(1, claim.clone(), 9),
        Err(PoeError::ClaimNotExist)
    );
    assert_eq!(reg.create_claim(1, claim.clone(), 7), Ok(()));
    assert_eq!(
        reg.transfer_claim(2, claim.clone(), 9),
        Err(PoeError::NotClaimOwner)
    );
    assert_eq!(reg.get_claim(&claim), Some((1, 7)));
}

#[test]
fn distinct_claims_are_independent() {
    let mut reg = ClaimRegistry::new();
    let a = vec![1u8];
    let b = vec![1u8, 0];
    assert_eq!(reg.create_claim(1, a.clone(), 2), Ok(()));
    assert_eq!(reg.create_claim(2, b.clone(), 3), Ok(()));
    assert_eq!(reg.revoke_claim(1, a.clone()), Ok(()));
    assert_eq!(reg.get_claim(&a), None);
    assert_eq!(reg.get_claim(&b), Some((2, 3)));
}
