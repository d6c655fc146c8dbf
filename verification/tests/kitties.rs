use token_ledger::kitties::{combine_dna, KittyError, KittyEvent, KittyRegistry};

#[test]
fn create_kitties_works() {
    let mut reg = KittyRegistry::new();
    assert_eq!(reg.create(1, [0u8; 16]), Ok(()));
}

#[test]
fn create_records_owner_and_event() {
    let mut reg = KittyRegistry::new();
    assert_eq!(reg.create(7, [3u8; 16]), Ok(()));
    assert_eq!(reg.kitties_count(), 1);
    assert_eq!(reg.kitty_owner(0), Some(7));
    assert_eq!(reg.kitties[0].0, [3u8; 16]);
    assert_eq!(reg.events, vec![KittyEvent::Created(7, 0)]);
}

#[test]
fn combine_dna_selects_bits() {
    // Selector bits set take the first parent's bits, clear bits the
    // second's: (0xF0 & 0xCC) | (0x0F & 0xAA) == 0xCA.
    assert_eq!(combine_dna(0xCC, 0xAA, 0xF0), 0xCA);
    assert_eq!(combine_dna(0x12, 0x34, 0xFF), 0x12);
    assert_eq!(combine_dna(0x12, 0x34, 0x00), 0x34);
}

#[test]
fn bread_combines_parent_dna() {
    let mut reg = KittyRegistry::new();
    assert_eq!(reg.create(1, [0xCC; 16]), Ok(()));
    assert_eq!(reg.create(1, [0xAA; 16]), Ok(()));
    assert_eq!(reg.bread(1, 0, 1, [0xF0; 16]), Ok(()));
    assert_eq!(reg.kitties_count(), 3);
    assert_eq!(reg.kitties[2].0, [0xCA; 16]);
    assert_eq!(reg.kitty_owner(2), Some(1));
    assert_eq!(reg.events[2], KittyEvent::Created(1, 2));
}

#[test]
fn bread_rejects_unknown_parent() {
    let mut reg = KittyRegistry::new();
    assert_eq!(reg.create(1, [0u8; 16]), Ok(()));
    let r = reg.bread(1, 0, 5, [0u8; 16]);
    assert_eq!(r, Err(KittyError::InvalidKittyId));
    assert_eq!(reg.kitties_count(), 1);
}

#[test]
fn bread_rejects_same_parent() {
    let mut reg = KittyRegistry::new();
    assert_eq!(reg.create(1, [0u8; 16]), Ok(()));
    let r = reg.bread(1, 0, 0, [0u8; 16]);
    assert_eq!(r, Err(KittyError::RequireDifferentParent));
    assert_eq!(reg.kitties_count(), 1);
}

#[test]
fn transfer_changes_owner() {
    let mut reg = KittyRegistry::new();
    assert_eq!(reg.create(1, [9u8; 16]), Ok(()));
    assert_eq!(reg.transfer(1, 2, 0), Ok(()));
    assert_eq!(reg.kitty_owner(0), Some(2));
    assert_eq!(reg.events[1], KittyEvent::Transfered(1, 2, 0));
}

#[test]
fn transfer_rejects_unknown_kitty() {
    let mut reg = KittyRegistry::new();
    assert_eq!(reg.create(1, [9u8; 16]), Ok(()));
    let r = reg.transfer(1, 2, 3);
    assert_eq!(r, Err(KittyError::InvalidKittyId));
    assert_eq!(reg.kitty_owner(0), Some(1));
}
