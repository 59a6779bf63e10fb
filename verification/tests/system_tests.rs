use pallets::system::Pallet;

#[test]
fn init_system() {
    let system: Pallet = Pallet::new();
    assert_eq!(system.block_number(), 0);
}

#[test]
fn inc_block_number() {
    let mut system: Pallet = Pallet::new();
    system.increment_block_number();
    assert_eq!(system.block_number(), 1);
}

#[test]
fn inc_nonce() {
    let alice = String::from("alice");
    let mut system: Pallet = Pallet::new();
    system.inc_nounce(&alice.clone());
    assert_eq!(system.get_nonce(&alice), 1);
}

#[test]
fn fresh_system_nonces_zero() {
    let system: Pallet = Pallet::new();
    assert_eq!(system.block_number(), 0);
    assert_eq!(system.get_nonce(&String::from("alice")), 0);
    assert_eq!(system.get_nonce(&String::from("bob")), 0);
}

#[test]
fn block_counter_three() {
    let mut system: Pallet = Pallet::new();
    system.increment_block_number();
    system.increment_block_number();
    system.increment_block_number();
    assert_eq!(system.block_number(), 3);
}

#[test]
fn nonce_counts_per_account() {
    let alice = String::from("alice");
    let bob = String::from("bob");
    let mut system: Pallet = Pallet::new();
    system.inc_nounce(&alice);
    system.inc_nounce(&alice);
    assert_eq!(system.get_nonce(&alice), 2);
    assert_eq!(system.get_nonce(&bob), 0);
    assert_eq!(system.block_number(), 0);
}

#[test]
fn nonce_query_is_pure() {
    let alice = String::from("alice");
    let bob = String::from("bob");
    let mut system: Pallet = Pallet::new();
    system.inc_nounce(&alice);
    assert_eq!(system.get_nonce(&alice), system.get_nonce(&alice));
    assert_eq!(system.get_nonce(&bob), 0);
    assert_eq!(system.get_nonce(&bob), 0);
    assert_eq!(system.get_nonce(&alice), 1);
}
