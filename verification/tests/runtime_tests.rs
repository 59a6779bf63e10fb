use pallets::Runtime;
use pallets::balances;

#[test]
fn init_balances() {
    let mut balances: balances::Pallet = balances::Pallet::new();

    assert_eq!(balances.balance(&"alice".to_string()), 0);
    balances.set_balance(&"alice".to_string(), 100);
    assert_eq!(balances.balance(&"alice".to_string()), 100);
    assert_eq!(balances.balance(&"bob".to_string()), 0);
}

#[test]
fn init_runtime() {
    let runtime = Runtime::new();
    assert_eq!(runtime.system.block_number(), 0);
    assert_eq!(runtime.system.get_nonce(&"alice".to_string()), 0);
    assert_eq!(runtime.balances.balance(&"alice".to_string()), 0);
}

#[test]
fn scripted_driver() {
    let mut runtime = Runtime::new();

    let alice = "alice".to_string();
    let bob = "bob".to_string();
    let charlie = "charlie".to_string();

    runtime.balances.set_balance(&alice, 100);

    runtime.system.increment_block_number();
    assert_eq!(runtime.system.block_number(), 1);

    runtime.system.inc_nounce(&alice);
    assert!(runtime.balances.transfer(alice.clone(), bob.clone(), 30).is_ok());

    runtime.system.inc_nounce(&alice);
    assert!(runtime.balances.transfer(alice.clone(), charlie.clone(), 20).is_ok());

    assert_eq!(runtime.system.block_number(), 1);
    assert_eq!(runtime.system.get_nonce(&alice), 2);
    assert_eq!(runtime.balances.balance(&alice), 50);
    assert_eq!(runtime.balances.balance(&bob), 30);
    assert_eq!(runtime.balances.balance(&charlie), 20);
}
