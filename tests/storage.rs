use breez_sdk_ark::models::OffchainBalance;
use breez_sdk_ark::{MemoryStorage, Payment, PaymentStatus, PaymentType, Storage};

fn create_test_payment(id: &str, payment_type: PaymentType, status: PaymentStatus) -> Payment {
    Payment {
        id: id.to_string(),
        payment_type,
        status,
        amount: 1000,
        fees: 10,
        timestamp: 1620000000,
        description: Some("Test payment".to_string()),
        destination: Some("test_destination".to_string()),
    }
}

fn payment_at(id: &str, timestamp: u64, amount: u64) -> Payment {
    Payment {
        id: id.to_string(),
        payment_type: PaymentType::Received,
        status: PaymentStatus::Completed,
        amount,
        fees: 0,
        timestamp,
        description: None,
        destination: None,
    }
}

fn ids(payments: &[Payment]) -> Vec<String> {
    payments.iter().map(|p| p.id.clone()).collect()
}

#[test]
fn test_init() {
    let storage = MemoryStorage::new();
    assert!(storage.list_payments(0, 10).unwrap().is_empty());
}

#[test]
fn test_save_and_get_payment() {
    let mut storage = MemoryStorage::new();
    let payment = create_test_payment("test_id_1", PaymentType::Sent, PaymentStatus::Completed);
    storage.save_payment(&payment).unwrap();
    let retrieved_payment = storage.get_payment("test_id_1").unwrap().unwrap();
    assert_eq!(payment.id, retrieved_payment.id);
    assert_eq!(payment.amount, retrieved_payment.amount);
    assert_eq!(
        payment.payment_type.to_string(),
        retrieved_payment.payment_type.to_string()
    );
    assert_eq!(
        payment.status.to_string(),
        retrieved_payment.status.to_string()
    );
}

#[test]
fn test_get_nonexistent_payment() {
    let storage = MemoryStorage::new();
    let result = storage.get_payment("nonexistent_id").unwrap();
    assert!(result.is_none());
}

#[test]
fn test_list_payments() {
    let mut storage = MemoryStorage::new();
    let payment1 = create_test_payment("test_id_3", PaymentType::Sent, PaymentStatus::Completed);
    let payment2 = create_test_payment("test_id_4", PaymentType::Received, PaymentStatus::Pending);
    let payment3 =
        create_test_payment("test_id_5", PaymentType::Received, PaymentStatus::Completed);
    storage.save_payment(&payment1).unwrap();
    storage.save_payment(&payment2).unwrap();
    storage.save_payment(&payment3).unwrap();

    let all_payments = storage.list_payments(0, 10).unwrap();
    assert_eq!(3, all_payments.len());

    let first_page = storage.list_payments(0, 2).unwrap();
    assert_eq!(2, first_page.len());

    let second_page = storage.list_payments(2, 2).unwrap();
    assert_eq!(1, second_page.len());
}

#[test]
fn test_save_and_get_offchain_balance() {
    let mut storage = MemoryStorage::new();
    let balance = OffchainBalance::new(5000, 10000);
    storage.save_offchain_balance(&balance).unwrap();
    let retrieved_balance = storage.get_offchain_balance().unwrap();
    assert_eq!(balance.pending_sats, retrieved_balance.pending_sats);
    assert_eq!(balance.confirmed_sats, retrieved_balance.confirmed_sats);
    assert_eq!(balance.total_sats(), retrieved_balance.total_sats());
}

#[test]
fn test_update_offchain_balance() {
    let mut storage = MemoryStorage::new();
    let initial_balance = OffchainBalance::new(1000, 2000);
    storage.save_offchain_balance(&initial_balance).unwrap();
    let updated_balance = OffchainBalance::new(3000, 4000);
    storage.save_offchain_balance(&updated_balance).unwrap();
    let retrieved_balance = storage.get_offchain_balance().unwrap();
    assert_eq!(updated_balance.pending_sats, retrieved_balance.pending_sats);
    assert_eq!(
        updated_balance.confirmed_sats,
        retrieved_balance.confirmed_sats
    );
    assert_eq!(updated_balance.total_sats(), retrieved_balance.total_sats());
}

#[test]
fn test_default_offchain_balance() {
    let storage = MemoryStorage::new();
    let default_balance = storage.get_offchain_balance().unwrap();
    assert_eq!(0, default_balance.pending_sats);
    assert_eq!(0, default_balance.confirmed_sats);
    assert_eq!(0, default_balance.total_sats());
}

#[test]
fn save_payment_replaces_record_with_same_id() {
    let mut storage = MemoryStorage::new();
    storage.save_payment(&payment_at("a", 10, 1)).unwrap();
    storage.save_payment(&payment_at("a", 20, 2)).unwrap();
    let all = storage.list_payments(0, 10).unwrap();
    assert_eq!(1, all.len());
    assert_eq!(2, all[0].amount);
    assert_eq!(20, all[0].timestamp);
}

#[test]
fn reconcile_twice_leaves_same_state() {
    let list = vec![payment_at("b", 5, 1), payment_at("a", 5, 2), payment_at("c", 9, 3)];
    let mut once = MemoryStorage::new();
    once.save_payment(&payment_at("z", 100, 9)).unwrap();
    once.save_payments(&list).unwrap();
    let after_once = once.list_payments(0, 10).unwrap();
    once.save_payments(&list).unwrap();
    let after_twice = once.list_payments(0, 10).unwrap();
    assert_eq!(ids(&after_once), ids(&after_twice));
    assert_eq!(vec!["c", "a", "b"], ids(&after_twice));
}

#[test]
fn reconcile_prunes_absent_records() {
    let mut storage = MemoryStorage::new();
    let a = payment_at("A", 3, 1);
    let b = payment_at("B", 2, 2);
    let c = payment_at("C", 1, 3);
    storage.save_payments(&[a.clone(), b.clone(), c.clone()]).unwrap();
    assert_eq!(vec!["A", "B", "C"], ids(&storage.list_payments(0, 10).unwrap()));
    storage.save_payments(&[a.clone(), c.clone()]).unwrap();
    assert_eq!(vec!["A", "C"], ids(&storage.list_payments(0, 10).unwrap()));
    assert!(storage.get_payment("B").unwrap().is_none());
    storage.save_payments(&[]).unwrap();
    assert!(storage.list_payments(0, 10).unwrap().is_empty());
}

#[test]
fn reconcile_keeps_last_record_of_an_id() {
    let mut storage = MemoryStorage::new();
    storage.save_payments(&[payment_at("x", 1, 10), payment_at("x", 2, 20)]).unwrap();
    let all = storage.list_payments(0, 10).unwrap();
    assert_eq!(1, all.len());
    assert_eq!(20, all[0].amount);
}

#[test]
fn reconcile_keeps_balance() {
    let mut storage = MemoryStorage::new();
    storage.save_offchain_balance(&OffchainBalance::new(7, 8)).unwrap();
    storage.save_payments(&[payment_at("x", 1, 10)]).unwrap();
    let balance = storage.get_offchain_balance().unwrap();
    assert_eq!(7, balance.pending_sats);
    assert_eq!(8, balance.confirmed_sats);
}

#[test]
fn pages_partition_the_listing() {
    let mut storage = MemoryStorage::new();
    let list = vec![
        payment_at("mon", 50, 1),
        payment_at("tue", 70, 1),
        payment_at("wed", 70, 1),
        payment_at("thu", 10, 1),
        payment_at("fri", 60, 1),
    ];
    storage.save_payments(&list).unwrap();
    let all = storage.list_payments(0, 5).unwrap();
    assert_eq!(vec!["tue", "wed", "fri", "mon", "thu"], ids(&all));
    for w in all.windows(2) {
        assert!(w[0].timestamp >= w[1].timestamp);
    }
    for k in 0..=5u32 {
        let mut joined = ids(&storage.list_payments(0, k).unwrap());
        joined.extend(ids(&storage.list_payments(k, 5 - k).unwrap()));
        assert_eq!(ids(&all), joined);
    }
    assert!(storage.list_payments(9, 3).unwrap().is_empty());
    assert_eq!(vec!["thu"], ids(&storage.list_payments(4, u32::MAX).unwrap()));
}

#[test]
fn listing_orders_ties_by_identifier() {
    let mut storage = MemoryStorage::new();
    storage.save_payment(&payment_at("b", 1, 1)).unwrap();
    storage.save_payment(&payment_at("ab", 1, 1)).unwrap();
    storage.save_payment(&payment_at("a", 1, 1)).unwrap();
    assert_eq!(vec!["a", "ab", "b"], ids(&storage.list_payments(0, 10).unwrap()));
}

fn through_trait(store: &mut dyn Storage) -> usize {
    store.save_payment(&payment_at("t", 1, 1)).unwrap();
    store.list_payments(0, 10).unwrap().len()
}

#[test]
fn storage_trait_reaches_memory_store() {
    let mut storage = MemoryStorage::new();
    assert_eq!(1, through_trait(&mut storage));
}
