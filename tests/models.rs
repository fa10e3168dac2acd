use breez_sdk_ark::error::SdkError;
use breez_sdk_ark::models::{payments_from_history, Config, Network, OffchainBalance, TxEvent};
use breez_sdk_ark::{Payment, PaymentStatus, PaymentType};

#[test]
fn boarding_unconfirmed_maps_to_pending_received() {
    let p = Payment::from(TxEvent::Boarding {
        txid: "tx1".to_string(),
        amount: 2500,
        confirmed_at: None,
    });
    assert_eq!("tx1", p.id);
    assert_eq!(PaymentStatus::Pending, p.status);
    assert_eq!(PaymentType::Received, p.payment_type);
    assert_eq!(0, p.fees);
    assert_eq!(2500, p.amount);
    assert_eq!(0x7fff_ffff_ffff_ffff, p.timestamp);
}

#[test]
fn boarding_confirmed_maps_to_completed() {
    let p = Payment::from(TxEvent::Boarding {
        txid: "tx2".to_string(),
        amount: 10,
        confirmed_at: Some(1_700_000_000),
    });
    assert_eq!(PaymentStatus::Completed, p.status);
    assert_eq!(1_700_000_000, p.timestamp);
}

#[test]
fn settled_redeem_of_negative_amount_is_completed_send() {
    let p = Payment::from(TxEvent::Redeem {
        txid: "tx3".to_string(),
        signed_amount: -1000,
        is_settled: true,
        created_at: 42,
    });
    assert_eq!(PaymentType::Sent, p.payment_type);
    assert_eq!(1000, p.amount);
    assert_eq!(PaymentStatus::Completed, p.status);
    assert_eq!(0, p.fees);
    assert_eq!(42, p.timestamp);
    assert!(p.description.is_none());
    assert!(p.destination.is_none());
}

#[test]
fn unsettled_redeem_is_pending() {
    let p = Payment::from(TxEvent::Redeem {
        txid: "tx4".to_string(),
        signed_amount: 300,
        is_settled: false,
        created_at: 1,
    });
    assert_eq!(PaymentType::Received, p.payment_type);
    assert_eq!(PaymentStatus::Pending, p.status);
    assert_eq!(300, p.amount);
}

#[test]
fn round_is_always_completed_and_signed_by_amount() {
    let incoming = Payment::from(TxEvent::Round {
        txid: "r1".to_string(),
        signed_amount: 700,
        created_at: 5,
    });
    assert_eq!(PaymentType::Received, incoming.payment_type);
    assert_eq!(PaymentStatus::Completed, incoming.status);
    let zero = Payment::from(TxEvent::Round {
        txid: "r2".to_string(),
        signed_amount: 0,
        created_at: 5,
    });
    assert_eq!(PaymentType::Sent, zero.payment_type);
    assert_eq!(0, zero.amount);
    let smallest = Payment::from(TxEvent::Round {
        txid: "r3".to_string(),
        signed_amount: i64::MIN,
        created_at: 5,
    });
    assert_eq!(PaymentType::Sent, smallest.payment_type);
    assert_eq!(1u64 << 63, smallest.amount);
}

#[test]
fn history_is_normalized_in_order() {
    let payments = payments_from_history(vec![
        TxEvent::Round { txid: "a".to_string(), signed_amount: -5, created_at: 1 },
        TxEvent::Boarding { txid: "b".to_string(), amount: 6, confirmed_at: Some(2) },
    ]);
    assert_eq!(2, payments.len());
    assert_eq!("a", payments[0].id);
    assert_eq!(PaymentType::Sent, payments[0].payment_type);
    assert_eq!(5, payments[0].amount);
    assert_eq!("b", payments[1].id);
    assert!(payments_from_history(vec![]).is_empty());
}

#[test]
fn default_config_per_network() {
    assert!(matches!(
        Config::default_config(Network::Bitcoin, "d".to_string()),
        Err(SdkError::InvalidNetwork)
    ));
    assert!(matches!(
        Config::default_config(Network::Testnet, "d".to_string()),
        Err(SdkError::InvalidNetwork)
    ));
    let signet = Config::default_config(Network::Signet, "dir".to_string()).unwrap();
    assert_eq!("https://mutinynet.arkade.sh", signet.ark_server_url);
    assert_eq!("https://mutinynet.com/api", signet.esplora_url);
    assert_eq!("dir", signet.data_dir);
    let regtest = Config::default_config(Network::Regtest, "r".to_string()).unwrap();
    assert_eq!("http://localhost:7070", regtest.ark_server_url);
    assert_eq!("http://localhost:30000", regtest.esplora_url);
    assert_eq!(Network::Regtest, regtest.network);
}

#[test]
fn names_of_types_and_statuses() {
    assert_eq!("Sent", PaymentType::Sent.to_string());
    assert_eq!("Received", PaymentType::Received.to_string());
    assert_eq!("Expired", PaymentStatus::Expired.to_string());
    assert_eq!(Some(PaymentType::Received), PaymentType::from_name("Received"));
    assert_eq!(None, PaymentType::from_name("received"));
    for s in [
        PaymentStatus::Pending,
        PaymentStatus::Completed,
        PaymentStatus::Failed,
        PaymentStatus::Expired,
    ] {
        assert_eq!(Some(s), PaymentStatus::from_name(&s.to_string()));
    }
    assert_eq!(None, PaymentStatus::from_name("Unknown"));
    assert_eq!("Signet", Network::Signet.to_string());
}

#[test]
fn balance_total_and_default() {
    assert_eq!(15000, OffchainBalance::new(5000, 10000).total_sats());
    let d = OffchainBalance::default();
    assert_eq!(0, d.pending_sats);
    assert_eq!(0, d.confirmed_sats);
}

#[test]
fn error_texts() {
    assert_eq!(
        "Storage error: disk full",
        SdkError::StorageError("disk full".to_string()).to_string()
    );
    assert_eq!("Invalid network", SdkError::InvalidNetwork.to_string());
    assert_eq!("SDK not initialized", SdkError::NotInitialized.to_string());
    assert_eq!(
        "Network error: timeout",
        SdkError::NetworkError("timeout".to_string()).to_string()
    );
}

#[test]
fn payment_clone_keeps_fields() {
    let p = Payment {
        id: "c".to_string(),
        payment_type: PaymentType::Sent,
        status: PaymentStatus::Failed,
        amount: 3,
        fees: 4,
        timestamp: 5,
        description: Some("d".to_string()),
        destination: None,
    };
    let q = p.clone();
    assert_eq!(p.id, q.id);
    assert_eq!(p.status, q.status);
    assert_eq!(p.description, q.description);
    assert_eq!(p.fees, q.fees);
}
