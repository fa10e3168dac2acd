use breez_sdk_ark::chain::{
    apply_spend_statuses, candidate_outputs, spending_txid, ExplorerTx, OutputStatus, TxOutput,
};
use breez_sdk_ark::error::SdkError;

fn script() -> Vec<u8> {
    vec![0x51, 0x20, 0xaa, 0xbb]
}

fn funding_tx() -> ExplorerTx {
    ExplorerTx {
        txid: "f00d".to_string(),
        block_time: Some(1_700_000_000),
        outputs: vec![TxOutput { script_pubkey: script(), value: 50_000 }],
    }
}

#[test]
fn confirmed_output_is_unspent_then_spent() {
    let found = candidate_outputs(&vec![funding_tx()], &script());
    assert_eq!(1, found.len());
    let unspent = apply_spend_statuses(
        found,
        vec![Ok(Some(OutputStatus { spent: false, spending_txid: None }))],
    )
    .unwrap();
    assert_eq!(1, unspent.len());
    assert!(!unspent[0].is_spent);
    assert_eq!(50_000, unspent[0].amount);
    assert_eq!(Some(1_700_000_000), unspent[0].confirmation_blocktime);

    let found = candidate_outputs(&vec![funding_tx()], &script());
    let spent = apply_spend_statuses(
        found,
        vec![Ok(Some(OutputStatus { spent: true, spending_txid: Some("beef".to_string()) }))],
    )
    .unwrap();
    assert!(spent[0].is_spent);
    assert_eq!("f00d", spent[0].outpoint.txid);
    assert_eq!(0, spent[0].outpoint.vout);
}

#[test]
fn only_outputs_paying_the_script_are_found() {
    let tx = ExplorerTx {
        txid: "t1".to_string(),
        block_time: None,
        outputs: vec![
            TxOutput { script_pubkey: vec![1, 2], value: 1 },
            TxOutput { script_pubkey: script(), value: 2 },
            TxOutput { script_pubkey: script(), value: 3 },
        ],
    };
    let other = ExplorerTx {
        txid: "t2".to_string(),
        block_time: Some(9),
        outputs: vec![TxOutput { script_pubkey: script(), value: 4 }],
    };
    let found = candidate_outputs(&vec![tx, other], &script());
    let seen: Vec<(String, u32, u64)> =
        found.iter().map(|u| (u.outpoint.txid.clone(), u.outpoint.vout, u.amount)).collect();
    assert_eq!(
        vec![
            ("t1".to_string(), 1, 2),
            ("t1".to_string(), 2, 3),
            ("t2".to_string(), 0, 4)
        ],
        seen
    );
    assert!(found.iter().all(|u| !u.is_spent));
    assert_eq!(None, found[0].confirmation_blocktime);
}

#[test]
fn unknown_output_stays_unspent() {
    let found = candidate_outputs(&vec![funding_tx()], &script());
    let r = apply_spend_statuses(found, vec![Ok(None)]).unwrap();
    assert!(!r[0].is_spent);
}

#[test]
fn failed_status_query_fails_the_scan() {
    let tx = ExplorerTx {
        txid: "t".to_string(),
        block_time: None,
        outputs: vec![
            TxOutput { script_pubkey: script(), value: 1 },
            TxOutput { script_pubkey: script(), value: 2 },
            TxOutput { script_pubkey: script(), value: 3 },
        ],
    };
    let found = candidate_outputs(&vec![tx], &script());
    let r = apply_spend_statuses(
        found,
        vec![Ok(None), Err("first".to_string()), Err("second".to_string())],
    );
    match r {
        Err(SdkError::NetworkError(m)) => assert_eq!("first", m),
        _ => panic!("expected a network error"),
    }
}

#[test]
fn spending_transaction_is_reported() {
    assert_eq!(
        Some("beef".to_string()),
        spending_txid(Some(OutputStatus { spent: true, spending_txid: Some("beef".to_string()) }))
    );
    assert_eq!(None, spending_txid(None));
}
