use vstd::prelude::*;

use crate::error::SdkError;

verus! {

/// A reference to one output of one transaction.
#[derive(Debug)]
pub struct OutPoint {
    /// The transaction id, in its hexadecimal form.
    pub txid: String,
    /// The index of the output in the transaction.
    pub vout: u32,
}

/// An output that pays the scanned address, as the scan reports it.
#[derive(Debug)]
pub struct ExplorerUtxo {
    /// Where the output is.
    pub outpoint: OutPoint,
    /// Its value in satoshis.
    pub amount: u64,
    /// The block time of the transaction, once confirmed.
    pub confirmation_blocktime: Option<u64>,
    /// Whether a spend of the output has been observed.
    pub is_spent: bool,
}

/// One output of a transaction that the block explorer lists.
pub struct TxOutput {
    /// The locking script.
    pub script_pubkey: Vec<u8>,
    /// The value in satoshis.
    pub value: u64,
}

/// A transaction that the block explorer lists for a script.
pub struct ExplorerTx {
    /// The transaction id, in its hexadecimal form.
    pub txid: String,
    /// The block time, once confirmed.
    pub block_time: Option<u64>,
    /// The outputs, in order.
    pub outputs: Vec<TxOutput>,
}

/// The spend state of an output, as the block explorer reports it.
pub struct OutputStatus {
    /// Whether the output is spent.
    pub spent: bool,
    /// The spending transaction, where known.
    pub spending_txid: Option<String>,
}

/// The outputs among the first `n` of `tx` that pay `script`, in order, not yet known spent.
pub open spec fn outputs_paying(tx: ExplorerTx, script: Seq<u8>, n: nat) -> Seq<ExplorerUtxo>
    decreases n,
{
    if n == 0 {
        Seq::empty()
    } else {
        let before = outputs_paying(tx, script, (n - 1) as nat);
        let out = tx.outputs@[n - 1];
        if out.script_pubkey@ == script {
            before.push(
                ExplorerUtxo {
                    outpoint: OutPoint { txid: tx.txid, vout: (n - 1) as u32 },
                    amount: out.value,
                    confirmation_blocktime: tx.block_time,
                    is_spent: false,
                },
            )
        } else {
            before
        }
    }
}

/// The outputs of the first `n` transactions of `txs` that pay `script`, transaction by
/// transaction and output by output.
pub open spec fn candidates(txs: Seq<ExplorerTx>, script: Seq<u8>, n: nat) -> Seq<ExplorerUtxo>
    decreases n,
{
    if n == 0 {
        Seq::empty()
    } else {
        candidates(txs, script, (n - 1) as nat) + outputs_paying(
            txs[n - 1],
            script,
            txs[n - 1].outputs@.len(),
        )
    }
}

/// An output with the spend state that the explorer reported for it: spent once the explorer
/// says so; an output the explorer does not know stays as it was.
pub open spec fn with_status(u: ExplorerUtxo, status: Option<OutputStatus>) -> ExplorerUtxo {
    ExplorerUtxo {
        is_spent: u.is_spent || (status matches Some(s) && s.spent),
        ..u
    }
}

/// Whether the query of the `i`th status is the first that failed.
pub open spec fn first_failure(statuses: Seq<Result<Option<OutputStatus>, String>>, i: int) -> bool {
    &&& 0 <= i < statuses.len()
    &&& statuses[i] is Err
    &&& forall|j: int| 0 <= j < i ==> #[trigger] statuses[j] is Ok
}

fn same_bytes(a: &Vec<u8>, b: &Vec<u8>) -> (r: bool)
    ensures
        r == (a@ == b@),
{
    if a.len() != b.len() {
        return false;
    }
    let mut i: usize = 0;
    while i < a.len()
        invariant
            a@.len() == b@.len(),
            i <= a@.len(),
            forall|k: int| 0 <= k < i ==> a@[k] == b@[k],
        decreases a@.len() - i,
    {
        if a[i] != b[i] {
            return false;
        }
        i = i + 1;
    }
    assert(a@ =~= b@);
    true
}

fn copy_block_time(t: &Option<u64>) -> (r: Option<u64>)
    ensures
        r == *t,
{
    match t {
        Some(v) => Some(*v),
        None => None,
    }
}

/// The outputs of `txs` that pay `script_pubkey`, each marked not spent: the first step of a
/// scan, before the spend state of each output is asked for.
pub fn candidate_outputs(txs: &Vec<ExplorerTx>, script_pubkey: &Vec<u8>) -> (r: Vec<ExplorerUtxo>)
    requires
        forall|k: int| 0 <= k < txs@.len() ==> #[trigger] txs@[k].outputs@.len() <= u32::MAX,
    ensures
        r@ == candidates(txs@, script_pubkey@, txs@.len()),
{
    let mut found: Vec<ExplorerUtxo> = Vec::new();
    for t in 0..txs.len()
        invariant
            forall|k: int| 0 <= k < txs@.len() ==> #[trigger] txs@[k].outputs@.len() <= u32::MAX,
            found@ == candidates(txs@, script_pubkey@, t as nat),
    {
        let tx = &txs[t];
        let ghost before = found@;
        let n = tx.outputs.len();
        assert(n <= u32::MAX);
        for i in 0..n
            invariant
                n == tx.outputs@.len(),
                n <= u32::MAX,
                found@ == before + outputs_paying(*tx, script_pubkey@, i as nat),
        {
            let out = &tx.outputs[i];
            if same_bytes(&out.script_pubkey, script_pubkey) {
                found.push(
                    ExplorerUtxo {
                        outpoint: OutPoint { txid: tx.txid.clone(), vout: i as u32 },
                        amount: out.value,
                        confirmation_blocktime: copy_block_time(&tx.block_time),
                        is_spent: false,
                    },
                );
            }
            assert(found@ =~= before + outputs_paying(*tx, script_pubkey@, (i + 1) as nat));
        }
    }
    found
}

/// The second step of a scan: each output with the spend state that was reported for it, the
/// `i`th status belonging to the `i`th output. A failed query fails the whole scan, with the
/// first failure's message, rather than leaving an output's state unknown.
pub fn apply_spend_statuses(
    outputs: Vec<ExplorerUtxo>,
    statuses: Vec<Result<Option<OutputStatus>, String>>,
) -> (r: Result<Vec<ExplorerUtxo>, SdkError>)
    requires
        outputs@.len() == statuses@.len(),
    ensures
        r is Ok <==> forall|i: int| 0 <= i < statuses@.len() ==> #[trigger] statuses@[i] is Ok,
        r matches Ok(v) ==> v@.len() == outputs@.len() && forall|i: int| 0 <= i < v@.len() ==>
            #[trigger] v@[i] == with_status(outputs@[i], statuses@[i]->Ok_0),
        r matches Err(e) ==> exists|i: int| #[trigger] first_failure(statuses@, i)
            && e == SdkError::NetworkError(statuses@[i]->Err_0),
{
    let ghost outs0 = outputs@;
    let ghost stats0 = statuses@;
    let n = outputs.len();
    let mut i: usize = 0;
    while i < n
        invariant
            n == outs0.len(),
            outs0.len() == stats0.len(),
            i <= n,
            outputs@ == outs0,
            statuses@ == stats0,
            forall|j: int| 0 <= j < i ==> #[trigger] stats0[j] is Ok,
        decreases n - i,
    {
        match &statuses[i] {
            Err(message) => {
                let e = SdkError::NetworkError(message.clone());
                assert(stats0[i as int] is Err);
                assert(first_failure(stats0, i as int));
                assert(!(stats0[i as int] is Ok));
                return Err(e);
            },
            Ok(_) => {},
        }
        i = i + 1;
    }
    let mut outs = outputs;
    let mut stats = statuses;
    let mut done: Vec<ExplorerUtxo> = Vec::new();
    let mut rest_out: Vec<ExplorerUtxo> = Vec::new();
    // Pair outs and stats from the back, then restore the order.
    while outs.len() > 0
        invariant
            outs@.len() == stats@.len(),
            outs@ == outs0.subrange(0, outs@.len() as int),
            stats@ == stats0.subrange(0, stats@.len() as int),
            forall|j: int| 0 <= j < stats0.len() ==> #[trigger] stats0[j] is Ok,
            outs0.len() == stats0.len(),
            rest_out@.len() + outs@.len() == outs0.len(),
            forall|k: int| 0 <= k < rest_out@.len() ==> #[trigger] rest_out@[k] == with_status(
                outs0[outs0.len() - 1 - k],
                stats0[outs0.len() - 1 - k]->Ok_0,
            ),
        decreases outs@.len(),
    {
        let u = outs.pop().unwrap();
        let s = stats.pop().unwrap();
        let spent = match &s {
            Ok(Some(st)) => st.spent,
            _ => false,
        };
        let updated = ExplorerUtxo { is_spent: u.is_spent || spent, ..u };
        rest_out.push(updated);
    }
    while rest_out.len() > 0
        invariant
            outs0.len() == stats0.len(),
            done@.len() + rest_out@.len() == outs0.len(),
            forall|k: int| 0 <= k < rest_out@.len() ==> #[trigger] rest_out@[k] == with_status(
                outs0[outs0.len() - 1 - k],
                stats0[outs0.len() - 1 - k]->Ok_0,
            ),
            forall|k: int| 0 <= k < done@.len() ==> #[trigger] done@[k] == with_status(
                outs0[k],
                stats0[k]->Ok_0,
            ),
        decreases rest_out@.len(),
    {
        let u = rest_out.pop().unwrap();
        done.push(u);
    }
    Ok(done)
}

/// The transaction that spends an output, where the explorer reported one.
pub fn spending_txid(status: Option<OutputStatus>) -> (r: Option<String>)
    ensures
        r == match status {
            Some(s) => s.spending_txid,
            None => None,
        },
{
    match status {
        Some(s) => s.spending_txid,
        None => None,
    }
}

} // verus!
