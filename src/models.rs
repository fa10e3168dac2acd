use vstd::prelude::*;

use crate::error::SdkError;

verus! {

/// The network that a wallet works on.
#[derive(Clone, Copy, Debug, PartialEq, Eq, Structural)]
pub enum Network {
    Bitcoin,
    Testnet,
    Signet,
    Regtest,
}

/// The display name of a network.
pub open spec fn network_name(n: Network) -> Seq<char> {
    match n {
        Network::Bitcoin => "Bitcoin"@,
        Network::Testnet => "Testnet"@,
        Network::Signet => "Signet"@,
        Network::Regtest => "Regtest"@,
    }
}

impl Network {
    /// The display name of the network.
    pub fn to_string(&self) -> (r: String)
        ensures
            r@ == network_name(*self),
    {
        match self {
            Network::Bitcoin => String::from_str("Bitcoin"),
            Network::Testnet => String::from_str("Testnet"),
            Network::Signet => String::from_str("Signet"),
            Network::Regtest => String::from_str("Regtest"),
        }
    }
}

/// What is needed to connect a wallet.
pub struct ConnectRequest {
    /// The library configuration.
    pub config: Config,
    /// The mnemonic of the wallet.
    pub mnemonic: String,
}

/// Configuration of the library.
#[derive(Clone, Debug)]
pub struct Config {
    /// The network to connect to.
    pub network: Network,
    /// The URL of the Ark server.
    pub ark_server_url: String,
    /// The URL of the block explorer.
    pub esplora_url: String,
    /// The directory that holds data files.
    pub data_dir: String,
}

impl Config {
    /// The default configuration for a network that has one (Signet and Regtest).
    pub fn default_config(network: Network, data_dir: String) -> (r: Result<Self, SdkError>)
        ensures
            (network is Bitcoin || network is Testnet) ==> r matches Err(SdkError::InvalidNetwork),
            network is Signet ==> (r matches Ok(c) && c.network == network && c.data_dir == data_dir
                && c.ark_server_url@ == "https://mutinynet.arkade.sh"@
                && c.esplora_url@ == "https://mutinynet.com/api"@),
            network is Regtest ==> (r matches Ok(c) && c.network == network && c.data_dir == data_dir
                && c.ark_server_url@ == "http://localhost:7070"@
                && c.esplora_url@ == "http://localhost:30000"@),
    {
        match network {
            Network::Bitcoin => Err(SdkError::InvalidNetwork),
            Network::Testnet => Err(SdkError::InvalidNetwork),
            Network::Signet => Ok(
                Config {
                    network,
                    ark_server_url: String::from_str("https://mutinynet.arkade.sh"),
                    esplora_url: String::from_str("https://mutinynet.com/api"),
                    data_dir,
                },
            ),
            Network::Regtest => Ok(
                Config {
                    network,
                    ark_server_url: String::from_str("http://localhost:7070"),
                    esplora_url: String::from_str("http://localhost:30000"),
                    data_dir,
                },
            ),
        }
    }
}

/// Direction of a payment.
#[derive(Clone, Copy, Debug, PartialEq, Eq, Structural)]
pub enum PaymentType {
    Sent,
    Received,
}

/// The name under which a payment direction is shown and stored.
pub open spec fn payment_type_name(t: PaymentType) -> Seq<char> {
    match t {
        PaymentType::Sent => "Sent"@,
        PaymentType::Received => "Received"@,
    }
}

impl PaymentType {
    /// The name under which the direction is shown and stored.
    pub fn to_string(&self) -> (r: String)
        ensures
            r@ == payment_type_name(*self),
    {
        match self {
            PaymentType::Sent => String::from_str("Sent"),
            PaymentType::Received => String::from_str("Received"),
        }
    }

    /// The direction whose name is `name`, if any.
    pub fn from_name(name: &str) -> (r: Option<Self>)
        ensures
            r matches Some(t) ==> payment_type_name(t) == name@,
            r is None ==> forall|t: PaymentType| payment_type_name(t) != name@,
    {
        let sent = String::from_str("Sent");
        let received = String::from_str("Received");
        let given = String::from_str(name);
        if given == sent {
            Some(PaymentType::Sent)
        } else if given == received {
            Some(PaymentType::Received)
        } else {
            None
        }
    }
}

/// Settlement state of a payment.
#[derive(Clone, Copy, Debug, PartialEq, Eq, Structural)]
pub enum PaymentStatus {
    Pending,
    Completed,
    Failed,
    Expired,
}

/// The name under which a payment status is shown and stored.
pub open spec fn payment_status_name(s: PaymentStatus) -> Seq<char> {
    match s {
        PaymentStatus::Pending => "Pending"@,
        PaymentStatus::Completed => "Completed"@,
        PaymentStatus::Failed => "Failed"@,
        PaymentStatus::Expired => "Expired"@,
    }
}

impl PaymentStatus {
    /// The name under which the status is shown and stored.
    pub fn to_string(&self) -> (r: String)
        ensures
            r@ == payment_status_name(*self),
    {
        match self {
            PaymentStatus::Pending => String::from_str("Pending"),
            PaymentStatus::Completed => String::from_str("Completed"),
            PaymentStatus::Failed => String::from_str("Failed"),
            PaymentStatus::Expired => String::from_str("Expired"),
        }
    }

    /// The status whose name is `name`, if any.
    pub fn from_name(name: &str) -> (r: Option<Self>)
        ensures
            r matches Some(s) ==> payment_status_name(s) == name@,
            r is None ==> forall|s: PaymentStatus| payment_status_name(s) != name@,
    {
        let given = String::from_str(name);
        if given == String::from_str("Pending") {
            Some(PaymentStatus::Pending)
        } else if given == String::from_str("Completed") {
            Some(PaymentStatus::Completed)
        } else if given == String::from_str("Failed") {
            Some(PaymentStatus::Failed)
        } else if given == String::from_str("Expired") {
            Some(PaymentStatus::Expired)
        } else {
            None
        }
    }
}

/// A payment record of the ledger.
#[derive(Debug)]
pub struct Payment {
    /// Unique identifier, taken from the underlying transaction id.
    pub id: String,
    /// Direction of the payment.
    pub payment_type: PaymentType,
    /// Settlement state of the payment.
    pub status: PaymentStatus,
    /// Amount in satoshis.
    pub amount: u64,
    /// Fee in satoshis.
    pub fees: u64,
    /// Seconds since the epoch; listings are ordered by it.
    pub timestamp: u64,
    /// Optional description.
    pub description: Option<String>,
    /// Optional destination address.
    pub destination: Option<String>,
}

fn clone_text(t: &Option<String>) -> (r: Option<String>)
    ensures
        r == *t,
{
    match t {
        Some(s) => Some(s.clone()),
        None => None,
    }
}

impl Clone for Payment {
    fn clone(&self) -> (r: Self)
        ensures
            r == *self,
    {
        Payment {
            id: self.id.clone(),
            payment_type: self.payment_type,
            status: self.status,
            amount: self.amount,
            fees: self.fees,
            timestamp: self.timestamp,
            description: clone_text(&self.description),
            destination: clone_text(&self.destination),
        }
    }
}

/// An entry of the transaction history that the protocol client reports.
pub enum TxEvent {
    /// Funds moved from the chain into the protocol; always incoming.
    Boarding { txid: String, amount: u64, confirmed_at: Option<u64> },
    /// A batched settlement; `signed_amount` is positive when funds came in.
    Round { txid: String, signed_amount: i64, created_at: u64 },
    /// An off-chain transfer; settled once its outputs are spent.
    Redeem { txid: String, signed_amount: i64, is_settled: bool, created_at: u64 },
}

/// The timestamp given to a boarding entry that is not confirmed yet, so that it lists as the
/// newest entry.
pub const PENDING_BOARDING_TIMESTAMP: u64 = 0x7fff_ffff_ffff_ffff;

/// The absolute value of a signed amount.
pub open spec fn magnitude(a: i64) -> int {
    if a < 0 {
        -a
    } else {
        a as int
    }
}

/// The direction of an amount delta: positive is incoming, anything else outgoing.
pub open spec fn direction_of(a: i64) -> PaymentType {
    if a > 0 {
        PaymentType::Received
    } else {
        PaymentType::Sent
    }
}

/// The ledger record that a history entry maps to.
pub open spec fn payment_of(tx: TxEvent) -> Payment {
    match tx {
        TxEvent::Boarding { txid, amount, confirmed_at } => Payment {
            id: txid,
            payment_type: PaymentType::Received,
            status: if confirmed_at is Some {
                PaymentStatus::Completed
            } else {
                PaymentStatus::Pending
            },
            amount,
            fees: 0,
            timestamp: match confirmed_at {
                Some(t) => t,
                None => PENDING_BOARDING_TIMESTAMP,
            },
            description: None,
            destination: None,
        },
        TxEvent::Round { txid, signed_amount, created_at } => Payment {
            id: txid,
            payment_type: direction_of(signed_amount),
            status: PaymentStatus::Completed,
            amount: magnitude(signed_amount) as u64,
            fees: 0,
            timestamp: created_at,
            description: None,
            destination: None,
        },
        TxEvent::Redeem { txid, signed_amount, is_settled, created_at } => Payment {
            id: txid,
            payment_type: direction_of(signed_amount),
            status: if is_settled {
                PaymentStatus::Completed
            } else {
                PaymentStatus::Pending
            },
            amount: magnitude(signed_amount) as u64,
            fees: 0,
            timestamp: created_at,
            description: None,
            destination: None,
        },
    }
}

fn unsigned_magnitude(a: i64) -> (r: u64)
    ensures
        r as int == magnitude(a),
{
    if a < 0 {
        let up: i64 = a + 1;
        let m: u64 = (-up) as u64;
        m + 1
    } else {
        a as u64
    }
}

fn payment_direction(a: i64) -> (r: PaymentType)
    ensures
        r == direction_of(a),
{
    if a > 0 {
        PaymentType::Received
    } else {
        PaymentType::Sent
    }
}

impl From<TxEvent> for Payment {
    /// Normalizes a history entry into a ledger record.
    fn from(tx: TxEvent) -> (r: Payment) {
        match tx {
            TxEvent::Boarding { txid, amount, confirmed_at } => {
                let (status, timestamp) = match confirmed_at {
                    Some(t) => (PaymentStatus::Completed, t),
                    None => (PaymentStatus::Pending, PENDING_BOARDING_TIMESTAMP),
                };
                Payment {
                    id: txid,
                    payment_type: PaymentType::Received,
                    status,
                    amount,
                    fees: 0,
                    timestamp,
                    description: None,
                    destination: None,
                }
            },
            TxEvent::Round { txid, signed_amount, created_at } => Payment {
                id: txid,
                payment_type: payment_direction(signed_amount),
                status: PaymentStatus::Completed,
                amount: unsigned_magnitude(signed_amount),
                fees: 0,
                timestamp: created_at,
                description: None,
                destination: None,
            },
            TxEvent::Redeem { txid, signed_amount, is_settled, created_at } => Payment {
                id: txid,
                payment_type: payment_direction(signed_amount),
                status: if is_settled {
                    PaymentStatus::Completed
                } else {
                    PaymentStatus::Pending
                },
                amount: unsigned_magnitude(signed_amount),
                fees: 0,
                timestamp: created_at,
                description: None,
                destination: None,
            },
        }
    }
}

impl vstd::std_specs::convert::FromSpecImpl<TxEvent> for Payment {
    open spec fn obeys_from_spec() -> bool {
        true
    }

    open spec fn from_spec(tx: TxEvent) -> Payment {
        payment_of(tx)
    }
}

/// Normalizes a whole transaction history, entry by entry and in order.
pub fn payments_from_history(history: Vec<TxEvent>) -> (r: Vec<Payment>)
    ensures
        r@ == history@.map_values(|tx: TxEvent| payment_of(tx)),
{
    let mut history = history;
    let mut rest: Vec<Payment> = Vec::new();
    let ghost entries = history@;
    // Entries are taken from the back; `rest` holds the normalized tail in reverse.
    while history.len() > 0
        invariant
            history@.len() + rest@.len() == entries.len(),
            history@ == entries.subrange(0, history@.len() as int),
            forall|k: int| 0 <= k < rest@.len() ==>
                #[trigger] rest@[k] == payment_of(entries[entries.len() - 1 - k]),
        decreases history@.len(),
    {
        let tx = history.pop().unwrap();
        rest.push(Payment::from(tx));
    }
    let mut out: Vec<Payment> = Vec::new();
    while rest.len() > 0
        invariant
            out@.len() + rest@.len() == entries.len(),
            forall|k: int| 0 <= k < rest@.len() ==>
                #[trigger] rest@[k] == payment_of(entries[entries.len() - 1 - k]),
            forall|k: int| 0 <= k < out@.len() ==> #[trigger] out@[k] == payment_of(entries[k]),
        decreases rest@.len(),
    {
        let p = rest.pop().unwrap();
        out.push(p);
    }
    assert(out@ =~= entries.map_values(|tx: TxEvent| payment_of(tx)));
    out
}

/// Request for the wallet balance.
#[derive(Clone, Debug)]
pub struct GetBalanceRequest {}

/// The off-chain balance: pending and confirmed amounts in satoshis.
#[derive(Clone, Copy, Debug, PartialEq, Eq, Structural)]
pub struct OffchainBalance {
    /// Pending balance in satoshis.
    pub pending_sats: u64,
    /// Confirmed balance in satoshis.
    pub confirmed_sats: u64,
}

impl OffchainBalance {
    /// A balance from its pending and confirmed amounts.
    pub fn new(pending_sats: u64, confirmed_sats: u64) -> (r: Self)
        ensures
            r.pending_sats == pending_sats,
            r.confirmed_sats == confirmed_sats,
    {
        OffchainBalance { pending_sats, confirmed_sats }
    }

    /// The total balance, pending plus confirmed.
    pub fn total_sats(&self) -> (r: u64)
        requires
            self.pending_sats + self.confirmed_sats <= u64::MAX,
        ensures
            r == self.pending_sats + self.confirmed_sats,
    {
        self.pending_sats + self.confirmed_sats
    }
}

impl Default for OffchainBalance {
    /// The empty balance.
    fn default() -> (r: Self)
        ensures
            r.pending_sats == 0,
            r.confirmed_sats == 0,
    {
        OffchainBalance { pending_sats: 0, confirmed_sats: 0 }
    }
}

/// Response carrying the wallet balance.
#[derive(Clone, Debug)]
pub struct GetBalanceResponse {
    /// The off-chain balance.
    pub balance: OffchainBalance,
}

/// Request for a wallet synchronization.
#[derive(Clone, Debug)]
pub struct SyncWalletRequest {}

/// Response of a wallet synchronization.
#[derive(Clone, Debug)]
pub struct SyncWalletResponse {}

/// Request for an on-chain deposit address.
#[derive(Clone, Debug)]
pub struct ReceiveOnchainRequest {}

/// Response carrying an on-chain deposit address.
#[derive(Clone, Debug)]
pub struct ReceiveOnchainResponse {
    /// The deposit address.
    pub deposit_address: String,
}

/// Request to prepare an on-chain send.
#[derive(Clone, Debug)]
pub struct PrepareSendOnchainRequest {
    /// Amount in satoshis that the receiver gets.
    pub receiver_amount_sats: u64,
}

/// A prepared on-chain send.
#[derive(Clone, Debug)]
pub struct PrepareSendOnchainResponse {
    /// Amount in satoshis that the receiver gets.
    pub receiver_amount_sats: u64,
    /// Estimated fee in satoshis.
    pub fee_sats: u64,
}

/// Request to send on-chain.
#[derive(Clone, Debug)]
pub struct SendOnchainRequest {
    /// The prepared send.
    pub prepare_send_onchain_response: PrepareSendOnchainResponse,
    /// The Bitcoin address to send to.
    pub onchain_address: String,
}

/// Response of an on-chain send.
#[derive(Clone, Debug)]
pub struct SendOnchainResponse {
    /// The id of the on-chain transaction.
    pub tx_id: String,
}

/// The ways in which a payment can be received.
#[derive(Debug, Clone)]
pub enum PaymentMethod {
    Bolt11Invoice { receiver_amount_sat: u64 },
    Bolt12Offer,
    BitcoinAddress { receiver_amount_sat: Option<u64> },
    ArkAddress { receiver_amount_sat: Option<u64> },
}

/// Request for a payment destination.
#[derive(Debug, Clone)]
pub struct ReceivePaymentRequest {
    /// How the payment is to be received.
    pub payment_method: PaymentMethod,
}

/// A payment destination.
#[derive(Debug, Clone)]
pub struct ReceivePaymentResponse {
    /// The destination to pay to.
    pub destination: String,
    /// Fee in satoshis.
    pub fee_sat: u64,
}

/// Request for an Ark address.
#[derive(Clone, Debug)]
pub struct ReceiveArkRequest {}

/// Response carrying an Ark address.
#[derive(Clone, Debug)]
pub struct ReceiveArkResponse {
    /// The Ark address.
    pub address: String,
}

/// Request to prepare a payment.
#[derive(Debug, Clone)]
pub struct PrepareSendPaymentRequest {
    /// The destination: an Ark address, a BIP21 URI, a BOLT11 invoice or a BOLT12 offer.
    pub destination: String,
    /// The amount, where the destination does not carry one or all funds are to be sent.
    pub amount: Option<PayAmount>,
}

/// The amount of a payment.
#[derive(Debug, Clone, Copy)]
pub enum PayAmount {
    /// The amount in satoshis that the receiver gets.
    Specific { receiver_amount_sat: u64 },
    /// All available funds.
    Drain,
}

/// A destination that the library can pay.
#[derive(Clone, Debug)]
pub enum SendDestination {
    ArkAddress { address: String, receiver_amount_sat: u64 },
    /// A BOLT11 invoice, held in its encoded form.
    Bolt11 { invoice: String, bip353_address: Option<String> },
    /// A BOLT12 offer, held in its encoded form.
    Bolt12 { offer: String, receiver_amount_sat: u64, bip353_address: Option<String> },
}

/// A prepared payment.
#[derive(Debug, Clone)]
pub struct PrepareSendPaymentResponse {
    /// Where the payment goes.
    pub destination: SendDestination,
    /// The fee in satoshis, where it is known before sending.
    pub fees_sat: Option<u64>,
}

/// Request to send a prepared payment.
#[derive(Debug)]
pub struct SendPaymentRequest {
    /// The prepared payment.
    pub prepare_response: PrepareSendPaymentResponse,
}

/// Response of a payment.
#[derive(Debug)]
pub struct SendPaymentResponse {
    /// The payment record.
    pub payment: Payment,
}

/// Request for a page of payments.
#[derive(Clone, Debug)]
pub struct ListPaymentsRequest {
    /// Number of payments to skip.
    pub offset: u32,
    /// Largest number of payments to return.
    pub limit: u32,
}

/// A page of payments.
#[derive(Clone, Debug)]
pub struct ListPaymentsResponse {
    /// The payments, newest first.
    pub payments: Vec<Payment>,
}

} // verus!
