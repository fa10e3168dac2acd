//! A wallet library that keeps a local ledger of payments and a balance snapshot consistent with
//! what the protocol client and a block explorer report.

pub mod chain;
pub mod error;
pub mod events;
pub mod models;
pub mod payments;
pub mod persist;
pub mod sync;

pub use events::{EventEmitter, EventListener, SdkEvent};
pub use models::{
    GetBalanceRequest, GetBalanceResponse, ListPaymentsRequest, ListPaymentsResponse, PayAmount,
    Payment, PaymentMethod, PaymentStatus, PaymentType, PrepareSendPaymentRequest,
    PrepareSendPaymentResponse, ReceiveArkRequest, ReceiveArkResponse, ReceiveOnchainRequest,
    ReceiveOnchainResponse, ReceivePaymentRequest, ReceivePaymentResponse, SendDestination,
    SendOnchainRequest, SendOnchainResponse, SendPaymentRequest, SendPaymentResponse,
    SyncWalletRequest, SyncWalletResponse,
};
pub use persist::{MemoryStorage, Storage};
