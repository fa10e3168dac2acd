use vstd::prelude::*;

verus! {

/// Errors reported by the wallet library.
#[derive(Debug)]
pub enum SdkError {
    /// The wallet could not be set up from the given credentials.
    ConnectError(String),
    /// A failure with a free-form description.
    GenericError(String),
    /// A failure reported by the protocol client.
    ArkClientError(String),
    /// A failure of the persistent store.
    StorageError(String),
    /// A failure while processing a payment.
    PaymentError(String),
    /// A failure of the signing wallet.
    WalletError(String),
    /// A failure while talking to the network or the block explorer.
    NetworkError(String),
    /// The library was used before it was set up.
    NotInitialized,
    /// An address could not be parsed.
    AddressParsingError(String),
    /// A transaction could not be built or extracted.
    TransactionError(String),
    /// The requested network has no default configuration.
    InvalidNetwork,
}

/// The text that describes an error to a user.
pub open spec fn error_text(e: SdkError) -> Seq<char> {
    match e {
        SdkError::ConnectError(m) => "Connect error: "@ + m@,
        SdkError::GenericError(m) => "Generic error: "@ + m@,
        SdkError::ArkClientError(m) => "Ark client error: "@ + m@,
        SdkError::StorageError(m) => "Storage error: "@ + m@,
        SdkError::PaymentError(m) => "Payment error: "@ + m@,
        SdkError::WalletError(m) => "Wallet error: "@ + m@,
        SdkError::NetworkError(m) => "Network error: "@ + m@,
        SdkError::NotInitialized => "SDK not initialized"@,
        SdkError::AddressParsingError(m) => "Address parsing error: "@ + m@,
        SdkError::TransactionError(m) => "Transaction error: "@ + m@,
        SdkError::InvalidNetwork => "Invalid network"@,
    }
}

fn prefixed(prefix: &str, message: &String) -> (r: String)
    ensures
        r@ == prefix@ + message@,
{
    let mut text = String::from_str(prefix);
    text.append(message.as_str());
    text
}

impl SdkError {
    /// Describes the error to a user, as its display form would.
    pub fn to_string(&self) -> (r: String)
        ensures
            r@ == error_text(*self),
    {
        match self {
            SdkError::ConnectError(m) => prefixed("Connect error: ", m),
            SdkError::GenericError(m) => prefixed("Generic error: ", m),
            SdkError::ArkClientError(m) => prefixed("Ark client error: ", m),
            SdkError::StorageError(m) => prefixed("Storage error: ", m),
            SdkError::PaymentError(m) => prefixed("Payment error: ", m),
            SdkError::WalletError(m) => prefixed("Wallet error: ", m),
            SdkError::NetworkError(m) => prefixed("Network error: ", m),
            SdkError::NotInitialized => String::from_str("SDK not initialized"),
            SdkError::AddressParsingError(m) => prefixed("Address parsing error: ", m),
            SdkError::TransactionError(m) => prefixed("Transaction error: ", m),
            SdkError::InvalidNetwork => String::from_str("Invalid network"),
        }
    }
}

} // verus!
