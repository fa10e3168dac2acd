use vstd::prelude::*;

use crate::error::SdkError;
use crate::models::{
    OffchainBalance, PayAmount, Payment, PaymentMethod, PaymentStatus, PaymentType,
    PrepareSendOnchainRequest, PrepareSendOnchainResponse, PrepareSendPaymentRequest,
    PrepareSendPaymentResponse, SendDestination,
};

verus! {

/// The canonical text of an Ark address, or none where the text is not an Ark address.
pub uninterp spec fn ark_address_text(text: Seq<char>) -> Option<Seq<char>>;

/// Relies on ark_core::ArkAddress::decode to tell whether `text` is an Ark address, and on its
/// Display, which writes the decoded address back in its bech32m form; both depend on the text
/// alone.
#[verifier::external_body]
fn decode_ark_address(text: &str) -> (r: Option<String>)
    ensures
        match r {
            Some(a) => ark_address_text(text@) == Some(a@),
            None => ark_address_text(text@) is None,
        },
{
    match ark_core::ArkAddress::decode(text) {
        Ok(address) => Some(address.to_string()),
        Err(_) => None,
    }
}

/// Whether `r` is what preparing a payment to `destination` gives, where `decoded` is the
/// destination read as an Ark address: an Ark address takes the specific amount, or the whole
/// balance when all funds are to be sent; any other destination is not supported.
pub open spec fn prepared(
    r: Result<PrepareSendPaymentResponse, SdkError>,
    decoded: Option<Seq<char>>,
    destination: Seq<char>,
    amount: Option<PayAmount>,
    balance: OffchainBalance,
) -> bool {
    match decoded {
        None => r matches Err(SdkError::GenericError(m)) && m@ == "Unsupported destination format: "@
            + destination,
        Some(address) => match amount {
            None => r matches Err(SdkError::GenericError(m)) && m@
                == "Amount is required for Ark address payments"@,
            Some(PayAmount::Specific { receiver_amount_sat }) => r matches Ok(resp) && paid_to(
                resp,
                address,
                receiver_amount_sat as int,
            ),
            Some(PayAmount::Drain) => if balance.pending_sats + balance.confirmed_sats <= u64::MAX {
                r matches Ok(resp) && paid_to(
                    resp,
                    address,
                    balance.pending_sats + balance.confirmed_sats,
                )
            } else {
                r matches Err(SdkError::GenericError(m)) && m@
                    == "Balance exceeds the largest representable amount"@
            },
        },
    }
}

/// Whether `resp` pays `amount` to the Ark address `address`, with no fee known in advance.
pub open spec fn paid_to(resp: PrepareSendPaymentResponse, address: Seq<char>, amount: int) -> bool {
    &&& resp.fees_sat is None
    &&& resp.destination matches SendDestination::ArkAddress { address: a, receiver_amount_sat }
        && a@ == address && receiver_amount_sat == amount
}

/// Prepares a payment once the destination has been read as an Ark address (`decoded`).
pub fn prepare_ark_payment(
    decoded: Option<String>,
    destination: &str,
    amount: Option<PayAmount>,
    balance: &OffchainBalance,
) -> (r: Result<PrepareSendPaymentResponse, SdkError>)
    ensures
        prepared(
            r,
            match decoded {
                Some(a) => Some(a@),
                None => None,
            },
            destination@,
            amount,
            *balance,
        ),
{
    match decoded {
        None => {
            let mut message = String::from_str("Unsupported destination format: ");
            message.append(destination);
            Err(SdkError::GenericError(message))
        },
        Some(address) => {
            let receiver_amount_sat = match amount {
                Some(PayAmount::Specific { receiver_amount_sat }) => receiver_amount_sat,
                Some(PayAmount::Drain) => match balance.pending_sats.checked_add(
                    balance.confirmed_sats,
                ) {
                    Some(total) => total,
                    None => {
                        return Err(
                            SdkError::GenericError(
                                String::from_str("Balance exceeds the largest representable amount"),
                            ),
                        );
                    },
                },
                None => {
                    return Err(
                        SdkError::GenericError(
                            String::from_str("Amount is required for Ark address payments"),
                        ),
                    );
                },
            };
            Ok(
                PrepareSendPaymentResponse {
                    destination: SendDestination::ArkAddress { address, receiver_amount_sat },
                    fees_sat: None,
                },
            )
        },
    }
}

/// Prepares a payment to the request's destination. Only Ark addresses are supported; `balance`
/// is the wallet balance, which is sent whole when the request asks to drain the wallet.
pub fn prepare_send_payment(
    request: &PrepareSendPaymentRequest,
    balance: &OffchainBalance,
) -> (r: Result<PrepareSendPaymentResponse, SdkError>)
    ensures
        prepared(
            r,
            ark_address_text(request.destination@),
            request.destination@,
            request.amount,
            *balance,
        ),
{
    let decoded = decode_ark_address(request.destination.as_str());
    prepare_ark_payment(decoded, request.destination.as_str(), request.amount, balance)
}

/// Where a requested payment destination comes from.
#[derive(Clone, Copy, Debug, PartialEq, Eq, Structural)]
pub enum ReceiveRoute {
    /// An off-chain Ark address of the wallet.
    ArkAddress,
    /// An on-chain boarding address of the wallet.
    BoardingAddress,
}

/// How a payment of the given method is received; invoices and offers are not supported yet.
pub fn receive_route(method: &PaymentMethod) -> (r: Result<ReceiveRoute, SdkError>)
    ensures
        method is ArkAddress ==> r == Ok::<ReceiveRoute, SdkError>(ReceiveRoute::ArkAddress),
        method is BitcoinAddress ==> r == Ok::<ReceiveRoute, SdkError>(ReceiveRoute::BoardingAddress),
        method is Bolt11Invoice ==> (r matches Err(SdkError::GenericError(m)) && m@
            == "BOLT11 invoice generation is not yet implemented"@),
        method is Bolt12Offer ==> (r matches Err(SdkError::GenericError(m)) && m@
            == "BOLT12 offer generation is not yet implemented"@),
{
    match method {
        PaymentMethod::ArkAddress { .. } => Ok(ReceiveRoute::ArkAddress),
        PaymentMethod::BitcoinAddress { .. } => Ok(ReceiveRoute::BoardingAddress),
        PaymentMethod::Bolt11Invoice { .. } => Err(
            SdkError::GenericError(
                String::from_str("BOLT11 invoice generation is not yet implemented"),
            ),
        ),
        PaymentMethod::Bolt12Offer => Err(
            SdkError::GenericError(String::from_str("BOLT12 offer generation is not yet implemented")),
        ),
    }
}

/// The Ark address and amount of a prepared payment; invoices and offers are not supported yet.
pub fn send_route(destination: &SendDestination) -> (r: Result<(String, u64), SdkError>)
    ensures
        destination matches SendDestination::ArkAddress { address, receiver_amount_sat } ==> (r matches Ok(
            p,
        ) && p.0 == address && p.1 == receiver_amount_sat),
        destination is Bolt11 ==> (r matches Err(SdkError::GenericError(m)) && m@
            == "BOLT11 payments are not yet implemented"@),
        destination is Bolt12 ==> (r matches Err(SdkError::GenericError(m)) && m@
            == "BOLT12 payments are not yet implemented"@),
{
    match destination {
        SendDestination::ArkAddress { address, receiver_amount_sat } => Ok(
            (address.clone(), *receiver_amount_sat),
        ),
        SendDestination::Bolt11 { .. } => Err(
            SdkError::GenericError(String::from_str("BOLT11 payments are not yet implemented")),
        ),
        SendDestination::Bolt12 { .. } => Err(
            SdkError::GenericError(String::from_str("BOLT12 payments are not yet implemented")),
        ),
    }
}

/// The record of an Ark payment that was just sent: outgoing, pending, without a fee of its own.
pub fn sent_payment(txid: String, address: String, amount: u64, timestamp: u64) -> (r: Payment)
    ensures
        r.id == txid,
        r.payment_type == PaymentType::Sent,
        r.status == PaymentStatus::Pending,
        r.amount == amount,
        r.fees == 0,
        r.timestamp == timestamp,
        r.description is None,
        r.destination == Some(address),
{
    Payment {
        id: txid,
        payment_type: PaymentType::Sent,
        status: PaymentStatus::Pending,
        amount,
        fees: 0,
        timestamp,
        description: None,
        destination: Some(address),
    }
}

/// Prepares an on-chain send of the requested amount; no fee is charged on top.
pub fn prepare_send_onchain(request: &PrepareSendOnchainRequest) -> (r: PrepareSendOnchainResponse)
    ensures
        r.receiver_amount_sats == request.receiver_amount_sats,
        r.fee_sats == 0,
{
    PrepareSendOnchainResponse { receiver_amount_sats: request.receiver_amount_sats, fee_sats: 0 }
}

} // verus!
