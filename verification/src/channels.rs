//! Data carried by the individual payment channels.

use vstd::prelude::*;

verus! {

/// Selection of banks available, e.g. "Guaranty Trust Bank". No selection is
/// carried yet, so the type holds no data.
#[derive(Clone, Copy, Debug)]
pub struct Bank {
}

/// Bank transfer data.
#[derive(Clone, Copy, Debug)]
pub struct BankTransfer {
}

/// Card transaction data.
#[derive(Clone, Copy, Debug)]
pub struct Card {
}

/// EFT transaction data.
#[derive(Clone, Copy, Debug)]
pub struct Eft {
}

/// Mobile money data: the receiver's phone number and the network provider.
#[derive(Clone, Debug)]
pub struct MobileMoney {
    /// Receiver phone number.
    pub phone: String,
    /// Network provider.
    pub provider: String,
}

/// USSD transaction data.
#[derive(Clone, Copy, Debug)]
pub struct Ussd {
}

/// QR transaction data.
#[derive(Clone, Copy, Debug)]
pub struct QR {
}

} // verus!
