//! The values that the registry stores, receives and reports.

use vstd::prelude::*;
use crate::amount::Amount;
use crate::resource::ResourceId;

verus! {

/// What a [`PriceEntry`] says: the identifier's bytes, the price in attos,
/// the time of the last update in seconds since the epoch, and the
/// characters of the market identifier.
pub struct PriceRecord {
    pub resource_id: Seq<u8>,
    pub price: int,
    pub last_updated: nat,
    pub market_id: Seq<char>,
}

/// One priced resource of the registry.
#[derive(Debug, PartialEq, Eq)]
pub struct PriceEntry {
    /// The resource that the price is for; no two entries share it.
    pub resource_id: ResourceId,
    /// The price of one unit of the resource.
    pub price: Amount,
    /// When the price was last set, in seconds since the epoch.
    pub last_updated: u64,
    /// The market whose attestations update this entry.
    pub market_id: String,
}

impl View for PriceEntry {
    type V = PriceRecord;

    open spec fn view(&self) -> PriceRecord {
        PriceRecord {
            resource_id: self.resource_id@,
            price: self.price@,
            last_updated: self.last_updated as nat,
            market_id: self.market_id@,
        }
    }
}

impl Clone for PriceEntry {
    fn clone(&self) -> (r: PriceEntry)
        ensures
            r == *self,
    {
        PriceEntry {
            resource_id: self.resource_id,
            price: self.price,
            last_updated: self.last_updated,
            market_id: self.market_id.clone(),
        }
    }
}

/// What a [`PriceMessage`] asks for: the market, the new price in attos and
/// the time of the attestation.
pub struct PriceUpdate {
    pub market_id: Seq<char>,
    pub price: int,
    pub timestamp: nat,
}

/// An attested price, as the attestation service hands it out once it has
/// checked the signature.
#[derive(Debug, PartialEq, Eq)]
pub struct PriceMessage {
    /// The market that the price was observed on.
    pub market_id: String,
    /// The attested price.
    pub price: Amount,
    /// The attestation's serial number; the registry does not read it.
    pub nonce: u64,
    /// When the attestation was made, in seconds since the epoch.
    pub created_at: u64,
}

impl View for PriceMessage {
    type V = PriceUpdate;

    open spec fn view(&self) -> PriceUpdate {
        PriceUpdate {
            market_id: self.market_id@,
            price: self.price@,
            timestamp: self.created_at as nat,
        }
    }
}

impl Clone for PriceMessage {
    fn clone(&self) -> (r: PriceMessage)
        ensures
            r == *self,
    {
        PriceMessage {
            market_id: self.market_id.clone(),
            price: self.price,
            nonce: self.nonce,
            created_at: self.created_at,
        }
    }
}

/// What a [`PoolValuation`] says, in attos.
pub struct PoolReading {
    pub valuation: int,
    pub share_supply: int,
}

/// A reading of the liquidity pool: the value of all it holds and the
/// number of shares outstanding.
#[derive(Clone, Copy, Debug, PartialEq, Eq, Structural)]
pub struct PoolValuation {
    pub valuation: Amount,
    pub share_supply: Amount,
}

impl View for PoolValuation {
    type V = PoolReading;

    open spec fn view(&self) -> PoolReading {
        PoolReading { valuation: self.valuation@, share_supply: self.share_supply@ }
    }
}

/// Who asks for an operation that only the owner may perform.
#[derive(Clone, Copy, Debug, PartialEq, Eq, Structural)]
pub enum Caller {
    Owner,
    Other,
}

/// Why an operation failed. A failed operation leaves the registry as it
/// was.
#[derive(Clone, Copy, Debug, PartialEq, Eq, Structural)]
pub enum OracleError {
    /// The attestation is not newer than an entry of its market, or it
    /// reaches the base entry and is older than the derived entry.
    StaleUpdate,
    /// The pool reports no shares outstanding.
    DivisionByZero,
    /// The valuation per share, or the derived price, does not fit in an
    /// [`Amount`].
    Overflow,
    /// The caller is not the owner.
    Unauthorized,
    /// The resource is already registered.
    DuplicateResource,
    /// The attestation service rejected the message. The registry never
    /// sees such a message and never answers with this value; it is for
    /// the caller that learns of the rejection.
    UpstreamValidationFailure,
}

/// The text that describes an error.
pub open spec fn error_text(e: OracleError) -> Seq<char> {
    match e {
        OracleError::StaleUpdate => "Price is too old"@,
        OracleError::DivisionByZero => "Pool has no shares outstanding"@,
        OracleError::Overflow => "Overflow"@,
        OracleError::Unauthorized => "Caller is not the owner"@,
        OracleError::DuplicateResource => "Resource is already registered"@,
        OracleError::UpstreamValidationFailure => "Attestation was rejected"@,
    }
}

impl OracleError {
    /// A description of the error for the caller.
    pub fn message(&self) -> (r: &'static str)
        ensures
            r@ == error_text(*self),
    {
        match self {
            OracleError::StaleUpdate => "Price is too old",
            OracleError::DivisionByZero => "Pool has no shares outstanding",
            OracleError::Overflow => "Overflow",
            OracleError::Unauthorized => "Caller is not the owner",
            OracleError::DuplicateResource => "Resource is already registered",
            OracleError::UpstreamValidationFailure => "Attestation was rejected",
        }
    }
}

/// What remains to be done for an attestation.
#[derive(Clone, Copy, Debug, PartialEq, Eq, Structural)]
pub enum UpdateStep {
    /// The attestation has been applied.
    Applied,
    /// The attestation updates the base entry: nothing has been written,
    /// and the update is to be made with a reading of the pool.
    NeedsPoolValuation,
}

} // verus!
