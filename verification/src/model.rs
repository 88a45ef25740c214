//! What the registry's operations do, over sequences of price records.

use vstd::prelude::*;
use crate::amount::{computable, div_attos, mul_attos};
use crate::entry::{Caller, OracleError, PoolReading, PriceRecord, PriceUpdate};
use crate::resource::xrd_bytes;

verus! {

/// The position of the derived entry.
pub open spec fn derived_index() -> int {
    1
}

/// No two records are for the same resource.
pub open spec fn distinct_resources(s: Seq<PriceRecord>) -> bool {
    forall|i: int, j: int|
        #![trigger s[i], s[j]]
        0 <= i < j < s.len() ==> s[i].resource_id != s[j].resource_id
}

/// Some record is for the given resource.
pub open spec fn has_resource(s: Seq<PriceRecord>, resource_id: Seq<u8>) -> bool {
    exists|i: int| #![trigger s[i]] 0 <= i < s.len() && s[i].resource_id == resource_id
}

/// What holds of every registry: the base entry comes first and is for XRD,
/// the derived entry follows it, and no resource is registered twice.
pub open spec fn well_formed(s: Seq<PriceRecord>) -> bool {
    &&& s.len() >= 2
    &&& s[0].resource_id == xrd_bytes()
    &&& distinct_resources(s)
}

/// The registry right after it was set up at time `now` with the given
/// derived resource.
pub open spec fn seeded(derived_resource: Seq<u8>, now: nat) -> Seq<PriceRecord> {
    seq![
        PriceRecord {
            resource_id: xrd_bytes(),
            price: 15_000_000_000_000_000,
            last_updated: now,
            market_id: "GATEIO:XRD_USDT"@,
        },
        PriceRecord {
            resource_id: derived_resource,
            price: 15_000_000_000_000_000,
            last_updated: now,
            market_id: "LSULP"@,
        },
    ]
}

/// Some record of the market is at least as recent as `timestamp`.
pub open spec fn is_stale(s: Seq<PriceRecord>, market_id: Seq<char>, timestamp: nat) -> bool {
    exists|i: int|
        #![trigger s[i]]
        0 <= i < s.len() && s[i].market_id == market_id && timestamp <= s[i].last_updated
}

/// Some record of the market is the base entry, the one for XRD.
pub open spec fn updates_base(s: Seq<PriceRecord>, market_id: Seq<char>) -> bool {
    exists|i: int|
        #![trigger s[i]]
        0 <= i < s.len() && s[i].market_id == market_id && s[i].resource_id == xrd_bytes()
}

/// The derived record is newer than `timestamp`: to give it that time
/// would move its time backwards.
pub open spec fn derived_is_newer(s: Seq<PriceRecord>, timestamp: nat) -> bool {
    timestamp < s[derived_index()].last_updated
}

/// The record with a new price and time.
pub open spec fn repriced(r: PriceRecord, price: int, timestamp: nat) -> PriceRecord {
    PriceRecord { price, last_updated: timestamp, ..r }
}

/// Every record of the update's market takes the update's price and time;
/// the others stay.
pub open spec fn fan_out(s: Seq<PriceRecord>, u: PriceUpdate) -> Seq<PriceRecord> {
    Seq::new(
        s.len(),
        |i: int|
            if s[i].market_id == u.market_id {
                repriced(s[i], u.price, u.timestamp)
            } else {
                s[i]
            },
    )
}

/// The records after an update has been written: every record of the
/// update's market repriced, and then the derived record, where a derived
/// price is given.
pub open spec fn written(s: Seq<PriceRecord>, u: PriceUpdate, derived: Option<int>) -> Seq<
    PriceRecord,
> {
    match derived {
        None => fan_out(s, u),
        Some(price) => fan_out(s, u).update(
            derived_index(),
            repriced(fan_out(s, u)[derived_index()], price, u.timestamp),
        ),
    }
}

/// The price of a pool share: the base price times the pool's valuation per
/// share, each step rounded toward zero to a whole atto.
pub open spec fn derived_price_of(base_price: int, pool: PoolReading) -> Result<int, OracleError> {
    let ratio = div_attos(pool.valuation, pool.share_supply);
    if pool.share_supply == 0 {
        Err(OracleError::DivisionByZero)
    } else if !computable(ratio) {
        Err(OracleError::Overflow)
    } else if !computable(mul_attos(base_price, ratio)) {
        Err(OracleError::Overflow)
    } else {
        Ok(mul_attos(base_price, ratio))
    }
}

/// What an attested price does to the registry, given a reading of the
/// pool. The reading counts only where the update reaches the base entry.
///
/// An update that is not newer than a record of its market is stale. One
/// that reaches the base entry then takes the derived price, and fails as
/// that computation fails. Last, it is refused as stale where the derived
/// record is newer than the update; with equal times it is written.
pub open spec fn price_update(s: Seq<PriceRecord>, u: PriceUpdate, pool: PoolReading) -> Result<
    Seq<PriceRecord>,
    OracleError,
> {
    if is_stale(s, u.market_id, u.timestamp) {
        Err(OracleError::StaleUpdate)
    } else if !updates_base(s, u.market_id) {
        Ok(written(s, u, None))
    } else {
        match derived_price_of(u.price, pool) {
            Err(e) => Err(e),
            Ok(derived) => if derived_is_newer(s, u.timestamp) {
                Err(OracleError::StaleUpdate)
            } else {
                Ok(written(s, u, Some(derived)))
            },
        }
    }
}

/// What registering a resource does to the registry.
pub open spec fn registration(s: Seq<PriceRecord>, caller: Caller, r: PriceRecord) -> Result<
    Seq<PriceRecord>,
    OracleError,
> {
    if caller != Caller::Owner {
        Err(OracleError::Unauthorized)
    } else if has_resource(s, r.resource_id) {
        Err(OracleError::DuplicateResource)
    } else {
        Ok(s.push(r))
    }
}

/// One operation on the registry.
pub enum Operation {
    /// An attested price, with the reading of the pool.
    SetPrice { update: PriceUpdate, pool: PoolReading },
    /// A registration.
    AddPair { caller: Caller, record: PriceRecord },
}

/// The registry after an operation. A failed operation leaves it as it was.
pub open spec fn after(s: Seq<PriceRecord>, op: Operation) -> Seq<PriceRecord> {
    match op {
        Operation::SetPrice { update, pool } => match price_update(s, update, pool) {
            Ok(t) => t,
            Err(_) => s,
        },
        Operation::AddPair { caller, record } => match registration(s, caller, record) {
            Ok(t) => t,
            Err(_) => s,
        },
    }
}

/// The registry after a run of operations, the first one first.
pub open spec fn after_all(s: Seq<PriceRecord>, ops: Seq<Operation>) -> Seq<PriceRecord>
    decreases ops.len(),
{
    if ops.len() == 0 {
        s
    } else {
        after(after_all(s, ops.drop_last()), ops.last())
    }
}

} // verus!
