//! The price registry.

use vstd::prelude::*;
use crate::amount::{decimal_checked_div, decimal_checked_mul, div_attos, mul_attos, Amount};
use crate::entry::{
    Caller, OracleError, PoolReading, PoolValuation, PriceEntry, PriceMessage, PriceRecord,
    UpdateStep,
};
use crate::laws::{
    lemma_derived_price, lemma_lockstep, lemma_registration_appends, lemma_update_never_rewinds,
    lemma_update_well_formed, lemma_written_well_formed,
};
use crate::model::{
    after, derived_index, derived_price_of, fan_out, has_resource, is_stale, price_update,
    registration, seeded, updates_base, well_formed, written, Operation,
};
use crate::resource::{native_xrd, xrd_bytes, ResourceId};

verus! {

/// What a list of entries says.
pub open spec fn records(entries: Seq<PriceEntry>) -> Seq<PriceRecord> {
    entries.map_values(|e: PriceEntry| e@)
}

/// The price of a pool share, from the base price and a reading of the
/// pool: the base price times the valuation per share.
///
/// Fails with `DivisionByZero` where no share is outstanding, and with
/// `Overflow` where the valuation per share or the product lies beyond
/// what a multiplication or division can return.
pub fn derived_price(base_price: Amount, pool: PoolValuation) -> (r: Result<Amount, OracleError>)
    ensures
        match r {
            Ok(derived) => derived_price_of(base_price@, pool@) == Ok::<int, OracleError>(derived@),
            Err(e) => derived_price_of(base_price@, pool@) == Err::<int, OracleError>(e),
        },
{
    if pool.share_supply.is_zero() {
        return Err(OracleError::DivisionByZero);
    }
    match decimal_checked_div(pool.valuation, pool.share_supply) {
        None => Err(OracleError::Overflow),
        Some(ratio) => match decimal_checked_mul(base_price, ratio) {
            None => Err(OracleError::Overflow),
            Some(derived) => Ok(derived),
        },
    }
}

/// Writes an update into the entries: the message's price and time into
/// every entry of the message's market, and then, where a derived price is
/// given, that price and the message's time into the derived entry.
fn write_update(prices: &mut Vec<PriceEntry>, message: &PriceMessage, derived: Option<Amount>)
    requires
        well_formed(records(old(prices)@)),
    ensures
        records(final(prices)@) == written(
            records(old(prices)@),
            message@,
            match derived {
                Some(price) => Some(price@),
                None => None,
            },
        ),
        well_formed(records(final(prices)@)),
{
    let ghost before = records(prices@);
    let n: usize = prices.len();
    let mut i: usize = 0;
    while i < n
        invariant
            n == prices.len(),
            n == before.len(),
            i <= n,
            forall|j: int|
                0 <= j < i ==> (#[trigger] prices@[j])@ == fan_out(before, message@)[j],
            forall|j: int| i <= j < n ==> (#[trigger] prices@[j])@ == before[j],
        decreases n - i,
    {
        if prices[i].market_id == message.market_id {
            prices[i].price = message.price;
            prices[i].last_updated = message.created_at;
        }
        i += 1;
    }
    assert(records(prices@) =~= fan_out(before, message@));
    match derived {
        Some(price) => {
            prices[1].price = price;
            prices[1].last_updated = message.created_at;
            assert(records(prices@) =~= written(before, message@, Some(price@)));
        },
        None => {},
    }
    proof {
        lemma_written_well_formed(
            before,
            message@,
            match derived {
                Some(price) => Some(price@),
                None => None,
            },
        );
    }
}

/// The registry of prices: the base entry for XRD, the derived entry for
/// the pool share, and the entries registered since.
pub struct Oracle {
    prices: Vec<PriceEntry>,
}

impl View for Oracle {
    type V = Seq<PriceRecord>;

    /// The records of the registry, in order.
    closed spec fn view(&self) -> Seq<PriceRecord> {
        records(self.prices@)
    }
}

impl Oracle {
    /// Sets up the registry at time `now`: the base entry for XRD and the
    /// derived entry for `derived_resource`, each at the starting price of
    /// 0.015.
    ///
    /// Fails with `DuplicateResource` where the derived resource is XRD
    /// itself.
    pub fn instantiate_oracle(derived_resource: ResourceId, now: u64) -> (r: Result<
        Oracle,
        OracleError,
    >)
        ensures
            match r {
                Ok(oracle) => {
                    &&& derived_resource@ != xrd_bytes()
                    &&& oracle@ == seeded(derived_resource@, now as nat)
                    &&& well_formed(oracle@)
                },
                Err(e) => derived_resource@ == xrd_bytes() && e == OracleError::DuplicateResource,
            },
    {
        let base = native_xrd();
        if derived_resource.same_as(&base) {
            return Err(OracleError::DuplicateResource);
        }
        let starting_price = Amount { lo: 15_000_000_000_000_000, mid: 0, hi: 0 };
        let mut prices: Vec<PriceEntry> = Vec::new();
        prices.push(
            PriceEntry {
                resource_id: base,
                price: starting_price,
                last_updated: now,
                market_id: "GATEIO:XRD_USDT".to_owned(),
            },
        );
        prices.push(
            PriceEntry {
                resource_id: derived_resource,
                price: starting_price,
                last_updated: now,
                market_id: "LSULP".to_owned(),
            },
        );
        assert(records(prices@) =~= seeded(derived_resource@, now as nat));
        Ok(Oracle { prices })
    }

    /// A copy of every entry, in order.
    pub fn get_prices(&mut self) -> (r: Vec<PriceEntry>)
        ensures
            *final(self) == *old(self),
            records(r@) == old(self)@,
    {
        let n: usize = self.prices.len();
        let mut out: Vec<PriceEntry> = Vec::new();
        let mut i: usize = 0;
        while i < n
            invariant
                n == self.prices.len(),
                i <= n,
                out@ == self.prices@.subrange(0, i as int),
            decreases n - i,
        {
            out.push(self.prices[i].clone());
            i += 1;
        }
        assert(out@ =~= self.prices@);
        out
    }

    /// Whether the attested price may be applied, and if so, whether it
    /// reaches the base entry.
    fn examine(&self, message: &PriceMessage) -> (r: Result<bool, OracleError>)
        ensures
            match r {
                Ok(reaches_base) => {
                    &&& !is_stale(self@, message@.market_id, message@.timestamp)
                    &&& reaches_base == updates_base(self@, message@.market_id)
                },
                Err(e) => {
                    &&& e == OracleError::StaleUpdate
                    &&& is_stale(self@, message@.market_id, message@.timestamp)
                },
            },
    {
        let base = native_xrd();
        let n: usize = self.prices.len();
        let mut reaches_base: bool = false;
        let mut i: usize = 0;
        while i < n
            invariant
                n == self.prices.len(),
                i <= n,
                base@ == xrd_bytes(),
                forall|j: int|
                    #![trigger self@[j]]
                    0 <= j < i ==> !(self@[j].market_id == message@.market_id && message@.timestamp
                        <= self@[j].last_updated),
                reaches_base == (exists|j: int|
                    #![trigger self@[j]]
                    0 <= j < i && self@[j].market_id == message@.market_id && self@[j].resource_id
                        == xrd_bytes()),
            decreases n - i,
        {
            let entry = &self.prices[i];
            assert(self@[i as int] == entry@);
            if entry.market_id == message.market_id {
                if message.created_at <= entry.last_updated {
                    return Err(OracleError::StaleUpdate);
                }
                if entry.resource_id.same_as(&base) {
                    reaches_base = true;
                }
            }
            i += 1;
        }
        Ok(reaches_base)
    }

    /// Applies an attested price, given a reading of the pool.
    ///
    /// Fails with `StaleUpdate` where an entry of the message's market is at
    /// least as recent as the message. Otherwise every entry of that market
    /// takes the message's price and time. Where one of them is the base
    /// entry, the derived entry takes the message's time and, as its price,
    /// the message's price times the pool's valuation per share; the
    /// operation then fails with `DivisionByZero` where no share is
    /// outstanding, with `Overflow` where that price cannot be represented,
    /// and else with `StaleUpdate` where the derived entry is newer than the
    /// message. Where none is the base entry, the reading is not looked at.
    /// A failed update changes nothing, and no update moves an entry's time
    /// backwards.
    pub fn set_price(&mut self, message: PriceMessage, pool: PoolValuation) -> (r: Result<
        (),
        OracleError,
    >)
        requires
            well_formed(old(self)@),
        ensures
            match r {
                Ok(()) => price_update(old(self)@, message@, pool@) == Ok::<
                    Seq<PriceRecord>,
                    OracleError,
                >(final(self)@),
                Err(e) => {
                    &&& price_update(old(self)@, message@, pool@) == Err::<
                        Seq<PriceRecord>,
                        OracleError,
                    >(e)
                    &&& *final(self) == *old(self)
                },
            },
            final(self)@ == after(
                old(self)@,
                (Operation::SetPrice { update: message@, pool: pool@ }),
            ),
            well_formed(final(self)@),
            final(self)@.len() == old(self)@.len(),
            is_stale(old(self)@, message@.market_id, message@.timestamp) ==> r == Err::<
                (),
                OracleError,
            >(OracleError::StaleUpdate),
            r is Ok && updates_base(old(self)@, message@.market_id) ==> {
                &&& final(self)@[0].price == message@.price
                &&& final(self)@[0].last_updated == message@.timestamp
                &&& final(self)@[derived_index()].price == mul_attos(
                    final(self)@[0].price,
                    div_attos(pool@.valuation, pool@.share_supply),
                )
                &&& final(self)@[derived_index()].last_updated == final(self)@[0].last_updated
            },
            forall|i: int|
                #![trigger final(self)@[i]]
                0 <= i < old(self)@.len() ==> final(self)@[i].last_updated >= old(
                    self,
                )@[i].last_updated,
            r is Ok ==> forall|i: int|
                #![trigger final(self)@[i]]
                0 <= i < old(self)@.len() && old(self)@[i].market_id == message@.market_id
                    ==> final(self)@[i].last_updated == message@.timestamp && message@.timestamp
                    > old(self)@[i].last_updated,
    {
        proof {
            if price_update(self@, message@, pool@) is Ok {
                lemma_update_well_formed(self@, message@, pool@);
                if updates_base(self@, message@.market_id) {
                    lemma_lockstep(self@, message@, pool@);
                    lemma_derived_price(self@, message@, pool@);
                }
                assert forall|i: int| 0 <= i < self@.len() implies price_update(
                    self@,
                    message@,
                    pool@,
                )->Ok_0[i].last_updated >= self@[i].last_updated && (self@[i].market_id
                    == message@.market_id ==> price_update(
                    self@,
                    message@,
                    pool@,
                )->Ok_0[i].last_updated == message@.timestamp && message@.timestamp
                    > self@[i].last_updated) by {
                    lemma_update_never_rewinds(self@, message@, pool@, i);
                }
            }
        }
        let reaches_base: bool = match self.examine(&message) {
            Ok(reaches_base) => reaches_base,
            Err(e) => {
                return Err(e);
            },
        };
        if reaches_base {
            let derived: Amount = match derived_price(message.price, pool) {
                Ok(derived) => derived,
                Err(e) => {
                    return Err(e);
                },
            };
            assert(self@[derived_index()] == self.prices@[1]@);
            if message.created_at < self.prices[1].last_updated {
                return Err(OracleError::StaleUpdate);
            }
            write_update(&mut self.prices, &message, Some(derived));
        } else {
            write_update(&mut self.prices, &message, None);
        }
        Ok(())
    }

    /// Applies an attested price where that takes no reading of the pool.
    ///
    /// Fails with `StaleUpdate` where an entry of the message's market is at
    /// least as recent as the message. Otherwise, where the message reaches
    /// the base entry, nothing is written and the answer is
    /// `NeedsPoolValuation`: the caller reads the pool and calls
    /// [`Oracle::set_price`], which may still fail. Where it does not reach
    /// the base entry, every entry of the message's market takes the
    /// message's price and time, as `set_price` would have it with any
    /// reading.
    pub fn begin_set_price(&mut self, message: &PriceMessage) -> (r: Result<
        UpdateStep,
        OracleError,
    >)
        requires
            well_formed(old(self)@),
        ensures
            match r {
                Ok(UpdateStep::Applied) => {
                    &&& !is_stale(old(self)@, message@.market_id, message@.timestamp)
                    &&& !updates_base(old(self)@, message@.market_id)
                    &&& final(self)@ == fan_out(old(self)@, message@)
                    &&& forall|pool: PoolReading| #[trigger]
                        price_update(old(self)@, message@, pool) == Ok::<
                            Seq<PriceRecord>,
                            OracleError,
                        >(final(self)@)
                },
                Ok(UpdateStep::NeedsPoolValuation) => {
                    &&& !is_stale(old(self)@, message@.market_id, message@.timestamp)
                    &&& updates_base(old(self)@, message@.market_id)
                    &&& *final(self) == *old(self)
                },
                Err(e) => {
                    &&& e == OracleError::StaleUpdate
                    &&& is_stale(old(self)@, message@.market_id, message@.timestamp)
                    &&& *final(self) == *old(self)
                },
            },
            well_formed(final(self)@),
    {
        match self.examine(message) {
            Err(e) => Err(e),
            Ok(true) => Ok(UpdateStep::NeedsPoolValuation),
            Ok(false) => {
                write_update(&mut self.prices, message, None);
                Ok(UpdateStep::Applied)
            },
        }
    }

    /// Whether an entry is registered for the resource.
    pub fn is_registered(&self, resource_id: &ResourceId) -> (r: bool)
        ensures
            r == has_resource(self@, resource_id@),
    {
        holds_resource(&self.prices, self.prices.len(), resource_id)
    }

    /// Registers a resource at time `now`, with its market and starting
    /// price, as the last entry.
    ///
    /// Fails with `Unauthorized` where the caller is not the owner, and
    /// else with `DuplicateResource` where the resource is registered
    /// already. A failed registration changes nothing.
    pub fn add_pair(
        &mut self,
        caller: Caller,
        resource_address: ResourceId,
        market_id: String,
        starting_price: Amount,
        now: u64,
    ) -> (r: Result<(), OracleError>)
        requires
            well_formed(old(self)@),
        ensures
            match r {
                Ok(()) => registration(
                    old(self)@,
                    caller,
                    PriceRecord {
                        resource_id: resource_address@,
                        price: starting_price@,
                        last_updated: now as nat,
                        market_id: market_id@,
                    },
                ) == Ok::<Seq<PriceRecord>, OracleError>(final(self)@),
                Err(e) => {
                    &&& registration(
                        old(self)@,
                        caller,
                        PriceRecord {
                            resource_id: resource_address@,
                            price: starting_price@,
                            last_updated: now as nat,
                            market_id: market_id@,
                        },
                    ) == Err::<Seq<PriceRecord>, OracleError>(e)
                    &&& *final(self) == *old(self)
                },
            },
            final(self)@ == after(
                old(self)@,
                (Operation::AddPair {
                    caller,
                    record: PriceRecord {
                        resource_id: resource_address@,
                        price: starting_price@,
                        last_updated: now as nat,
                        market_id: market_id@,
                    },
                }),
            ),
            well_formed(final(self)@),
            forall|i: int|
                0 <= i < old(self)@.len() ==> #[trigger] final(self)@[i] == old(self)@[i],
    {
        proof {
            let record = PriceRecord {
                resource_id: resource_address@,
                price: starting_price@,
                last_updated: now as nat,
                market_id: market_id@,
            };
            if registration(self@, caller, record) is Ok {
                lemma_registration_appends(self@, caller, record);
            }
        }
        match caller {
            Caller::Owner => {},
            Caller::Other => {
                return Err(OracleError::Unauthorized);
            },
        }
        if self.is_registered(&resource_address) {
            return Err(OracleError::DuplicateResource);
        }
        self.prices.push(
            PriceEntry {
                resource_id: resource_address,
                price: starting_price,
                last_updated: now,
                market_id,
            },
        );
        assert(self@ =~= old(self)@.push(self.prices@[self.prices@.len() - 1]@));
        Ok(())
    }

    /// The registry with the given entries, where they make a well-formed
    /// registry: at least two entries, the first for XRD, no resource
    /// twice.
    pub fn from_entries(entries: Vec<PriceEntry>) -> (r: Option<Oracle>)
        ensures
            match r {
                Some(oracle) => well_formed(records(entries@)) && oracle@ == records(entries@),
                None => !well_formed(records(entries@)),
            },
    {
        let n: usize = entries.len();
        if n < 2 {
            return None;
        }
        let base = native_xrd();
        if !entries[0].resource_id.same_as(&base) {
            return None;
        }
        let mut i: usize = 1;
        while i < n
            invariant
                n == entries.len(),
                1 <= i <= n,
                forall|a: int, b: int|
                    #![trigger entries@[a], entries@[b]]
                    0 <= a < b < i ==> entries@[a].resource_id@ != entries@[b].resource_id@,
            decreases n - i,
        {
            if holds_resource(&entries, i, &entries[i].resource_id) {
                proof {
                    let s = records(entries@);
                    let a = choose|a: int|
                        #![trigger entries@[a]]
                        0 <= a < i && entries@[a].resource_id@ == entries@[i as int].resource_id@;
                    assert(s[a].resource_id == s[i as int].resource_id);
                }
                return None;
            }
            i += 1;
        }
        proof {
            let s = records(entries@);
            assert forall|a: int, b: int| 0 <= a < b < s.len() implies s[a].resource_id
                != s[b].resource_id by {
                assert(entries@[a].resource_id@ != entries@[b].resource_id@);
            }
        }
        Some(Oracle { prices: entries })
    }
}

/// Whether one of the first `end` entries is for the resource.
fn holds_resource(entries: &Vec<PriceEntry>, end: usize, resource_id: &ResourceId) -> (r: bool)
    requires
        end <= entries.len(),
    ensures
        r == (exists|i: int|
            #![trigger entries@[i]]
            0 <= i < end && entries@[i].resource_id@ == resource_id@),
        end == entries.len() ==> r == has_resource(records(entries@), resource_id@),
{
    let mut i: usize = 0;
    while i < end
        invariant
            i <= end <= entries.len(),
            forall|j: int|
                #![trigger entries@[j]]
                0 <= j < i ==> entries@[j].resource_id@ != resource_id@,
        decreases end - i,
    {
        if entries[i].resource_id.same_as(resource_id) {
            proof {
                assert(records(entries@)[i as int].resource_id == resource_id@);
            }
            return true;
        }
        i += 1;
    }
    proof {
        let s = records(entries@);
        if end == entries.len() && has_resource(s, resource_id@) {
            let j = choose|j: int|
                #![trigger s[j]]
                0 <= j < s.len() && s[j].resource_id == resource_id@;
            assert(entries@[j].resource_id@ == resource_id@);
        }
    }
    false
}

} // verus!
