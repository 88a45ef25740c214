//! What holds of every registry and of every operation on it.

use vstd::prelude::*;
use vstd::math::abs;
use crate::amount::{div_attos, lemma_div_toward_zero_error, mul_attos, scale};
use crate::entry::{Caller, OracleError, PoolReading, PriceRecord, PriceUpdate};
use crate::model::{
    after, after_all, derived_index, derived_is_newer, derived_price_of, fan_out, is_stale,
    price_update, registration, seeded, updates_base, well_formed, written, Operation,
};
use crate::resource::xrd_bytes;

verus! {

/// A registry that has just been set up is well formed, provided the
/// derived resource is not XRD.
pub proof fn lemma_seeded_well_formed(derived_resource: Seq<u8>, now: nat)
    requires
        derived_resource != xrd_bytes(),
    ensures
        well_formed(seeded(derived_resource, now)),
{
}

/// In a well-formed registry the base entry is the first one: an update
/// reaches the base entry exactly if it is for the first entry's market.
pub proof fn lemma_base_is_first(s: Seq<PriceRecord>, market_id: Seq<char>)
    requires
        well_formed(s),
    ensures
        updates_base(s, market_id) == (s[0].market_id == market_id),
{
    if updates_base(s, market_id) {
        let i = choose|i: int|
            #![trigger s[i]]
            0 <= i < s.len() && s[i].market_id == market_id && s[i].resource_id == xrd_bytes();
        if i != 0 {
            assert(s[0].resource_id != s[i].resource_id);
        }
    } else {
        assert(s[0].resource_id == xrd_bytes());
    }
}

/// Writing an update keeps the registry well formed: no entry comes or
/// goes, and each keeps its resource and its market.
pub proof fn lemma_written_well_formed(s: Seq<PriceRecord>, u: PriceUpdate, derived: Option<int>)
    requires
        well_formed(s),
    ensures
        well_formed(written(s, u, derived)),
        written(s, u, derived).len() == s.len(),
        forall|i: int|
            0 <= i < s.len() ==> (#[trigger] written(s, u, derived)[i]).resource_id
                == s[i].resource_id,
        forall|i: int|
            0 <= i < s.len() ==> (#[trigger] written(s, u, derived)[i]).market_id
                == s[i].market_id,
{
    let w = written(s, u, derived);
    assert forall|i: int| 0 <= i < s.len() implies (#[trigger] w[i]).resource_id
        == s[i].resource_id && w[i].market_id == s[i].market_id by {
        assert(fan_out(s, u)[i].resource_id == s[i].resource_id);
    }
    assert forall|i: int, j: int| 0 <= i < j < w.len() implies w[i].resource_id
        != w[j].resource_id by {
        assert(s[i].resource_id != s[j].resource_id);
    }
}

/// A successful price update keeps the registry well formed: no entry comes
/// or goes, and each keeps its resource and its market.
pub proof fn lemma_update_well_formed(s: Seq<PriceRecord>, u: PriceUpdate, pool: PoolReading)
    requires
        well_formed(s),
        price_update(s, u, pool) is Ok,
    ensures
        well_formed(price_update(s, u, pool)->Ok_0),
        price_update(s, u, pool)->Ok_0.len() == s.len(),
        forall|i: int|
            0 <= i < s.len() ==> (#[trigger] price_update(s, u, pool)->Ok_0[i]).resource_id
                == s[i].resource_id,
        forall|i: int|
            0 <= i < s.len() ==> (#[trigger] price_update(s, u, pool)->Ok_0[i]).market_id
                == s[i].market_id,
{
    if updates_base(s, u.market_id) {
        lemma_written_well_formed(s, u, Some(derived_price_of(u.price, pool)->Ok_0));
    } else {
        lemma_written_well_formed(s, u, None);
    }
}

/// An update that is not newer than an entry of its market is rejected,
/// whatever the pool reads.
pub proof fn lemma_stale_update_rejected(
    s: Seq<PriceRecord>,
    u: PriceUpdate,
    pool: PoolReading,
    i: int,
)
    requires
        0 <= i < s.len(),
        s[i].market_id == u.market_id,
        u.timestamp <= s[i].last_updated,
    ensures
        price_update(s, u, pool) == Err::<Seq<PriceRecord>, OracleError>(OracleError::StaleUpdate),
{
}

/// An update that reaches the base entry while the derived entry is newer
/// than it is rejected: as stale, unless the derived price cannot be
/// computed, which is reported first.
pub proof fn lemma_update_behind_derived_rejected(
    s: Seq<PriceRecord>,
    u: PriceUpdate,
    pool: PoolReading,
)
    requires
        updates_base(s, u.market_id),
        derived_is_newer(s, u.timestamp),
    ensures
        price_update(s, u, pool) is Err,
        derived_price_of(u.price, pool) is Ok ==> price_update(s, u, pool) == Err::<
            Seq<PriceRecord>,
            OracleError,
        >(OracleError::StaleUpdate),
{
}

/// An update is stale only where an entry of its market is at least as
/// recent, or where it reaches the base entry while the derived entry is
/// newer.
pub proof fn lemma_stale_only_if(s: Seq<PriceRecord>, u: PriceUpdate, pool: PoolReading)
    requires
        price_update(s, u, pool) == Err::<Seq<PriceRecord>, OracleError>(OracleError::StaleUpdate),
    ensures
        is_stale(s, u.market_id, u.timestamp) || (updates_base(s, u.market_id) && derived_is_newer(
            s,
            u.timestamp,
        )),
{
}

/// An update that is newer than every entry of its market, and not older
/// than the derived entry, succeeds wherever the derived price can be
/// computed or is not called for.
pub proof fn lemma_fresh_update_succeeds(s: Seq<PriceRecord>, u: PriceUpdate, pool: PoolReading)
    requires
        !is_stale(s, u.market_id, u.timestamp),
        !derived_is_newer(s, u.timestamp),
        !updates_base(s, u.market_id) || derived_price_of(u.price, pool) is Ok,
    ensures
        price_update(s, u, pool) is Ok,
{
}

/// A successful price update gives every entry of its market the update's
/// price and a time later than the one it had, and leaves every other entry
/// but the derived one as it was.
pub proof fn lemma_update_entry(s: Seq<PriceRecord>, u: PriceUpdate, pool: PoolReading, i: int)
    requires
        well_formed(s),
        price_update(s, u, pool) is Ok,
        0 <= i < s.len(),
    ensures
        s[i].market_id == u.market_id ==> price_update(s, u, pool)->Ok_0[i].last_updated
            == u.timestamp && u.timestamp > s[i].last_updated,
        s[i].market_id == u.market_id && !(i == derived_index() && updates_base(s, u.market_id))
            ==> price_update(s, u, pool)->Ok_0[i].price == u.price,
        s[i].market_id != u.market_id && !(i == derived_index() && updates_base(s, u.market_id))
            ==> price_update(s, u, pool)->Ok_0[i] == s[i],
{
}

/// A successful price update moves no entry's time backwards. Every entry
/// of its market gets the update's time, which is later than the one it
/// had; the derived entry, where the update reaches the base entry, gets
/// the update's time too.
pub proof fn lemma_update_never_rewinds(
    s: Seq<PriceRecord>,
    u: PriceUpdate,
    pool: PoolReading,
    i: int,
)
    requires
        well_formed(s),
        price_update(s, u, pool) is Ok,
        0 <= i < s.len(),
    ensures
        price_update(s, u, pool)->Ok_0[i].last_updated >= s[i].last_updated,
        s[i].market_id == u.market_id ==> price_update(s, u, pool)->Ok_0[i].last_updated
            == u.timestamp && u.timestamp > s[i].last_updated,
        i == derived_index() && updates_base(s, u.market_id) ==> price_update(
            s,
            u,
            pool,
        )->Ok_0[i].last_updated == u.timestamp,
{
}

/// After a successful update that reaches the base entry, the base entry
/// and the derived entry carry the same time, that of the update.
pub proof fn lemma_lockstep(s: Seq<PriceRecord>, u: PriceUpdate, pool: PoolReading)
    requires
        well_formed(s),
        updates_base(s, u.market_id),
        price_update(s, u, pool) is Ok,
    ensures
        price_update(s, u, pool)->Ok_0[derived_index()].last_updated == price_update(
            s,
            u,
            pool,
        )->Ok_0[0].last_updated,
        price_update(s, u, pool)->Ok_0[0].last_updated == u.timestamp,
{
    lemma_base_is_first(s, u.market_id);
}

/// After a successful update that reaches the base entry, the base entry
/// carries the update's price, and the derived entry carries that price
/// times the pool's valuation per share.
pub proof fn lemma_derived_price(s: Seq<PriceRecord>, u: PriceUpdate, pool: PoolReading)
    requires
        well_formed(s),
        updates_base(s, u.market_id),
        price_update(s, u, pool) is Ok,
    ensures
        pool.share_supply != 0,
        price_update(s, u, pool)->Ok_0[0].price == u.price,
        price_update(s, u, pool)->Ok_0[derived_index()].price == mul_attos(
            price_update(s, u, pool)->Ok_0[0].price,
            div_attos(pool.valuation, pool.share_supply),
        ),
{
    lemma_base_is_first(s, u.market_id);
}

/// The derived price is the base price times the valuation per share to
/// within the rounding of the two steps. With every amount in attos, the
/// exact price is `base_price * valuation / share_supply`; the stored price
/// differs from it by less than one atto and the base price's `10^-18`th
/// part. Cleared of fractions:
/// `|derived * supply * 10^18 - base_price * valuation * 10^18|` is less
/// than `|supply| * (|base_price| + 10^18)`.
pub proof fn lemma_derived_price_precision(base_price: int, pool: PoolReading)
    requires
        pool.share_supply != 0,
    ensures
        abs(
            mul_attos(base_price, div_attos(pool.valuation, pool.share_supply)) * pool.share_supply
                * scale() - base_price * pool.valuation * scale(),
        ) < abs(pool.share_supply) * (abs(base_price) + scale()),
{
    let p = base_price;
    let v = pool.valuation;
    let s = pool.share_supply;
    let e = scale();
    let r = div_attos(v, s);
    let d = mul_attos(p, r);
    lemma_div_toward_zero_error(v * e, s);
    lemma_div_toward_zero_error(p * r, e);
    let a = d * e - p * r;
    let b = r * s - v * e;
    assert(abs(a) <= e - 1);
    assert(abs(b) <= abs(s) - 1);
    assert(d * s * e - p * v * e == s * a + p * b) by {
        assert(s * a == s * (d * e) - s * (p * r)) by (nonlinear_arith)
            requires
                a == d * e - p * r,
        ;
        assert(p * b == p * (r * s) - p * (v * e)) by (nonlinear_arith)
            requires
                b == r * s - v * e,
        ;
        assert(s * (p * r) == p * (r * s)) by (nonlinear_arith);
        assert(s * (d * e) == d * s * e) by (nonlinear_arith);
        assert(p * (v * e) == p * v * e) by (nonlinear_arith);
    }
    assert(abs(s * a) <= abs(s) * (e - 1)) by (nonlinear_arith)
        requires
            abs(a) <= e - 1,
    ;
    assert(abs(p * b) <= abs(p) * (abs(s) - 1)) by (nonlinear_arith)
        requires
            abs(b) <= abs(s) - 1,
    ;
    assert(abs(s) * (e - 1) + abs(p) * (abs(s) - 1) < abs(s) * (abs(p) + e)) by (nonlinear_arith)
        requires
            abs(s) >= 1,
            abs(p) >= 0,
    ;
}

/// An update that reaches the base entry while no share is outstanding is
/// rejected: for the division by zero, unless an entry of its market makes
/// it stale.
pub proof fn lemma_no_shares_rejected(s: Seq<PriceRecord>, u: PriceUpdate, pool: PoolReading)
    requires
        updates_base(s, u.market_id),
        pool.share_supply == 0,
    ensures
        price_update(s, u, pool) is Err,
        !is_stale(s, u.market_id, u.timestamp) ==> price_update(s, u, pool) == Err::<
            Seq<PriceRecord>,
            OracleError,
        >(OracleError::DivisionByZero),
{
}

/// Nobody but the owner registers a resource.
pub proof fn lemma_registration_needs_owner(s: Seq<PriceRecord>, r: PriceRecord)
    ensures
        registration(s, Caller::Other, r) == Err::<Seq<PriceRecord>, OracleError>(
            OracleError::Unauthorized,
        ),
{
}

/// A resource is registered once: the owner's attempt to register the
/// resource of an entry again is rejected.
pub proof fn lemma_registration_is_unique(s: Seq<PriceRecord>, r: PriceRecord, i: int)
    requires
        0 <= i < s.len(),
        s[i].resource_id == r.resource_id,
    ensures
        registration(s, Caller::Owner, r) == Err::<Seq<PriceRecord>, OracleError>(
            OracleError::DuplicateResource,
        ),
{
}

/// A successful registration adds the new entry at the end, leaves the
/// others as they were, and keeps the registry well formed.
pub proof fn lemma_registration_appends(s: Seq<PriceRecord>, caller: Caller, r: PriceRecord)
    requires
        well_formed(s),
        registration(s, caller, r) is Ok,
    ensures
        registration(s, caller, r)->Ok_0.len() == s.len() + 1,
        registration(s, caller, r)->Ok_0[s.len() as int] == r,
        forall|i: int| 0 <= i < s.len() ==> #[trigger] registration(s, caller, r)->Ok_0[i] == s[i],
        well_formed(registration(s, caller, r)->Ok_0),
{
    let t = s.push(r);
    assert forall|i: int, j: int| 0 <= i < j < t.len() implies t[i].resource_id
        != t[j].resource_id by {
        if j == s.len() {
            assert(s[i].resource_id != r.resource_id);
        } else {
            assert(s[i].resource_id != s[j].resource_id);
        }
    }
}

/// An operation keeps the registry well formed, drops no entry, keeps
/// every entry's resource and market, and moves no entry's time backwards.
pub proof fn lemma_operation(s: Seq<PriceRecord>, op: Operation)
    requires
        well_formed(s),
    ensures
        well_formed(after(s, op)),
        after(s, op).len() >= s.len(),
        forall|i: int|
            0 <= i < s.len() ==> (#[trigger] after(s, op)[i]).resource_id == s[i].resource_id,
        forall|i: int| 0 <= i < s.len() ==> (#[trigger] after(s, op)[i]).market_id == s[i].market_id,
        forall|i: int|
            0 <= i < s.len() ==> (#[trigger] after(s, op)[i]).last_updated >= s[i].last_updated,
{
    match op {
        Operation::SetPrice { update, pool } => {
            if price_update(s, update, pool) is Ok {
                lemma_update_well_formed(s, update, pool);
                assert forall|i: int| 0 <= i < s.len() implies (#[trigger] after(
                    s,
                    op,
                )[i]).last_updated >= s[i].last_updated by {
                    lemma_update_never_rewinds(s, update, pool, i);
                }
            }
        },
        Operation::AddPair { caller, record } => {
            if registration(s, caller, record) is Ok {
                lemma_registration_appends(s, caller, record);
            }
        },
    }
}

/// A run of operations keeps the registry well formed, drops no entry, and
/// keeps every entry's resource and market.
pub proof fn lemma_run_well_formed(s: Seq<PriceRecord>, ops: Seq<Operation>)
    requires
        well_formed(s),
    ensures
        well_formed(after_all(s, ops)),
        after_all(s, ops).len() >= s.len(),
        forall|i: int|
            0 <= i < s.len() ==> (#[trigger] after_all(s, ops)[i]).resource_id == s[i].resource_id,
        forall|i: int|
            0 <= i < s.len() ==> (#[trigger] after_all(s, ops)[i]).market_id == s[i].market_id,
    decreases ops.len(),
{
    if ops.len() > 0 {
        lemma_run_well_formed(s, ops.drop_last());
        lemma_operation(after_all(s, ops.drop_last()), ops.last());
    }
}

/// Over any run of operations, failed ones included, no entry's time moves
/// backwards.
pub proof fn lemma_run_never_rewinds(s: Seq<PriceRecord>, ops: Seq<Operation>, i: int)
    requires
        well_formed(s),
        0 <= i < s.len(),
    ensures
        i < after_all(s, ops).len(),
        after_all(s, ops)[i].last_updated >= s[i].last_updated,
    decreases ops.len(),
{
    if ops.len() > 0 {
        let earlier = ops.drop_last();
        lemma_run_never_rewinds(s, earlier, i);
        lemma_run_well_formed(s, earlier);
        lemma_operation(after_all(s, earlier), ops.last());
    }
}

} // verus!
