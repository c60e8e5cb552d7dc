//! The volume-weighted average price of a window of trades.
//!
//! Prices are integers in units of 1e-9 and the average is rounded down to a
//! whole unit. Where no size was traded at all, the price is the midpoint of
//! the lowest and the highest price, rounded down as well.

use vstd::arithmetic::div_mod::{
    lemma_fundamental_div_mod, lemma_fundamental_div_mod_converse, lemma_mod_bound,
};
use vstd::arithmetic::mul::lemma_mul_inequality;
use vstd::prelude::*;

verus! {

/// The largest number of trades that one window may hold: up to this many,
/// the sums cannot leave the range of the integers that hold them.
pub const MAX_WINDOW_TRADES: usize = 0xFFFF_FFFF;

/// One trade of the window.
#[derive(Clone, Copy, Debug, PartialEq, Eq, Structural)]
pub struct Trade {
    /// The price, in units of 1e-9.
    pub price: i64,
    pub size: u32,
}

/// Why a window has no price.
#[derive(Clone, Copy, Debug, PartialEq, Eq, Structural)]
pub enum WindowError {
    /// The window holds no trade.
    Empty,
    /// The window holds more than `MAX_WINDOW_TRADES` trades.
    TooLarge,
}

/// The sum of price times size over `trades`.
pub open spec fn notional(trades: Seq<Trade>) -> int
    decreases trades.len(),
{
    if trades.len() == 0 {
        0
    } else {
        notional(trades.drop_last()) + trades.last().price * trades.last().size
    }
}

/// The sum of the sizes of `trades`.
pub open spec fn volume(trades: Seq<Trade>) -> int
    decreases trades.len(),
{
    if trades.len() == 0 {
        0
    } else {
        volume(trades.drop_last()) + trades.last().size
    }
}

/// The lowest price among `trades`, which must not be empty.
pub open spec fn lowest(trades: Seq<Trade>) -> int
    recommends
        trades.len() > 0,
    decreases trades.len(),
{
    if trades.len() <= 1 {
        trades.last().price as int
    } else if trades.last().price < lowest(trades.drop_last()) {
        trades.last().price as int
    } else {
        lowest(trades.drop_last())
    }
}

/// The highest price among `trades`, which must not be empty.
pub open spec fn highest(trades: Seq<Trade>) -> int
    recommends
        trades.len() > 0,
    decreases trades.len(),
{
    if trades.len() <= 1 {
        trades.last().price as int
    } else if trades.last().price > highest(trades.drop_last()) {
        trades.last().price as int
    } else {
        highest(trades.drop_last())
    }
}

/// The price of a window that is not empty: the sum of price times size
/// over the sum of the sizes, or, where all sizes are zero, the midpoint of
/// the lowest and the highest price. Both are rounded down.
pub open spec fn average_price(trades: Seq<Trade>) -> int {
    if volume(trades) > 0 {
        notional(trades) / volume(trades)
    } else {
        (lowest(trades) + highest(trades)) / 2
    }
}

/// What `vwap` answers for `trades`.
pub open spec fn vwap_of(trades: Seq<Trade>) -> Result<i64, WindowError> {
    if trades.len() == 0 {
        Err(WindowError::Empty)
    } else if trades.len() > MAX_WINDOW_TRADES {
        Err(WindowError::TooLarge)
    } else {
        Ok(average_price(trades) as i64)
    }
}

/// The lowest price is at most the highest, and each is the price of some
/// trade and bounds the prices of all.
pub proof fn lemma_price_range(trades: Seq<Trade>)
    requires
        trades.len() > 0,
    ensures
        i64::MIN <= lowest(trades) <= highest(trades) <= i64::MAX,
        forall|i: int| 0 <= i < trades.len() ==> lowest(trades) <= (#[trigger] trades[i]).price
            <= highest(trades),
        exists|i: int| 0 <= i < trades.len() && (#[trigger] trades[i]).price == lowest(trades),
        exists|i: int| 0 <= i < trades.len() && (#[trigger] trades[i]).price == highest(trades),
    decreases trades.len(),
{
    let n = trades.len() as int;
    if n > 1 {
        let rest = trades.drop_last();
        lemma_price_range(rest);
        assert forall|i: int| 0 <= i < n implies lowest(trades) <= (#[trigger] trades[i]).price
            <= highest(trades) by {
            if i < n - 1 {
                assert(rest[i] == trades[i]);
            }
        }
        let a = choose|i: int| 0 <= i < rest.len() && (#[trigger] rest[i]).price == lowest(rest);
        let b = choose|i: int| 0 <= i < rest.len() && (#[trigger] rest[i]).price == highest(rest);
        assert(rest[a] == trades[a] && rest[b] == trades[b]);
        if trades.last().price < lowest(rest) {
            assert(trades[n - 1].price == lowest(trades));
        } else {
            assert(trades[a].price == lowest(trades));
        }
        if trades.last().price > highest(rest) {
            assert(trades[n - 1].price == highest(trades));
        } else {
            assert(trades[b].price == highest(trades));
        }
    } else {
        assert(trades[0].price == lowest(trades));
        assert(trades[0].price == highest(trades));
    }
}

/// The notional lies between the volume at the lowest price and the volume
/// at the highest price.
pub proof fn lemma_notional_bounds(trades: Seq<Trade>)
    requires
        trades.len() > 0,
    ensures
        0 <= volume(trades),
        lowest(trades) * volume(trades) <= notional(trades) <= highest(trades) * volume(trades),
    decreases trades.len(),
{
    let last = trades.last();
    let rest = trades.drop_last();
    let lo = lowest(trades);
    let hi = highest(trades);
    lemma_price_range(trades);
    assert(trades[trades.len() - 1] == last);
    lemma_mul_inequality(lo, last.price as int, last.size as int);
    lemma_mul_inequality(last.price as int, hi, last.size as int);
    if rest.len() == 0 {
        assert(notional(rest) == 0 && volume(rest) == 0);
        assert(lo * volume(trades) <= notional(trades) <= hi * volume(trades));
    } else {
        lemma_notional_bounds(rest);
        lemma_price_range(rest);
        lemma_mul_inequality(lo, lowest(rest), volume(rest));
        lemma_mul_inequality(highest(rest), hi, volume(rest));
        assert(lo * (volume(rest) + last.size) == lo * volume(rest) + lo * last.size)
            by (nonlinear_arith);
        assert(hi * (volume(rest) + last.size) == hi * volume(rest) + hi * last.size)
            by (nonlinear_arith);
    }
}

/// The price of a window lies between its lowest and its highest price.
pub proof fn lemma_average_in_range(trades: Seq<Trade>)
    requires
        trades.len() > 0,
    ensures
        lowest(trades) <= average_price(trades) <= highest(trades),
        i64::MIN <= average_price(trades) <= i64::MAX,
{
    lemma_price_range(trades);
    lemma_notional_bounds(trades);
    let lo = lowest(trades);
    let hi = highest(trades);
    let v = volume(trades);
    let n = notional(trades);
    if v > 0 {
        let q = n / v;
        assert(lo <= q <= hi) by (nonlinear_arith)
            requires
                v > 0,
                lo * v <= n <= hi * v,
                q == n / v,
        {
            assert(n == v * (n / v) + n % v && 0 <= n % v < v);
            if q < lo {
                assert((q + 1) * v <= lo * v);
            }
            if q > hi {
                assert((hi + 1) * v <= q * v);
            }
        }
    }
}

/// `n / d` rounded down, for a positive `d`.
fn floor_div(n: i128, d: i128) -> (q: i128)
    requires
        d > 0,
        n > i128::MIN,
    ensures
        q == n / d,
{
    if n >= 0 {
        n / d
    } else {
        let m = -n;
        let qm = m / d;
        proof {
            lemma_fundamental_div_mod(m as int, d as int);
            lemma_mod_bound(m as int, d as int);
            assert(qm * d == d * (m / d)) by (nonlinear_arith)
                requires
                    qm == m / d,
            ;
        }
        let rm = m - qm * d;
        if rm == 0 {
            proof {
                assert(n == (-qm) * d + 0) by (nonlinear_arith)
                    requires
                        n == -m,
                        m == qm * d,
                ;
                lemma_fundamental_div_mod_converse(n as int, d as int, -qm as int, 0);
            }
            -qm
        } else {
            proof {
                assert(n == (-qm - 1) * d + (d - rm)) by (nonlinear_arith)
                    requires
                        n == -m,
                        rm == m - qm * d,
                ;
                lemma_fundamental_div_mod_converse(
                    n as int,
                    d as int,
                    (-qm - 1) as int,
                    (d - rm) as int,
                );
            }
            -qm - 1
        }
    }
}

/// The volume-weighted average price of `trades`.
///
/// An empty window has no price, and neither has one of more than
/// `MAX_WINDOW_TRADES` trades. Otherwise the price is the sum of price
/// times size divided by the sum of the sizes, or the midpoint of the
/// lowest and the highest price where nothing was traded.
pub fn vwap(trades: &Vec<Trade>) -> (r: Result<i64, WindowError>)
    ensures
        r == vwap_of(trades@),
        r matches Ok(price) ==> lowest(trades@) <= price <= highest(trades@),
{
    let n = trades.len();
    if n == 0 {
        return Err(WindowError::Empty);
    }
    if n > MAX_WINDOW_TRADES {
        return Err(WindowError::TooLarge);
    }
    let mut total: i128 = 0;
    let mut sizes: i128 = 0;
    let mut low: i64 = trades[0].price;
    let mut high: i64 = trades[0].price;
    let mut i: usize = 0;
    while i < n
        invariant
            i <= n,
            n == trades@.len(),
            0 < n <= MAX_WINDOW_TRADES,
            total == notional(trades@.take(i as int)),
            sizes == volume(trades@.take(i as int)),
            -(i * 0x8000_0000_0000_0000_0000_0000) <= total <= i * 0x8000_0000_0000_0000_0000_0000,
            0 <= sizes <= i * 0x1_0000_0000,
            i > 0 ==> low == lowest(trades@.take(i as int)),
            i > 0 ==> high == highest(trades@.take(i as int)),
            i == 0 ==> low == trades@[0].price && high == trades@[0].price,
        decreases n - i,
    {
        let t = trades[i];
        proof {
            assert(trades@.take(i + 1).drop_last() =~= trades@.take(i as int));
            assert(trades@.take(i + 1).last() == t);
            assert(-0x8000_0000_0000_0000_0000_0000 <= t.price * t.size
                <= 0x8000_0000_0000_0000_0000_0000) by (nonlinear_arith)
                requires
                    -0x8000_0000_0000_0000 <= t.price <= 0x8000_0000_0000_0000,
                    0 <= t.size <= 0x1_0000_0000,
            ;
        }
        let p: i128 = t.price as i128;
        let s: i128 = t.size as i128;
        total = total + p * s;
        sizes = sizes + s;
        if t.price < low {
            low = t.price;
        }
        if t.price > high {
            high = t.price;
        }
        i = i + 1;
    }
    assert(trades@.take(n as int) =~= trades@);
    proof {
        lemma_average_in_range(trades@);
        lemma_price_range(trades@);
    }
    if sizes > 0 {
        let q = floor_div(total, sizes);
        Ok(q as i64)
    } else {
        let q = floor_div(low as i128 + high as i128, 2);
        Ok(q as i64)
    }
}

} // verus!
