use crate::binance::api::KlineResp;
use crate::error::StrategyError;
use crate::fixed::{floor_div, representable};
use vstd::prelude::*;

verus! {

/// Number of periods in the window, and weight of the smoothing filter.
pub const WINDOW_SIZE: usize = 20;

/// Distance between two values.
pub open spec fn distance(a: int, b: int) -> int {
    if a >= b {
        a - b
    } else {
        b - a
    }
}

/// True range of a period: the widest of its own span and the two gaps to
/// the previous close.
pub open spec fn true_range(high: int, low: int, prev_close: int) -> int {
    let span = high - low;
    let up = distance(high, prev_close);
    let down = distance(prev_close, low);
    if span >= up && span >= down {
        span
    } else if up >= down {
        up
    } else {
        down
    }
}

/// True range of the seed's candle `i`: the first has no previous close and
/// counts its own span.
pub open spec fn seed_sample(candles: Seq<KlineResp>, i: int) -> int {
    if i == 0 {
        candles[0].high - candles[0].low
    } else {
        true_range(candles[i].high as int, candles[i].low as int, candles[i - 1].close as int)
    }
}

/// Sum of the true ranges of the first `count` seed candles.
pub open spec fn seed_sum(candles: Seq<KlineResp>, count: nat) -> int
    decreases count,
{
    if count == 0 {
        0
    } else {
        seed_sum(candles, (count - 1) as nat) + seed_sample(candles, count - 1)
    }
}

/// The volatility a seed starts with: the plain average of the true ranges
/// of its first twenty candles.
pub open spec fn seed_volatility(candles: Seq<KlineResp>) -> int {
    seed_sum(candles, WINDOW_SIZE as nat) / (WINDOW_SIZE as int)
}

/// One step of the smoothing filter, which gives the newest true range the
/// weight of one twentieth and so never forgets the past entirely.
pub open spec fn smoothed(n: int, range: int) -> int {
    (19 * n + range) / 20
}

/// Executable form of [`true_range`], exact in a wider integer.
pub fn compute_true_range(high: i64, low: i64, prev_close: i64) -> (range: i128)
    ensures
        range == true_range(high as int, low as int, prev_close as int),
        -0x1_0000_0000_0000_0000 < range < 0x1_0000_0000_0000_0000,
{
    let span: i128 = high as i128 - low as i128;
    let up: i128 = if high >= prev_close {
        high as i128 - prev_close as i128
    } else {
        prev_close as i128 - high as i128
    };
    let down: i128 = if prev_close >= low {
        prev_close as i128 - low as i128
    } else {
        low as i128 - prev_close as i128
    };
    if span >= up && span >= down {
        span
    } else if up >= down {
        up
    } else {
        down
    }
}

/// The smoothed average true range, with the close that the next true range
/// will be measured against.
#[derive(Clone, Copy, Debug, PartialEq, Eq, Structural)]
pub struct VolatilityEstimator {
    pub n: i64,
    pub prev_close: i64,
}

impl VolatilityEstimator {
    /// Seeds the estimator: `n` is the average true range of the first twenty
    /// candles, and the previous close is the close of the last candle.
    pub fn initialize(candles: &Vec<KlineResp>) -> (seeded: Result<Self, StrategyError>)
        ensures
            candles.len() <= WINDOW_SIZE <==> seeded == Err::<Self, StrategyError>(
                StrategyError::InsufficientSeedData,
            ),
            candles.len() > WINDOW_SIZE && !representable(seed_volatility(candles@)) <==> seeded
                == Err::<Self, StrategyError>(StrategyError::AmountOutOfRange),
            candles.len() > WINDOW_SIZE && representable(seed_volatility(candles@)) ==> seeded
                == Ok::<Self, StrategyError>(
                VolatilityEstimator {
                    n: seed_volatility(candles@) as i64,
                    prev_close: candles@.last().close,
                },
            ),
    {
        if candles.len() <= WINDOW_SIZE {
            return Err(StrategyError::InsufficientSeedData);
        }
        let mut sum: i128 = candles[0].high as i128 - candles[0].low as i128;
        let mut i: usize = 1;
        assert(seed_sum(candles@, 1) == seed_sum(candles@, 0) + seed_sample(candles@, 0));
        while i < WINDOW_SIZE
            invariant
                1 <= i <= WINDOW_SIZE,
                candles.len() > WINDOW_SIZE,
                sum == seed_sum(candles@, i as nat),
                -0x1_0000_0000_0000_0000 * i <= sum <= 0x1_0000_0000_0000_0000 * i,
            decreases WINDOW_SIZE - i,
        {
            let range: i128 = compute_true_range(
                candles[i].high,
                candles[i].low,
                candles[i - 1].close,
            );
            sum = sum + range;
            i = i + 1;
        }
        let n: i128 = floor_div(sum, WINDOW_SIZE as i128);
        if n < i64::MIN as i128 || n > i64::MAX as i128 {
            return Err(StrategyError::AmountOutOfRange);
        }
        Ok(VolatilityEstimator { n: n as i64, prev_close: candles[candles.len() - 1].close })
    }

    /// Feeds one period into the filter. When the new value cannot be
    /// stored the estimator is left as it was.
    pub fn update(&mut self, curr_high: i64, curr_low: i64, curr_close: i64) -> (done: Result<
        (),
        StrategyError,
    >)
        ensures
            representable(
                smoothed(
                    old(self).n as int,
                    true_range(curr_high as int, curr_low as int, old(self).prev_close as int),
                ),
            ) ==> done is Ok && final(self).prev_close == curr_close && final(self).n == smoothed(
                old(self).n as int,
                true_range(curr_high as int, curr_low as int, old(self).prev_close as int),
            ),
            !representable(
                smoothed(
                    old(self).n as int,
                    true_range(curr_high as int, curr_low as int, old(self).prev_close as int),
                ),
            ) ==> done == Err::<(), StrategyError>(StrategyError::AmountOutOfRange) && *final(self)
                == *old(self),
    {
        let range: i128 = compute_true_range(curr_high, curr_low, self.prev_close);
        let weighted: i128 = 19 * (self.n as i128) + range;
        let n: i128 = floor_div(weighted, 20);
        if n < i64::MIN as i128 || n > i64::MAX as i128 {
            return Err(StrategyError::AmountOutOfRange);
        }
        self.n = n as i64;
        self.prev_close = curr_close;
        Ok(())
    }
}

/// A seed whose first twenty true ranges are all `range` starts the
/// estimator at exactly `range`.
pub proof fn lemma_constant_seed(candles: Seq<KlineResp>, range: int)
    requires
        forall|i: int| 0 <= i < WINDOW_SIZE ==> seed_sample(candles, i) == range,
    ensures
        seed_volatility(candles) == range,
{
    lemma_constant_sum(candles, range, WINDOW_SIZE as nat);
}

proof fn lemma_constant_sum(candles: Seq<KlineResp>, range: int, count: nat)
    requires
        forall|i: int| 0 <= i < count ==> seed_sample(candles, i) == range,
    ensures
        seed_sum(candles, count) == count * range,
    decreases count,
{
    if count > 0 {
        let fewer = (count - 1) as nat;
        lemma_constant_sum(candles, range, fewer);
        assert(seed_sample(candles, count - 1) == range);
        assert(fewer * range + range == count * range) by (nonlinear_arith)
            requires
                fewer + 1 == count,
        ;
    } else {
        assert(0 * range == 0) by (nonlinear_arith);
    }
}

} // verus!
