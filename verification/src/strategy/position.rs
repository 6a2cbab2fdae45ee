use crate::error::StrategyError;
use crate::fixed::{floor_div, mul_floor, representable, wide_mul, SCALE};
use vstd::prelude::*;

verus! {

/// Greatest number of open entries on one side.
pub const MAX_ENTRIES: usize = 4;

/// One open entry: its size in quote currency and the price it was opened at.
#[derive(Clone, Copy, Debug, PartialEq, Eq, Structural)]
pub struct PositionEntry {
    pub unit_size: i64,
    pub entry_price: i64,
}

/// The side of the book that an entry stands on.
#[derive(Clone, Copy, Debug, PartialEq, Eq, Structural)]
pub enum PositionSide {
    Long,
    Short,
}

/// Sum of the unit sizes of some entries.
pub open spec fn total_units(entries: Seq<PositionEntry>) -> int
    decreases entries.len(),
{
    if entries.len() == 0 {
        0
    } else {
        total_units(entries.drop_last()) + entries.last().unit_size
    }
}

/// What leaving a side is worth at `price`: the price times the sum of the
/// unit sizes.
pub open spec fn exit_notional(price: int, entries: Seq<PositionEntry>) -> int {
    mul_floor(price, total_units(entries))
}

/// Unrealized result of the short entries at `price`, each entry rounded
/// down on its own.
pub open spec fn short_profit(price: int, shorts: Seq<PositionEntry>) -> int
    decreases shorts.len(),
{
    if shorts.len() == 0 {
        0
    } else {
        short_profit(price, shorts.drop_last()) + mul_floor(
            price - shorts.last().entry_price,
            shorts.last().unit_size as int,
        )
    }
}

/// Equity in quote currency at `price`. The long entries add nothing of
/// their own: what they bought is part of the base balance.
pub open spec fn equity(price: int, usdt_balance: int, btc_balance: int, shorts: Seq<PositionEntry>) -> int {
    mul_floor(price, btc_balance) + usdt_balance + short_profit(price, shorts)
}

/// The open entries of both sides, each side in the order of entry.
pub struct PositionManager {
    long: Vec<PositionEntry>,
    short: Vec<PositionEntry>,
}

impl PositionManager {
    /// The entries of one side, oldest first.
    pub closed spec fn entries(&self, side: PositionSide) -> Seq<PositionEntry> {
        match side {
            PositionSide::Long => self.long@,
            PositionSide::Short => self.short@,
        }
    }

    /// No side holds more than the greatest number of entries.
    pub open spec fn wf(&self) -> bool {
        &&& self.entries(PositionSide::Long).len() <= MAX_ENTRIES
        &&& self.entries(PositionSide::Short).len() <= MAX_ENTRIES
    }

    /// A book without entries.
    pub fn new() -> (book: Self)
        ensures
            book.wf(),
            book.entries(PositionSide::Long) == Seq::<PositionEntry>::empty(),
            book.entries(PositionSide::Short) == Seq::<PositionEntry>::empty(),
    {
        PositionManager { long: Vec::new(), short: Vec::new() }
    }

    /// Number of entries on a side.
    pub fn len(&self, side: PositionSide) -> (n: usize)
        ensures
            n == self.entries(side).len(),
    {
        match side {
            PositionSide::Long => self.long.len(),
            PositionSide::Short => self.short.len(),
        }
    }

    /// The entry of a side at `index`, counted from the oldest.
    pub fn entry(&self, side: PositionSide, index: usize) -> (found: Option<PositionEntry>)
        ensures
            found == if index < self.entries(side).len() {
                Some(self.entries(side)[index as int])
            } else {
                None
            },
    {
        match side {
            PositionSide::Long => if index < self.long.len() {
                Some(self.long[index])
            } else {
                None
            },
            PositionSide::Short => if index < self.short.len() {
                Some(self.short[index])
            } else {
                None
            },
        }
    }

    /// The entry that a side took last.
    pub fn last_entry(&self, side: PositionSide) -> (found: Option<PositionEntry>)
        ensures
            found == if self.entries(side).len() > 0 {
                Some(self.entries(side).last())
            } else {
                None
            },
    {
        let n: usize = self.len(side);
        if n == 0 {
            None
        } else {
            self.entry(side, n - 1)
        }
    }

    /// Appends an entry to a side, unless the side is full.
    pub fn add(&mut self, side: PositionSide, unit_size: i64, entry_price: i64) -> (done: Result<
        (),
        StrategyError,
    >)
        requires
            old(self).wf(),
        ensures
            final(self).wf(),
            old(self).entries(side).len() >= MAX_ENTRIES ==> done == Err::<(), StrategyError>(
                StrategyError::PositionLimitExceeded,
            ) && *final(self) == *old(self),
            old(self).entries(side).len() < MAX_ENTRIES ==> done is Ok && final(self).entries(side)
                == old(self).entries(side).push(PositionEntry { unit_size, entry_price }),
            forall|other: PositionSide|
                other != side ==> final(self).entries(other) == old(self).entries(other),
    {
        let entry = PositionEntry { unit_size, entry_price };
        match side {
            PositionSide::Long => {
                if self.long.len() >= MAX_ENTRIES {
                    return Err(StrategyError::PositionLimitExceeded);
                }
                self.long.push(entry);
            },
            PositionSide::Short => {
                if self.short.len() >= MAX_ENTRIES {
                    return Err(StrategyError::PositionLimitExceeded);
                }
                self.short.push(entry);
            },
        }
        Ok(())
    }

    /// What leaving a side would be worth at `current_price`, without
    /// leaving it.
    pub fn notional(&self, side: PositionSide, current_price: i64) -> (worth: Result<
        i64,
        StrategyError,
    >)
        requires
            self.wf(),
        ensures
            worth == if representable(exit_notional(current_price as int, self.entries(side))) {
                Ok::<i64, StrategyError>(
                    exit_notional(current_price as int, self.entries(side)) as i64,
                )
            } else {
                Err::<i64, StrategyError>(StrategyError::AmountOutOfRange)
            },
    {
        let n: usize = self.len(side);
        let mut units: i128 = 0;
        let mut i: usize = 0;
        while i < n
            invariant
                0 <= i <= n,
                n == self.entries(side).len(),
                n <= MAX_ENTRIES,
                units == total_units(self.entries(side).take(i as int)),
                -0x8000_0000_0000_0000 * i <= units <= 0x8000_0000_0000_0000 * i,
            decreases n - i,
        {
            let entry: PositionEntry = self.entry(side, i).unwrap();
            proof {
                let upto = self.entries(side).take(i + 1);
                assert(upto.drop_last() == self.entries(side).take(i as int));
                assert(upto.last() == entry);
            }
            units = units + entry.unit_size as i128;
            i = i + 1;
        }
        assert(self.entries(side).take(n as int) == self.entries(side));
        let ghost exact = exit_notional(current_price as int, self.entries(side));
        match units.checked_mul(current_price as i128) {
            None => {
                assert(!representable(exact)) by {
                    assert(current_price * units == units * current_price) by (nonlinear_arith);
                }
                Err(StrategyError::AmountOutOfRange)
            },
            Some(product) => {
                assert(product == current_price * units) by (nonlinear_arith)
                    requires
                        product == units * current_price,
                ;
                let worth: i128 = floor_div(product, SCALE as i128);
                if worth < i64::MIN as i128 || worth > i64::MAX as i128 {
                    Err(StrategyError::AmountOutOfRange)
                } else {
                    Ok(worth as i64)
                }
            },
        }
    }

    /// Leaves a side: its entries go, and what they are worth at
    /// `current_price` is returned. An empty side is worth nothing. When the
    /// worth cannot be stored the book is left as it was.
    pub fn exit(&mut self, side: PositionSide, current_price: i64) -> (worth: Result<
        i64,
        StrategyError,
    >)
        requires
            old(self).wf(),
        ensures
            final(self).wf(),
            worth == if representable(
                exit_notional(current_price as int, old(self).entries(side)),
            ) {
                Ok::<i64, StrategyError>(
                    exit_notional(current_price as int, old(self).entries(side)) as i64,
                )
            } else {
                Err::<i64, StrategyError>(StrategyError::AmountOutOfRange)
            },
            worth is Ok ==> final(self).entries(side) == Seq::<PositionEntry>::empty(),
            worth is Err ==> *final(self) == *old(self),
            forall|other: PositionSide|
                other != side ==> final(self).entries(other) == old(self).entries(other),
    {
        let worth = self.notional(side, current_price);
        if worth.is_ok() {
            match side {
                PositionSide::Long => {
                    self.long = Vec::new();
                },
                PositionSide::Short => {
                    self.short = Vec::new();
                },
            }
        }
        worth
    }

    /// Equity in quote currency at `current_price`: the base balance at that
    /// price, the quote balance, and the unrealized result of the short
    /// entries. The long entries are left out on purpose: what they bought
    /// is part of the base balance.
    pub fn mark_to_market(&self, current_price: i64, usdt_balance: i64, btc_balance: i64) -> (total:
        Result<i64, StrategyError>)
        requires
            self.wf(),
        ensures
            total == if representable(
                equity(
                    current_price as int,
                    usdt_balance as int,
                    btc_balance as int,
                    self.entries(PositionSide::Short),
                ),
            ) {
                Ok::<i64, StrategyError>(
                    equity(
                        current_price as int,
                        usdt_balance as int,
                        btc_balance as int,
                        self.entries(PositionSide::Short),
                    ) as i64,
                )
            } else {
                Err::<i64, StrategyError>(StrategyError::AmountOutOfRange)
            },
    {
        let n: usize = self.short.len();
        let mut profit: i128 = 0;
        let mut i: usize = 0;
        while i < n
            invariant
                0 <= i <= n,
                n == self.short@.len(),
                n <= MAX_ENTRIES,
                profit == short_profit(current_price as int, self.short@.take(i as int)),
                -0x1_0000_0000_0000_0000_0000_0000_0000 * i <= profit
                    <= 0x1_0000_0000_0000_0000_0000_0000_0000 * i,
            decreases n - i,
        {
            let entry: PositionEntry = self.short[i];
            proof {
                let upto = self.short@.take(i + 1);
                assert(upto.drop_last() == self.short@.take(i as int));
                assert(upto.last() == entry);
            }
            let gap: i128 = current_price as i128 - entry.entry_price as i128;
            assert(-0x8000_0000_0000_0000_0000_0000_0000_0000 < gap * entry.unit_size
                < 0x8000_0000_0000_0000_0000_0000_0000_0000) by (nonlinear_arith)
                requires
                    -0x1_0000_0000_0000_0000 < gap < 0x1_0000_0000_0000_0000,
                    -0x8000_0000_0000_0000 <= entry.unit_size <= 0x7fff_ffff_ffff_ffff,
            ;
            let product: i128 = gap * (entry.unit_size as i128);
            profit = profit + floor_div(product, SCALE as i128);
            i = i + 1;
        }
        assert(self.short@.take(n as int) == self.short@);
        let holdings: i128 = wide_mul(current_price, btc_balance);
        let total: i128 = holdings + usdt_balance as i128 + profit;
        if total < i64::MIN as i128 || total > i64::MAX as i128 {
            Err(StrategyError::AmountOutOfRange)
        } else {
            Ok(total as i64)
        }
    }
}

/// A book without short entries is worth the base balance at the price
/// plus the quote balance.
pub proof fn lemma_equity_without_shorts(price: int, usdt_balance: int, btc_balance: int)
    ensures
        equity(price, usdt_balance, btc_balance, Seq::<PositionEntry>::empty()) == mul_floor(
            price,
            btc_balance,
        ) + usdt_balance,
{
}

/// An empty side is worth nothing at any price.
pub proof fn lemma_empty_side_is_worth_nothing(price: int)
    ensures
        exit_notional(price, Seq::<PositionEntry>::empty()) == 0,
{
    assert(price * 0 == 0) by (nonlinear_arith);
}

} // verus!
