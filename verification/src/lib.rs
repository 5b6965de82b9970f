use vstd::prelude::*;

pub mod boostagram;
pub mod jsontext;
pub mod wire;

verus! {

use vstd::arithmetic::div_mod::{
    lemma_fundamental_div_mod, lemma_div_multiples_vanish, lemma_div_by_multiple,
    lemma_div_is_ordered, lemma_div_pos_is_pos, lemma_multiply_divide_le,
    lemma_hoist_over_denominator, lemma_div_denominator,
};
use vstd::arithmetic::mul::{lemma_mul_upper_bound, lemma_mul_inequality, lemma_mul_nonnegative};

/// The errors this library reports.
#[derive(Debug)]
pub enum Error {
    /// The structured-text form of an envelope did not parse.
    DeserializingError(String),
    /// The compact wire form was not a valid text-safe encoding.
    B64DecodeError(String),
    /// The builder's anchor-field invariant was violated at `build`.
    BuildingError(String),
    /// A split request's fee percentages summed to more than 100.
    ParameterInvalid(String),
}

/// Sum of the percentages of the fee entries of a split request.
pub open spec fn fee_percent_sum(entries: Seq<(u64, bool)>) -> int
    decreases entries.len(),
{
    if entries.len() == 0 {
        0
    } else {
        fee_percent_sum(entries.drop_last()) + if entries.last().1 {
            entries.last().0 as int
        } else {
            0
        }
    }
}

/// Sum of the percentages of the share (non-fee) entries of a split request.
pub open spec fn share_percent_sum(entries: Seq<(u64, bool)>) -> int
    decreases entries.len(),
{
    if entries.len() == 0 {
        0
    } else {
        share_percent_sum(entries.drop_last()) + if !entries.last().1 {
            entries.last().0 as int
        } else {
            0
        }
    }
}

/// The payout owed to one entry: a fee entry takes its percentage of the whole
/// amount; a share entry takes its percentage of the share pool, normalized by
/// the sum of all share percentages, or nothing when no shares are defined.
pub open spec fn split_payout(entry: (u64, bool), amt: u64, fee_sum: int, share_sum: int) -> int {
    if entry.1 {
        (amt as int * entry.0 as int) / 100
    } else if share_sum == 0 {
        0
    } else {
        (entry.0 as int * (100 - fee_sum) * (amt as int)) / (share_sum * 100)
    }
}

/// Sum of the payouts of all entries.
pub open spec fn payout_total(entries: Seq<(u64, bool)>, amt: u64, fee_sum: int, share_sum: int) -> int
    decreases entries.len(),
{
    if entries.len() == 0 {
        0
    } else {
        payout_total(entries.drop_last(), amt, fee_sum, share_sum) + split_payout(
            entries.last(),
            amt,
            fee_sum,
            share_sum,
        )
    }
}

/// Sum of a sequence of payouts.
pub open spec fn sum_u64(s: Seq<u64>) -> int
    decreases s.len(),
{
    if s.len() == 0 {
        0
    } else {
        sum_u64(s.drop_last()) + s.last() as int
    }
}

pub proof fn lemma_fee_percent_sum_nonneg(entries: Seq<(u64, bool)>)
    ensures
        fee_percent_sum(entries) >= 0,
    decreases entries.len(),
{
    if entries.len() > 0 {
        lemma_fee_percent_sum_nonneg(entries.drop_last());
    }
}

pub proof fn lemma_share_percent_sum_nonneg(entries: Seq<(u64, bool)>)
    ensures
        share_percent_sum(entries) >= 0,
    decreases entries.len(),
{
    if entries.len() > 0 {
        lemma_share_percent_sum_nonneg(entries.drop_last());
    }
}

/// A fee entry's percentage never exceeds the sum of all fee percentages.
proof fn lemma_fee_entry_le_sum(entries: Seq<(u64, bool)>, i: int)
    requires
        0 <= i < entries.len(),
        entries[i].1,
    ensures
        entries[i].0 as int <= fee_percent_sum(entries),
    decreases entries.len(),
{
    lemma_fee_percent_sum_nonneg(entries.drop_last());
    if i == entries.len() - 1 {
    } else {
        lemma_fee_entry_le_sum(entries.drop_last(), i);
    }
}

/// A share entry's percentage never exceeds the sum of all share percentages.
proof fn lemma_share_entry_le_sum(entries: Seq<(u64, bool)>, i: int)
    requires
        0 <= i < entries.len(),
        !entries[i].1,
    ensures
        entries[i].0 as int <= share_percent_sum(entries),
    decreases entries.len(),
{
    lemma_share_percent_sum_nonneg(entries.drop_last());
    if i == entries.len() - 1 {
    } else {
        lemma_share_entry_le_sum(entries.drop_last(), i);
    }
}

/// Integer division rounds down, so dividing two summands separately never
/// yields more than dividing their sum.
proof fn lemma_div_sum_le(a: int, b: int, d: int)
    requires
        0 <= a,
        0 <= b,
        0 < d,
    ensures
        a / d + b / d <= (a + b) / d,
{
    lemma_fundamental_div_mod(a, d);
    lemma_fundamental_div_mod(b, d);
    let q = a / d + b / d;
    let r = a % d + b % d;
    assert(a + b == r + q * d) by (nonlinear_arith)
        requires
            a == d * (a / d) + a % d,
            b == d * (b / d) + b % d,
            q == a / d + b / d,
            r == a % d + b % d,
    ;
    lemma_hoist_over_denominator(r, q, d as nat);
    lemma_div_pos_is_pos(r, d);
}

/// Every prefix of the payouts is bounded by its entries' proportional claim on
/// the amount: the fee part by `amt * fees / 100`, the share part by its slice
/// of the remaining pool.
proof fn lemma_payout_total_bound(entries: Seq<(u64, bool)>, amt: u64, fee_all: int, share_all: int)
    requires
        0 <= fee_all <= 100,
        0 <= share_all,
    ensures
        payout_total(entries, amt, fee_all, share_all) <= (amt as int * fee_percent_sum(entries))
            / 100 + if share_all == 0 {
            0int
        } else {
            (share_percent_sum(entries) * (100 - fee_all) * (amt as int)) / (share_all * 100)
        },
    decreases entries.len(),
{
    let rest = 100 - fee_all;
    if entries.len() == 0 {
        if share_all != 0 {
            assert(share_percent_sum(entries) * rest * (amt as int) == 0) by (nonlinear_arith)
                requires
                    share_percent_sum(entries) == 0,
            ;
            assert(share_all * 100 > 0) by (nonlinear_arith)
                requires
                    share_all > 0,
            ;
            lemma_div_pos_is_pos(0, share_all * 100);
            lemma_div_is_ordered(0, 0, share_all * 100);
        }
    } else {
        let t = entries.drop_last();
        let e = entries.last();
        lemma_payout_total_bound(t, amt, fee_all, share_all);
        lemma_fee_percent_sum_nonneg(t);
        lemma_share_percent_sum_nonneg(t);
        if e.1 {
            lemma_mul_nonnegative(amt as int, fee_percent_sum(t));
            lemma_mul_nonnegative(amt as int, e.0 as int);
            lemma_div_sum_le(amt as int * fee_percent_sum(t), amt as int * e.0 as int, 100);
            assert(amt as int * fee_percent_sum(t) + amt as int * e.0 as int == amt as int
                * fee_percent_sum(entries)) by (nonlinear_arith)
                requires
                    fee_percent_sum(entries) == fee_percent_sum(t) + e.0 as int,
            ;
        } else {
            if share_all != 0 {
                let d = share_all * 100;
                assert(d > 0) by (nonlinear_arith)
                    requires
                        share_all > 0,
                        d == share_all * 100,
                ;
                lemma_mul_nonnegative(share_percent_sum(t) * rest, amt as int);
                lemma_mul_nonnegative(share_percent_sum(t), rest);
                lemma_mul_nonnegative(e.0 as int * rest, amt as int);
                lemma_mul_nonnegative(e.0 as int, rest);
                lemma_div_sum_le(
                    share_percent_sum(t) * rest * (amt as int),
                    e.0 as int * rest * (amt as int),
                    d,
                );
                assert(share_percent_sum(t) * rest * (amt as int) + e.0 as int * rest * (amt as int)
                    == share_percent_sum(entries) * rest * (amt as int)) by (nonlinear_arith)
                    requires
                        share_percent_sum(entries) == share_percent_sum(t) + e.0 as int,
                ;
            }
        }
    }
}

/// The split calculator never allocates more than it was given: when the fee
/// percentages pass the 100 check, the payouts it owes sum to at most the
/// total amount.
pub proof fn lemma_split_payouts_bounded(entries: Seq<(u64, bool)>, amt: u64, payouts: Seq<u64>)
    requires
        fee_percent_sum(entries) <= 100,
        payouts.len() == entries.len(),
        forall|i: int|
            0 <= i < entries.len() ==> payouts[i] as int == split_payout(
                entries[i],
                amt,
                fee_percent_sum(entries),
                share_percent_sum(entries),
            ),
    ensures
        sum_u64(payouts) <= amt,
{
    let fee_all = fee_percent_sum(entries);
    let share_all = share_percent_sum(entries);
    let rest = 100 - fee_all;
    lemma_fee_percent_sum_nonneg(entries);
    lemma_share_percent_sum_nonneg(entries);
    lemma_sum_matches_payout_total(entries, amt, fee_all, share_all, payouts);
    lemma_payout_total_bound(entries, amt, fee_all, share_all);
    let fee_part = (amt as int * fee_all) / 100;
    lemma_mul_nonnegative(amt as int, fee_all);
    if share_all == 0 {
        lemma_mul_inequality(fee_all, 100, amt as int);
        lemma_div_is_ordered(amt as int * fee_all, amt as int * 100, 100);
        lemma_div_by_multiple(amt as int, 100);
        assert(amt as int * fee_all <= 100 * (amt as int)) by (nonlinear_arith)
            requires
                0 <= fee_all <= 100,
                0 <= amt,
        ;
        assert((100 * (amt as int)) / 100 == amt as int) by {
            lemma_div_multiples_vanish(amt as int, 100);
        }
        lemma_div_is_ordered(amt as int * fee_all, 100 * (amt as int), 100);
    } else {
        let share_part = (share_all * rest * (amt as int)) / (share_all * 100);
        assert(share_all * rest * (amt as int) == share_all * (rest * (amt as int)))
            by (nonlinear_arith);
        assert(share_all * 100 > 0) by (nonlinear_arith)
            requires
                share_all > 0,
        ;
        lemma_mul_nonnegative(rest, amt as int);
        lemma_mul_nonnegative(share_all, rest * (amt as int));
        lemma_div_denominator(share_all * (rest * (amt as int)), share_all, 100);
        lemma_div_multiples_vanish(rest * (amt as int), share_all);
        assert(share_part == (rest * (amt as int)) / 100);
        lemma_div_sum_le(amt as int * fee_all, rest * (amt as int), 100);
        assert(amt as int * fee_all + rest * (amt as int) == 100 * (amt as int))
            by (nonlinear_arith)
            requires
                rest == 100 - fee_all,
        ;
        assert((100 * (amt as int)) / 100 == amt as int) by {
            lemma_div_multiples_vanish(amt as int, 100);
        }
    }
}

/// The sum of a payout vector that matches the per-entry payout formula equals
/// the formula's total.
proof fn lemma_sum_matches_payout_total(
    entries: Seq<(u64, bool)>,
    amt: u64,
    fee_all: int,
    share_all: int,
    payouts: Seq<u64>,
)
    requires
        payouts.len() == entries.len(),
        forall|i: int|
            0 <= i < entries.len() ==> payouts[i] as int == split_payout(
                entries[i],
                amt,
                fee_all,
                share_all,
            ),
    ensures
        sum_u64(payouts) == payout_total(entries, amt, fee_all, share_all),
    decreases entries.len(),
{
    if entries.len() > 0 {
        assert(payouts.drop_last().len() == entries.drop_last().len());
        lemma_sum_matches_payout_total(entries.drop_last(), amt, fee_all, share_all, payouts.drop_last());
    }
}

/// Distributes `amt` across the entries of a split request: a fee entry gets
/// its percentage of the whole amount, a share entry its percentage of what
/// the fees leave, normalized by the sum of all share percentages. Rejects a
/// request whose fee percentages sum to more than 100. The arithmetic is done
/// in 128 bits, so the share percentages, times 100, times the amount must fit
/// that width.
pub fn calculate_splits(splits: Vec<(u64, bool)>, amt: u64) -> (r: Result<Vec<u64>, Error>)
    requires
        share_percent_sum(splits@) * 100 * (amt as int) <= u128::MAX as int,
    ensures
        r is Ok <==> fee_percent_sum(splits@) <= 100,
        r matches Ok(v) ==> v@.len() == splits@.len() && forall|i: int|
            0 <= i < splits@.len() ==> v@[i] as int == split_payout(
                splits@[i],
                amt,
                fee_percent_sum(splits@),
                share_percent_sum(splits@),
            ),
        r matches Err(e) ==> e matches Error::ParameterInvalid(_),
{
    let n = splits.len();
    let mut fee_acc: u128 = 0;
    let mut share_acc: u128 = 0;
    let mut i: usize = 0;
    while i < n
        invariant
            n == splits@.len(),
            0 <= i <= n,
            fee_acc as int == fee_percent_sum(splits@.take(i as int)),
            share_acc as int == share_percent_sum(splits@.take(i as int)),
            fee_acc as int <= i as int * (u64::MAX as int),
            share_acc as int <= i as int * (u64::MAX as int),
        decreases n - i,
    {
        let (p, is_fee) = splits[i];
        proof {
            assert(splits@.take(i as int + 1).drop_last() =~= splits@.take(i as int));
            assert(splits@.take(i as int + 1).last() == splits@[i as int]);
        }
        if is_fee {
            fee_acc = fee_acc + p as u128;
        } else {
            share_acc = share_acc + p as u128;
        }
        i = i + 1;
    }
    proof {
        assert(splits@.take(n as int) =~= splits@);
    }
    if fee_acc > 100 {
        return Err(Error::ParameterInvalid("Fee sum greater than 100".to_owned()));
    }
    let rest: u128 = 100 - fee_acc;
    let ghost fee_all = fee_percent_sum(splits@);
    let ghost share_all = share_percent_sum(splits@);
    let mut out: Vec<u64> = Vec::new();
    let mut j: usize = 0;
    while j < n
        invariant
            n == splits@.len(),
            0 <= j <= n,
            fee_acc as int == fee_all,
            share_acc as int == share_all,
            fee_all == fee_percent_sum(splits@),
            share_all == share_percent_sum(splits@),
            0 <= fee_all <= 100,
            rest as int == 100 - fee_all,
            share_all * 100 * (amt as int) <= u128::MAX as int,
            out@.len() == j,
            forall|k: int|
                0 <= k < j ==> out@[k] as int == split_payout(splits@[k], amt, fee_all, share_all),
        decreases n - j,
    {
        let (p, is_fee) = splits[j];
        if is_fee {
            proof {
                lemma_fee_entry_le_sum(splits@, j as int);
                lemma_mul_upper_bound(amt as int, u64::MAX as int, p as int, 100);
                lemma_mul_inequality(p as int, 100, amt as int);
                assert(amt as int * p as int <= amt as int * 100) by (nonlinear_arith)
                    requires
                        p <= 100,
                        0 <= amt,
                ;
                lemma_div_is_ordered(amt as int * p as int, amt as int * 100, 100);
                assert((amt as int * 100) / 100 == amt as int) by {
                    lemma_div_by_multiple(amt as int, 100);
                }
            }
            let pay: u128 = (amt as u128) * (p as u128) / 100;
            out.push(pay as u64);
        } else {
            if share_acc == 0 {
                out.push(0);
            } else if amt == 0 {
                proof {
                    assert(split_payout(splits@[j as int], amt, fee_all, share_all) == 0) by {
                        assert(p as int * (100 - fee_all) * (amt as int) == 0) by (nonlinear_arith)
                            requires
                                amt == 0,
                        ;
                        assert(share_all * 100 > 0) by (nonlinear_arith)
                            requires
                                share_all > 0,
                        ;
                        lemma_div_pos_is_pos(0, share_all * 100);
                        lemma_div_is_ordered(0, 0, share_all * 100);
                    }
                }
                out.push(0);
            } else {
                proof {
                    lemma_share_entry_le_sum(splits@, j as int);
                    assert(share_all * 100 > 0) by (nonlinear_arith)
                        requires
                            share_all > 0,
                    ;
                    // numerator fits: p * rest * amt <= share_all * 100 * amt
                    assert(p as int * (rest as int) * (amt as int) <= share_all * 100 * (amt as int))
                        by (nonlinear_arith)
                        requires
                            0 <= p as int <= share_all,
                            0 <= rest as int <= 100,
                            0 < amt,
                    ;
                    // denominator fits: share_all * 100 <= share_all * 100 * amt
                    assert(share_all * 100 <= share_all * 100 * (amt as int)) by (nonlinear_arith)
                        requires
                            share_all > 0,
                            amt >= 1,
                    ;
                    // the quotient is at most amt
                    assert(p as int * (rest as int) <= share_all * 100) by (nonlinear_arith)
                        requires
                            0 <= p as int <= share_all,
                            0 <= rest as int <= 100,
                    ;
                    lemma_mul_inequality(p as int * (rest as int), share_all * 100, amt as int);
                    assert(p as int * (rest as int) * (amt as int) <= (share_all * 100) * (amt as int));
                    lemma_mul_nonnegative(p as int, rest as int);
                    lemma_mul_nonnegative(p as int * (rest as int), amt as int);
                    lemma_multiply_divide_le(
                        p as int * (rest as int) * (amt as int),
                        share_all * 100,
                        amt as int,
                    );
                }
            let pay: u128 = (p as u128) * rest * (amt as u128) / (share_acc * 100);
                out.push(pay as u64);
            }
        }
        j = j + 1;
    }
    Ok(out)
}

} // verus!
