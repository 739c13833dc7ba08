//! Basis-point arithmetic: the platform fee taken from a payment, and the
//! split of what remains between the merchant and its forwarding target.

use vstd::prelude::*;

verus! {

/// One hundred percent, in basis points.
pub const BPS_DENOMINATOR: u32 = 10000;

/// `bps` basis points of `amount`, rounded down.
pub open spec fn bps_share(amount: int, bps: int) -> int {
    amount * bps / 10000
}

proof fn lemma_bps_share_split(a: int, b: int)
    requires
        0 <= a,
        0 <= b <= 10000,
    ensures
        a * b / 10000 == (a / 10000) * b + ((a % 10000) * b) / 10000,
        0 <= (a / 10000) * b <= a,
        0 <= (a % 10000) * b < 100000000,
        0 <= a * b / 10000 <= a,
{
    let q = a / 10000;
    let r = a % 10000;
    assert(a == 10000 * q + r && 0 <= r < 10000 && 0 <= q) by (nonlinear_arith)
        requires
            0 <= a,
            q == a / 10000,
            r == a % 10000,
    ;
    assert(a * b == 10000 * (q * b) + r * b) by (nonlinear_arith)
        requires
            a == 10000 * q + r,
    ;
    assert(0 <= r * b < 100000000) by (nonlinear_arith)
        requires
            0 <= r < 10000,
            0 <= b <= 10000,
    ;
    assert(0 <= q * b <= 10000 * q) by (nonlinear_arith)
        requires
            0 <= q,
            0 <= b <= 10000,
    ;
    assert((10000 * (q * b) + r * b) / 10000 == q * b + (r * b) / 10000) by (nonlinear_arith)
        requires
            0 <= r * b,
            0 <= q * b,
    ;
    assert(0 <= a * b / 10000 <= a) by (nonlinear_arith)
        requires
            0 <= a,
            0 <= b <= 10000,
    ;
}

/// `bps` basis points of `amount`, rounded down, computed without
/// intermediate overflow.
pub fn share_of(amount: i128, bps: u32) -> (r: i128)
    requires
        0 <= amount,
        bps <= BPS_DENOMINATOR,
    ensures
        r == bps_share(amount as int, bps as int),
        0 <= r <= amount,
{
    proof {
        lemma_bps_share_split(amount as int, bps as int);
    }
    let q = amount / 10000;
    let rem = amount % 10000;
    let b = bps as i128;
    q * b + rem * b / 10000
}

/// The fee rules: `fee_bps` basis points of each payment, raised to
/// `min_fee` and lowered to `max_fee`, paid to `treasury`; charged only
/// while `active`.
#[derive(Debug, Clone, Copy, PartialEq, Eq)]
pub struct FeeRules {
    pub fee_bps: u32,
    pub min_fee: i128,
    pub max_fee: i128,
    pub active: bool,
}

/// Whether fee rules are acceptable: the rate is at most one hundred
/// percent and the bounds are ordered and not negative.
pub open spec fn fee_rules_valid(r: FeeRules) -> bool {
    r.fee_bps <= 10000 && 0 <= r.min_fee <= r.max_fee
}

/// The fee charged on `amount`: the rate, clamped to the bounds, and never
/// more than the amount itself; nothing without active rules.
pub open spec fn fee_of(amount: int, rules: Option<FeeRules>) -> int {
    match rules {
        Some(r) => if !r.active {
            0
        } else {
            let raw = bps_share(amount, r.fee_bps as int);
            let clamped = if raw < r.min_fee {
                r.min_fee as int
            } else if raw > r.max_fee {
                r.max_fee as int
            } else {
                raw
            };
            if clamped > amount {
                amount
            } else {
                clamped
            }
        },
        None => 0,
    }
}

/// How a completed payment of `amount` is divided: the fee, the part sent
/// on to the merchant's forwarding target (`forward_bps` basis points of
/// what is left after the fee, when the merchant forwards), and the part
/// the merchant keeps.
#[derive(Debug, Clone, Copy, PartialEq, Eq)]
pub struct Split {
    pub fee: i128,
    pub forward_amount: i128,
    pub merchant_amount: i128,
}

/// The division of `amount` under `rules` and the merchant's forwarding rate.
pub open spec fn split_of(amount: int, rules: Option<FeeRules>, forward_bps: Option<u32>) -> (int, int, int) {
    let fee = fee_of(amount, rules);
    let net = amount - fee;
    let fwd = match forward_bps {
        Some(b) => bps_share(net, b as int),
        None => 0,
    };
    (fee, fwd, net - fwd)
}

/// Divides `amount` into fee, forwarded part and merchant part.
pub fn split_payment(amount: i128, rules: Option<FeeRules>, forward_bps: Option<u32>) -> (s: Split)
    requires
        0 <= amount,
        rules matches Some(r) ==> fee_rules_valid(r),
        forward_bps matches Some(b) ==> b <= 10000,
    ensures
        (s.fee as int, s.forward_amount as int, s.merchant_amount as int) == split_of(
            amount as int,
            rules,
            forward_bps,
        ),
{
    let fee: i128 = match rules {
        Some(r) => {
            if !r.active {
                0
            } else {
                let raw = share_of(amount, r.fee_bps);
                let clamped = if raw < r.min_fee {
                    r.min_fee
                } else if raw > r.max_fee {
                    r.max_fee
                } else {
                    raw
                };
                if clamped > amount {
                    amount
                } else {
                    clamped
                }
            }
        },
        None => 0,
    };
    let net = amount - fee;
    let fwd: i128 = match forward_bps {
        Some(b) => share_of(net, b),
        None => 0,
    };
    Split { fee, forward_amount: fwd, merchant_amount: net - fwd }
}

/// The three parts of a division are never negative and add up to the
/// payment, and the forwarded part is at most what is left after the fee.
pub proof fn law_split_conserves(amount: int, rules: Option<FeeRules>, forward_bps: Option<u32>)
    requires
        0 <= amount,
        rules matches Some(r) ==> fee_rules_valid(r),
        forward_bps matches Some(b) ==> b <= 10000,
    ensures
        ({
            let (fee, fwd, kept) = split_of(amount, rules, forward_bps);
            &&& 0 <= fee <= amount
            &&& 0 <= fwd <= amount - fee
            &&& 0 <= kept
            &&& fee + fwd + kept == amount
        }),
{
    let fee = fee_of(amount, rules);
    if let Some(r) = rules {
        if r.active {
            lemma_bps_share_split(amount, r.fee_bps as int);
        }
    }
    if let Some(b) = forward_bps {
        lemma_bps_share_split(amount - fee, b as int);
    }
}

/// Forwarding the whole remainder leaves the merchant nothing, and a
/// merchant without forwarding keeps all of it.
pub proof fn law_split_forward_extremes(amount: int, rules: Option<FeeRules>)
    requires
        0 <= amount,
        rules matches Some(r) ==> fee_rules_valid(r),
    ensures
        split_of(amount, rules, Some(10000u32)).2 == 0,
        split_of(amount, rules, None).2 == amount - fee_of(amount, rules),
        split_of(amount, rules, None).1 == 0,
{
    let net = amount - fee_of(amount, rules);
    assert(net * 10000 / 10000 == net) by (nonlinear_arith);
}

/// The fee is `fee_bps` basis points of the amount, rounded down, for every
/// rate, whenever the rules are active and their bounds do not bind; the
/// merchant without forwarding keeps the rest.
pub proof fn law_fee_is_rate(amount: int, r: FeeRules)
    requires
        0 <= amount,
        fee_rules_valid(r),
        r.active,
        r.min_fee <= amount * (r.fee_bps as int) / 10000 <= r.max_fee,
    ensures
        fee_of(amount, Some(r)) == amount * (r.fee_bps as int) / 10000,
        split_of(amount, Some(r), None) == (
            amount * (r.fee_bps as int) / 10000,
            0int,
            amount - amount * (r.fee_bps as int) / 10000,
        ),
{
    lemma_bps_share_split(amount, r.fee_bps as int);
}

/// Where the rate gives less than the minimum, the minimum is charged (but
/// never more than the amount); where it gives more than the maximum, the
/// maximum is charged; inactive or absent rules charge nothing.
pub proof fn law_fee_bounds(amount: int, r: FeeRules)
    requires
        0 <= amount,
        fee_rules_valid(r),
    ensures
        r.active && amount * (r.fee_bps as int) / 10000 < r.min_fee ==> fee_of(amount, Some(r)) == if r.min_fee
            <= amount {
            r.min_fee as int
        } else {
            amount
        },
        r.active && amount * (r.fee_bps as int) / 10000 > r.max_fee ==> fee_of(amount, Some(r))
            == r.max_fee,
        !r.active ==> fee_of(amount, Some(r)) == 0,
        fee_of(amount, None) == 0,
{
    lemma_bps_share_split(amount, r.fee_bps as int);
}

/// The forwarded part is `forward_bps` basis points, rounded down, of what
/// is left after the fee; the merchant keeps the rest of that remainder.
pub proof fn law_forward_is_rate(amount: int, rules: Option<FeeRules>, b: u32)
    requires
        0 <= amount,
        rules matches Some(r) ==> fee_rules_valid(r),
        b <= 10000,
    ensures
        split_of(amount, rules, Some(b)).0 == fee_of(amount, rules),
        split_of(amount, rules, Some(b)).1 == (amount - fee_of(amount, rules)) * (b as int) / 10000,
        split_of(amount, rules, Some(b)).2 == amount - fee_of(amount, rules) - (amount - fee_of(
            amount,
            rules,
        )) * (b as int) / 10000,
        split_of(amount, rules, None) == (fee_of(amount, rules), 0int, amount - fee_of(amount, rules)),
{
}

} // verus!
