use vstd::prelude::*;

verus! {

/// The fixed-point scale of amounts and of the fee rate: 10,000,000 smallest
/// units make one unit of the asset, and a rate of 10,000,000 is 100%.
pub const SCALE: u128 = 10_000_000;

/// The smallest stake a prediction may carry: one unit of the asset.
pub const MIN_DEPOSIT: u128 = 10_000_000;

/// The fee taken from the losing side's pool: `loser × rate / SCALE`, rounded up.
pub open spec fn fee_of(loser: int, rate: int) -> int {
    if (loser * rate) % (SCALE as int) == 0 {
        (loser * rate) / (SCALE as int)
    } else {
        (loser * rate) / (SCALE as int) + 1
    }
}

/// The host's half of the fee, rounded down.
pub open spec fn host_share_of(fee: int) -> int {
    fee / 2
}

/// The protocol's part of the fee: the rest, odd unit included.
pub open spec fn protocol_share_of(fee: int) -> int {
    fee - fee / 2
}

/// A winner's proportion of the winning side's pool, in fixed point.
pub open spec fn participation_of(deposit: int, winning_total: int) -> int {
    (deposit * (SCALE as int)) / winning_total
}

/// A winner's share of the prize: `prize × participation / SCALE`, rounded down.
pub open spec fn reward_of(deposit: int, winning_total: int, prize: int) -> int {
    (prize * participation_of(deposit, winning_total)) / (SCALE as int)
}

/// The fee on a losing pool of `loser` at `rate`.
pub fn compute_fee(loser: u128, rate: u128) -> (r: u128)
    requires
        loser * rate <= u128::MAX,
    ensures
        r == fee_of(loser as int, rate as int),
{
    let product: u128 = loser * rate;
    let quotient: u128 = product / SCALE;
    if product % SCALE == 0 {
        quotient
    } else {
        quotient + 1
    }
}

/// Splits a fee into the host's share and the protocol's share.
pub fn split_fee(fee: u128) -> (r: (u128, u128))
    ensures
        r.0 == host_share_of(fee as int),
        r.1 == protocol_share_of(fee as int),
{
    let host: u128 = fee / 2;
    (host, fee - host)
}

/// The reward of a winner who staked `deposit` out of a winning pool of
/// `winning_total`, when the winners share `prize`.
pub fn compute_reward(deposit: u128, winning_total: u128, prize: u128) -> (r: u128)
    requires
        0 < winning_total,
        deposit * SCALE <= u128::MAX,
        prize * participation_of(deposit as int, winning_total as int) <= u128::MAX,
    ensures
        r == reward_of(deposit as int, winning_total as int, prize as int),
{
    let participation: u128 = (deposit * SCALE) / winning_total;
    (prize * participation) / SCALE
}

/// The two shares of a fee add up to the fee.
pub proof fn lemma_fee_split(fee: int)
    requires
        0 <= fee,
    ensures
        host_share_of(fee) + protocol_share_of(fee) == fee,
        0 <= host_share_of(fee) <= protocol_share_of(fee),
{
}

/// At a rate of at most 100% the fee never exceeds the losing pool, so the
/// fee and the prize `loser - fee` together are exactly that pool.
pub proof fn lemma_fee_within_pool(loser: int, rate: int)
    requires
        0 <= loser,
        0 <= rate <= SCALE as int,
    ensures
        0 <= fee_of(loser, rate) <= loser,
        fee_of(loser, rate) + (loser - fee_of(loser, rate)) == loser,
{
    let s = SCALE as int;
    assert(0 <= loser * rate <= loser * s) by (nonlinear_arith)
        requires
            0 <= loser,
            0 <= rate <= s,
    ;
    assert((loser * s) / s == loser) by (nonlinear_arith)
        requires
            s > 0,
    ;
    assert((loser * rate) / s <= loser) by (nonlinear_arith)
        requires
            0 <= loser * rate <= loser * s,
            s > 0,
            (loser * s) / s == loser,
    ;
    if (loser * rate) % s != 0 {
        assert((loser * rate) / s < loser) by (nonlinear_arith)
            requires
                0 <= loser * rate <= loser * s,
                s > 0,
                (loser * rate) % s != 0,
                0 <= loser,
        ;
    }
}

/// The total stake of a list of winners.
pub open spec fn total_of(deposits: Seq<u128>) -> int
    decreases deposits.len(),
{
    if deposits.len() == 0 {
        0
    } else {
        total_of(deposits.drop_last()) + deposits.last() as int
    }
}

/// What a list of winners withdraw in all: each their stake and their reward.
pub open spec fn withdrawals_of(deposits: Seq<u128>, winning_total: int, prize: int) -> int
    decreases deposits.len(),
{
    if deposits.len() == 0 {
        0
    } else {
        withdrawals_of(deposits.drop_last(), winning_total, prize) + deposits.last() as int
            + reward_of(deposits.last() as int, winning_total, prize)
    }
}

proof fn lemma_reward_scaled(d: int, t: int, p: int)
    requires
        0 <= d,
        0 < t,
        0 <= p,
    ensures
        reward_of(d, t, p) * t <= p * d,
        0 <= reward_of(d, t, p),
{
    let s = SCALE as int;
    let q = participation_of(d, t);
    let r = reward_of(d, t, p);
    assert(0 <= q && q * t <= d * s) by (nonlinear_arith)
        requires
            q == (d * s) / t,
            0 <= d,
            0 < t,
            s > 0,
    ;
    assert(0 <= r && r * s <= p * q) by (nonlinear_arith)
        requires
            r == (p * q) / s,
            0 <= p,
            0 <= q,
            s > 0,
    ;
    assert(r * t <= p * d) by (nonlinear_arith)
        requires
            0 <= r,
            r * s <= p * q,
            q * t <= d * s,
            0 <= p,
            0 < t,
            s > 0,
    ;
}

proof fn lemma_withdrawals_scaled(deposits: Seq<u128>, t: int, p: int)
    requires
        0 < t,
        0 <= p,
    ensures
        (withdrawals_of(deposits, t, p) - total_of(deposits)) * t <= p * total_of(deposits),
        0 <= total_of(deposits),
    decreases deposits.len(),
{
    if deposits.len() > 0 {
        let rest = deposits.drop_last();
        let d = deposits.last() as int;
        lemma_withdrawals_scaled(rest, t, p);
        lemma_reward_scaled(d, t, p);
        let a = withdrawals_of(rest, t, p) - total_of(rest);
        let r = reward_of(d, t, p);
        assert((a + r) * t <= p * (total_of(rest) + d)) by (nonlinear_arith)
            requires
                a * t <= p * total_of(rest),
                r * t <= p * d,
        ;
        assert(withdrawals_of(deposits, t, p) - total_of(deposits) == a + r);
    } else {
        assert(withdrawals_of(deposits, t, p) == 0 && total_of(deposits) == 0);
        assert(0 * t == 0) by (nonlinear_arith);
        assert(p * total_of(deposits) == 0);
    }
}

/// However many winners withdraw, their stakes and rewards together never
/// exceed the winning pool plus the prize.
pub proof fn lemma_withdrawals_within_pool(deposits: Seq<u128>, winning_total: int, prize: int)
    requires
        total_of(deposits) == winning_total,
        0 < winning_total,
        0 <= prize,
    ensures
        withdrawals_of(deposits, winning_total, prize) <= winning_total + prize,
{
    lemma_withdrawals_scaled(deposits, winning_total, prize);
    let a = withdrawals_of(deposits, winning_total, prize) - winning_total;
    assert(a <= prize) by (nonlinear_arith)
        requires
            a * winning_total <= prize * winning_total,
            0 < winning_total,
    ;
}

proof fn lemma_reward_floor(d: int, t: int, p: int)
    requires
        0 <= d,
        0 < t,
        0 <= p,
    ensures
        reward_of(d, t, p) * (SCALE as int) * t + ((SCALE as int) + p) * t >= p * d * (SCALE as int)
            + 1,
{
    let s = SCALE as int;
    let q = participation_of(d, t);
    let r = reward_of(d, t, p);
    assert(q * t >= d * s - t + 1) by (nonlinear_arith)
        requires
            q == (d * s) / t,
            0 < t,
    ;
    assert(r * s >= p * q - s + 1) by (nonlinear_arith)
        requires
            r == (p * q) / s,
            s > 0,
    ;
    assert(r * s * t + (s + p) * t >= p * d * s + 1) by (nonlinear_arith)
        requires
            q * t >= d * s - t + 1,
            r * s >= p * q - s + 1,
            0 <= p,
            0 < t,
    ;
}

proof fn lemma_withdrawals_floor(deposits: Seq<u128>, t: int, p: int)
    requires
        0 < t,
        0 <= p,
    ensures
        (withdrawals_of(deposits, t, p) - total_of(deposits)) * (SCALE as int) * t + deposits.len()
            * ((SCALE as int) + p) * t >= p * total_of(deposits) * (SCALE as int) + deposits.len(),
    decreases deposits.len(),
{
    let s = SCALE as int;
    if deposits.len() > 0 {
        let rest = deposits.drop_last();
        let d = deposits.last() as int;
        let n = rest.len() as int;
        lemma_withdrawals_floor(rest, t, p);
        lemma_reward_floor(d, t, p);
        let a = withdrawals_of(rest, t, p) - total_of(rest);
        let r = reward_of(d, t, p);
        let e = total_of(rest);
        assert((a + r) * s * t == a * s * t + r * s * t) by (nonlinear_arith);
        assert((n + 1) * (s + p) * t == n * (s + p) * t + (s + p) * t) by (nonlinear_arith);
        assert(p * (e + d) * s == p * e * s + p * d * s) by (nonlinear_arith);
        assert(withdrawals_of(deposits, t, p) - total_of(deposits) == a + r);
    } else {
        assert(withdrawals_of(deposits, t, p) == 0 && total_of(deposits) == 0);
        assert(0 * s * t + 0 * (s + p) * t == 0) by (nonlinear_arith);
        assert(p * 0 * s == 0) by (nonlinear_arith);
    }
}

/// Once every winner has withdrawn, what rounding leaves undistributed of the
/// prize is less than `prize / SCALE + 1` smallest units per winner.
pub proof fn lemma_residue_per_winner(deposits: Seq<u128>, winning_total: int, prize: int)
    requires
        total_of(deposits) == winning_total,
        0 < winning_total,
        0 <= prize,
        deposits.len() > 0,
    ensures
        (winning_total + prize - withdrawals_of(deposits, winning_total, prize)) * (SCALE as int)
            < deposits.len() * (prize + SCALE as int),
{
    let s = SCALE as int;
    let t = winning_total;
    let n = deposits.len() as int;
    lemma_withdrawals_floor(deposits, t, prize);
    let a = withdrawals_of(deposits, t, prize) - t;
    assert((t + prize - withdrawals_of(deposits, t, prize)) * s < n * (prize + s)) by (nonlinear_arith)
        requires
            a * s * t + n * (s + prize) * t >= prize * t * s + n,
            a == withdrawals_of(deposits, t, prize) - t,
            n > 0,
            t > 0,
    ;
}

} // verus!
