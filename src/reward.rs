use vstd::prelude::*;

verus! {

/// Slowest qualifying speed, in millimetres per hour (3 km/h).
pub const MIN_SPEED_MM_PER_H: u64 = 3_000_000;

/// Fastest qualifying speed, in millimetres per hour (15 km/h).
pub const MAX_SPEED_MM_PER_H: u64 = 15_000_000;

/// Proximity radius for the bonus multiplier, in millimetres (50 m).
pub const NEARBY_MM: u64 = 50_000;

/// Whether a move of `moved_mm` millimetres over `elapsed_s` seconds is travel
/// at walking to cycling speed. The speed in millimetres per hour is
/// `3600 * moved_mm / elapsed_s`; both ends of the window are inclusive, and a
/// non-positive interval never qualifies.
pub open spec fn speed_in_window(moved_mm: int, elapsed_s: int) -> bool {
    elapsed_s > 0
        && MIN_SPEED_MM_PER_H * elapsed_s <= 3600 * moved_mm
        && 3600 * moved_mm <= MAX_SPEED_MM_PER_H * elapsed_s
}

/// Decides whether a move qualifies for a reward.
pub fn speed_eligible(moved_mm: u64, elapsed_s: i64) -> (r: bool)
    ensures
        r == speed_in_window(moved_mm as int, elapsed_s as int),
{
    if elapsed_s <= 0 {
        return false;
    }
    let d: u128 = moved_mm as u128 * 3600;
    let s: u128 = elapsed_s as u128;
    proof {
        assert(MIN_SPEED_MM_PER_H as u128 * s <= 15_000_000u128 * 0x8000_0000_0000_0000u128)
            by (nonlinear_arith)
            requires
                s < 0x8000_0000_0000_0000u128,
        ;
        assert(MAX_SPEED_MM_PER_H as u128 * s <= 15_000_000u128 * 0x8000_0000_0000_0000u128)
            by (nonlinear_arith)
            requires
                s < 0x8000_0000_0000_0000u128,
        ;
    }
    (MIN_SPEED_MM_PER_H as u128) * s <= d && d <= (MAX_SPEED_MM_PER_H as u128) * s
}

/// The factor applied to a reward: one, or one and a half when another tracked
/// identity is close by.
#[derive(Clone, Copy, Debug, PartialEq, Eq, Structural)]
pub enum Multiplier {
    Base,
    Boosted,
}

impl Multiplier {
    /// The factor in tenths.
    pub open spec fn tenths(self) -> int {
        match self {
            Multiplier::Base => 10,
            Multiplier::Boosted => 15,
        }
    }
}

/// Whether a distance in millimetres lies within the proximity radius.
pub open spec fn within_radius(distance_mm: int) -> bool {
    distance_mm <= NEARBY_MM
}

/// Decides whether another identity at `distance_mm` is close enough for the
/// bonus.
pub fn is_nearby(distance_mm: u64) -> (r: bool)
    ensures
        r == within_radius(distance_mm as int),
{
    distance_mm <= NEARBY_MM
}

/// The multiplier owed for the distances to the other tracked identities: the
/// bonus as soon as any one of them lies within the radius.
pub open spec fn multiplier_of(distances_mm: Seq<u64>) -> Multiplier {
    if exists|i: int| 0 <= i < distances_mm.len() && within_radius(#[trigger] distances_mm[i] as int) {
        Multiplier::Boosted
    } else {
        Multiplier::Base
    }
}

/// Scans the distances to the other identities, stopping at the first one in
/// the radius.
pub fn multiplier_for(distances_mm: &Vec<u64>) -> (r: Multiplier)
    ensures
        r == multiplier_of(distances_mm@),
{
    let mut i: usize = 0;
    while i < distances_mm.len()
        invariant
            0 <= i <= distances_mm@.len(),
            forall|j: int| 0 <= j < i ==> !within_radius(#[trigger] distances_mm@[j] as int),
        decreases distances_mm@.len() - i,
    {
        if is_nearby(distances_mm[i]) {
            return Multiplier::Boosted;
        }
        i = i + 1;
    }
    Multiplier::Base
}

/// A reward as an exact fraction of coins.
#[derive(Clone, Copy, Debug, PartialEq, Eq, Structural)]
pub struct Coins {
    pub numerator: u128,
    pub denominator: u128,
}

/// Numerator of the reward for a move. The speed in km/h is
/// `3600 * moved_mm / (1_000_000 * elapsed_s)`, and the reward is that speed
/// times ten times the multiplier, that is times `tenths`: so the reward is
/// `3600 * moved_mm * tenths / (1_000_000 * elapsed_s)` coins, exactly.
pub open spec fn reward_numerator(moved_mm: int, multiplier: Multiplier) -> int {
    3600 * moved_mm * multiplier.tenths()
}

/// Denominator of the reward for a move over `elapsed_s` seconds.
pub open spec fn reward_denominator(elapsed_s: int) -> int {
    1_000_000 * elapsed_s
}

/// The reward for a move, as the fraction above.
pub open spec fn reward_of(moved_mm: u64, elapsed_s: i64, multiplier: Multiplier) -> Coins {
    Coins {
        numerator: reward_numerator(moved_mm as int, multiplier) as u128,
        denominator: reward_denominator(elapsed_s as int) as u128,
    }
}

impl Coins {
    /// The whole coins in the amount, rounded down: what an integer balance
    /// can be credited with.
    pub fn whole(&self) -> (r: u128)
        requires
            self.denominator > 0,
        ensures
            r == self.numerator / self.denominator,
    {
        self.numerator / self.denominator
    }
}

/// Computes the exact reward for a move over a positive interval.
pub fn calculate_coins(moved_mm: u64, elapsed_s: i64, multiplier: Multiplier) -> (r: Coins)
    requires
        elapsed_s > 0,
    ensures
        r == reward_of(moved_mm, elapsed_s, multiplier),
        r.numerator as int == reward_numerator(moved_mm as int, multiplier),
        r.denominator as int == reward_denominator(elapsed_s as int),
        r.denominator > 0,
{
    let tenths: u128 = match multiplier {
        Multiplier::Base => 10,
        Multiplier::Boosted => 15,
    };
    let numerator: u128 = moved_mm as u128 * 3600 * tenths;
    let denominator: u128 = elapsed_s as u128 * 1_000_000;
    Coins { numerator, denominator }
}

/// The reward is linear in the speed: over the same interval, a move `k` times
/// as long earns `k` times as much; and the bonus is exactly one and a half
/// times the plain reward.
pub proof fn lemma_reward_proportional_to_speed(moved_mm: int, k: int, multiplier: Multiplier)
    ensures
        reward_numerator(k * moved_mm, multiplier) == k * reward_numerator(moved_mm, multiplier),
        2 * reward_numerator(moved_mm, Multiplier::Boosted) == 3 * reward_numerator(
            moved_mm,
            Multiplier::Base,
        ),
{
    assert(3600 * (k * moved_mm) * multiplier.tenths() == k * (3600 * moved_mm * multiplier.tenths()))
        by (nonlinear_arith);
}

/// At a speed of `kmh` km/h, with `moved_mm` millimetres covered in
/// `elapsed_s` seconds, the reward is ten coins per km/h, or fifteen with the
/// bonus: numerator and denominator stand in that ratio.
pub proof fn lemma_reward_is_ten_per_kmh(moved_mm: int, elapsed_s: int, kmh: int)
    requires
        3600 * moved_mm == kmh * 1_000_000 * elapsed_s,
    ensures
        reward_numerator(moved_mm, Multiplier::Base) == 10 * kmh * reward_denominator(elapsed_s),
        reward_numerator(moved_mm, Multiplier::Boosted) == 15 * kmh * reward_denominator(elapsed_s),
{
    assert(3600 * moved_mm * 10 == 10 * kmh * (1_000_000 * elapsed_s)) by (nonlinear_arith)
        requires
            3600 * moved_mm == kmh * 1_000_000 * elapsed_s,
    ;
    assert(3600 * moved_mm * 15 == 15 * kmh * (1_000_000 * elapsed_s)) by (nonlinear_arith)
        requires
            3600 * moved_mm == kmh * 1_000_000 * elapsed_s,
    ;
}

} // verus!
