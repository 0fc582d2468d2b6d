use crate::position::{Coordinate, Sample, elapsed_seconds, seconds_between};
use crate::reward::{
    Coins,
    Multiplier,
    calculate_coins,
    reward_of,
    multiplier_for,
    multiplier_of,
    speed_eligible,
    speed_in_window,
};
use vstd::prelude::*;

verus! {

/// Which endpoint a connection came through: plain position relay, or relay
/// with rewards for qualifying movement.
#[derive(Clone, Copy, Debug, PartialEq, Eq, Structural)]
pub enum Variant {
    Relay,
    Reward,
}

/// Where a connection stands. `Measuring` and `Scanning` are the moments in
/// which the session waits for a distance from its driver before it can settle
/// a position report.
#[derive(Clone, Copy, Debug)]
pub enum Phase {
    AwaitingAuth,
    Tracking { previous: Option<Sample> },
    Measuring { previous: Sample, current: Sample },
    Scanning { current: Sample, moved_mm: u64, elapsed_s: i64 },
    Closed,
}

/// An inbound frame after decoding.
#[derive(Clone, Copy, Debug)]
pub enum Frame {
    Position(Sample),
    /// A text frame that is not a position report.
    Malformed,
    /// A frame that carries no text: binary, ping or pong.
    Control,
}

/// What the driver of a session is to do next.
#[derive(Clone, Copy, Debug)]
pub enum Step {
    /// Send a close frame and end the connection.
    Close,
    /// Record the session's identity at `coord` in the registry.
    Register { coord: Coordinate },
    /// Nothing to do; wait for the next frame.
    Proceed,
    /// Measure the distance in millimetres from `from` to `to` and hand it to
    /// `on_measured`.
    Measure { from: Coordinate, to: Coordinate },
    /// Take a registry snapshot, measure the distance in millimetres from
    /// `around` to every other identity in it, and hand the distances to
    /// `on_scanned`.
    Scan { around: Coordinate },
    /// Credit `award` coins to the identity if there are any, record it at
    /// `coord` in the registry, and publish `coord` to the other sessions.
    Settle { coord: Coordinate, award: Option<Coins> },
    /// Publish `coord` to the other sessions without recording it: the first
    /// sample of a rewarding session only sets its baseline, so that proximity
    /// scans never score against it.
    Baseline { coord: Coordinate },
    /// Remove the identity from the registry.
    Release,
}

/// The phase and step after the identity check.
pub open spec fn after_auth(variant: Variant, phase: Phase, verified: bool) -> (Phase, Step) {
    match phase {
        Phase::AwaitingAuth => if !verified {
            (Phase::Closed, Step::Close)
        } else if variant == Variant::Relay {
            (Phase::Tracking { previous: None }, Step::Register { coord: Coordinate { lat_e7: 0, lon_e7: 0 } })
        } else {
            (Phase::Tracking { previous: None }, Step::Proceed)
        },
        _ => (phase, Step::Proceed),
    }
}

/// The phase and step after an inbound frame. A frame that is not a position
/// report changes nothing. A relay session settles each position at once; a
/// rewarding session takes its first position as baseline and otherwise waits
/// for the distance moved.
pub open spec fn after_frame(variant: Variant, phase: Phase, frame: Frame) -> (Phase, Step) {
    match (phase, frame) {
        (Phase::Tracking { previous }, Frame::Position(current)) => if variant == Variant::Relay {
            (Phase::Tracking { previous: Some(current) }, Step::Settle { coord: current.coord, award: None })
        } else {
            match previous {
                Some(p) => (
                    Phase::Measuring { previous: p, current },
                    Step::Measure { from: p.coord, to: current.coord },
                ),
                None => (Phase::Tracking { previous: Some(current) }, Step::Baseline { coord: current.coord }),
            }
        },
        _ => (phase, Step::Proceed),
    }
}

/// The phase and step once the distance moved since the previous sample is
/// known: a scan of the neighbours when the speed qualifies, else settling
/// without a reward.
pub open spec fn after_measure(phase: Phase, moved_mm: u64) -> (Phase, Step) {
    match phase {
        Phase::Measuring { previous, current } => {
            let e = seconds_between(previous.at_ms as int, current.at_ms as int);
            if speed_in_window(moved_mm as int, e) {
                (
                    Phase::Scanning { current, moved_mm, elapsed_s: e as i64 },
                    Step::Scan { around: current.coord },
                )
            } else {
                (Phase::Tracking { previous: Some(current) }, Step::Settle { coord: current.coord, award: None })
            }
        },
        _ => (phase, Step::Proceed),
    }
}

/// The phase and step once the distances to the other identities are known:
/// settling with the reward for the measured speed and the multiplier.
pub open spec fn after_scan(phase: Phase, distances_mm: Seq<u64>) -> (Phase, Step) {
    match phase {
        Phase::Scanning { current, moved_mm, elapsed_s } => (
            Phase::Tracking { previous: Some(current) },
            Step::Settle {
                coord: current.coord,
                award: Some(reward_of(moved_mm, elapsed_s, multiplier_of(distances_mm))),
            },
        ),
        _ => (phase, Step::Proceed),
    }
}

/// The phase and step when the connection ends: an identity that was admitted
/// is released.
pub open spec fn after_close(phase: Phase) -> (Phase, Step) {
    match phase {
        Phase::AwaitingAuth => (Phase::Closed, Step::Proceed),
        Phase::Closed => (Phase::Closed, Step::Proceed),
        _ => (Phase::Closed, Step::Release),
    }
}

/// A session's first position report never leads to a reward or a scan of the
/// registry: a relay session settles it with no reward, a rewarding session
/// takes it as baseline without recording it; and no measurement or distances
/// handed in afterwards can turn it into a reward.
pub proof fn lemma_first_position_never_rewarded(
    variant: Variant,
    current: Sample,
    moved_mm: u64,
    distances_mm: Seq<u64>,
)
    ensures
        after_frame(variant, Phase::Tracking { previous: None }, Frame::Position(current)) == (
            Phase::Tracking { previous: Some(current) },
            if variant == Variant::Relay {
                Step::Settle { coord: current.coord, award: None }
            } else {
                Step::Baseline { coord: current.coord }
            },
        ),
        after_measure(Phase::Tracking { previous: Some(current) }, moved_mm).1 == Step::Proceed,
        after_scan(Phase::Tracking { previous: Some(current) }, distances_mm).1 == Step::Proceed,
{
}

/// A malformed or control frame neither ends nor alters a session, and a valid
/// frame that follows it is handled exactly as if it had never come.
pub proof fn lemma_malformed_frame_ignored(variant: Variant, phase: Phase, ignored: Frame, current: Sample)
    requires
        ignored matches Frame::Malformed || ignored matches Frame::Control,
    ensures
        after_frame(variant, phase, ignored) == (phase, Step::Proceed),
        after_frame(variant, after_frame(variant, phase, ignored).0, Frame::Position(current))
            == after_frame(variant, phase, Frame::Position(current)),
{
}

/// One live connection.
pub struct Session {
    pub variant: Variant,
    /// The verified identity; empty until the identity check succeeds.
    pub identity: String,
    pub phase: Phase,
}

impl Session {
    /// A scan is only ever pending for a speed inside the window.
    pub open spec fn wf(&self) -> bool {
        match self.phase {
            Phase::Scanning { moved_mm, elapsed_s, .. } => speed_in_window(moved_mm as int, elapsed_s as int),
            _ => true,
        }
    }

    /// A session that waits for its token.
    pub fn new(variant: Variant) -> (r: Session)
        ensures
            r.wf(),
            r.variant == variant,
            r.identity@ == Seq::<char>::empty(),
            r.phase == Phase::AwaitingAuth,
    {
        Session { variant, identity: String::new(), phase: Phase::AwaitingAuth }
    }

    /// Takes the outcome of the identity check on the first frame: the
    /// verified identity, or `None` when the token was refused or could not be
    /// checked.
    pub fn on_verified(&mut self, verified: Option<String>) -> (r: Step)
        requires
            old(self).wf(),
        ensures
            final(self).wf(),
            final(self).variant == old(self).variant,
            (final(self).phase, r) == after_auth(old(self).variant, old(self).phase, verified.is_some()),
            final(self).identity@ == (match (old(self).phase, verified) {
                (Phase::AwaitingAuth, Some(id)) => id@,
                _ => old(self).identity@,
            }),
    {
        match self.phase {
            Phase::AwaitingAuth => match verified {
                Some(id) => {
                    self.identity = id;
                    self.phase = Phase::Tracking { previous: None };
                    match self.variant {
                        Variant::Relay => Step::Register { coord: Coordinate::origin() },
                        Variant::Reward => Step::Proceed,
                    }
                },
                None => {
                    self.phase = Phase::Closed;
                    Step::Close
                },
            },
            _ => Step::Proceed,
        }
    }

    /// Takes one decoded inbound frame.
    pub fn on_frame(&mut self, frame: Frame) -> (r: Step)
        requires
            old(self).wf(),
        ensures
            final(self).wf(),
            final(self).variant == old(self).variant,
            final(self).identity == old(self).identity,
            (final(self).phase, r) == after_frame(old(self).variant, old(self).phase, frame),
    {
        match (self.phase, frame) {
            (Phase::Tracking { previous }, Frame::Position(current)) => match self.variant {
                Variant::Relay => {
                    self.phase = Phase::Tracking { previous: Some(current) };
                    Step::Settle { coord: current.coord, award: None }
                },
                Variant::Reward => match previous {
                    Some(p) => {
                        self.phase = Phase::Measuring { previous: p, current };
                        Step::Measure { from: p.coord, to: current.coord }
                    },
                    None => {
                        self.phase = Phase::Tracking { previous: Some(current) };
                        Step::Baseline { coord: current.coord }
                    },
                },
            },
            _ => Step::Proceed,
        }
    }

    /// Takes the distance in millimetres between the two samples of a pending
    /// measurement.
    pub fn on_measured(&mut self, moved_mm: u64) -> (r: Step)
        requires
            old(self).wf(),
        ensures
            final(self).wf(),
            final(self).variant == old(self).variant,
            final(self).identity == old(self).identity,
            (final(self).phase, r) == after_measure(old(self).phase, moved_mm),
    {
        match self.phase {
            Phase::Measuring { previous, current } => {
                let e = elapsed_seconds(&previous, &current);
                if speed_eligible(moved_mm, e) {
                    self.phase = Phase::Scanning { current, moved_mm, elapsed_s: e };
                    Step::Scan { around: current.coord }
                } else {
                    self.phase = Phase::Tracking { previous: Some(current) };
                    Step::Settle { coord: current.coord, award: None }
                }
            },
            _ => Step::Proceed,
        }
    }

    /// Takes the distances in millimetres from the pending position to every
    /// other identity in a registry snapshot.
    pub fn on_scanned(&mut self, distances_mm: &Vec<u64>) -> (r: Step)
        requires
            old(self).wf(),
        ensures
            final(self).wf(),
            final(self).variant == old(self).variant,
            final(self).identity == old(self).identity,
            (final(self).phase, r) == after_scan(old(self).phase, distances_mm@),
    {
        match self.phase {
            Phase::Scanning { current, moved_mm, elapsed_s } => {
                let m: Multiplier = multiplier_for(distances_mm);
                let coins: Coins = calculate_coins(moved_mm, elapsed_s, m);
                self.phase = Phase::Tracking { previous: Some(current) };
                Step::Settle { coord: current.coord, award: Some(coins) }
            },
            _ => Step::Proceed,
        }
    }

    /// Whether an event published under `identity` is to be forwarded to this
    /// session's client: every identity's but its own.
    pub fn forwards(&self, identity: &String) -> (r: bool)
        ensures
            r == (identity@ != self.identity@),
    {
        *identity != self.identity
    }

    /// Ends the session when its connection closes or fails.
    pub fn on_closed(&mut self) -> (r: Step)
        requires
            old(self).wf(),
        ensures
            final(self).wf(),
            final(self).variant == old(self).variant,
            final(self).identity == old(self).identity,
            (final(self).phase, r) == after_close(old(self).phase),
    {
        let r = match self.phase {
            Phase::AwaitingAuth => Step::Proceed,
            Phase::Closed => Step::Proceed,
            _ => Step::Release,
        };
        self.phase = Phase::Closed;
        r
    }
}

} // verus!
