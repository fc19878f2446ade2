//! Free-fly camera control.
//!
//! Each frame, held movement keys pick a direction along the camera's local
//! forward and right axes, scaled by the camera's speed and the elapsed time;
//! mouse motion turns into yaw and pitch deltas. The engine-side driver maps
//! the resulting scalars onto its floating-point basis vectors and rotations;
//! everything decided here is exact integer arithmetic.

use vstd::prelude::*;

verus! {

/// A camera entity's movement-speed multiplier, fixed after creation.
#[derive(Clone, Copy, Debug, PartialEq, Eq, Structural)]
pub struct CameraControl {
    pub speed: i64,
}

/// Which movement keys are held this frame.
#[derive(Clone, Copy, Debug, PartialEq, Eq, Structural)]
pub struct MoveKeys {
    pub w: bool,
    pub a: bool,
    pub s: bool,
    pub d: bool,
}

/// This frame's translation along the camera's local axes, in speed-units
/// times time-units.
#[derive(Clone, Copy, Debug, PartialEq, Eq, Structural)]
pub struct MoveDelta {
    pub forward: i64,
    pub right: i64,
}

/// Net step count along one axis from an opposing key pair.
pub open spec fn spec_axis_steps(pos: bool, neg: bool) -> int {
    (if pos { 1int } else { 0int }) - (if neg { 1int } else { 0int })
}

/// Net forward steps: W moves forward, S backward.
pub open spec fn spec_forward_steps(keys: MoveKeys) -> int {
    spec_axis_steps(keys.w, keys.s)
}

/// Net rightward steps: D moves right, A left.
pub open spec fn spec_right_steps(keys: MoveKeys) -> int {
    spec_axis_steps(keys.d, keys.a)
}

/// The translation one frame produces: key steps scaled by speed and elapsed
/// time, along each local axis.
pub open spec fn spec_move_delta(keys: MoveKeys, speed: int, dt: int) -> (int, int) {
    (spec_forward_steps(keys) * speed * dt, spec_right_steps(keys) * speed * dt)
}

impl CameraControl {
    /// Translates the held movement keys into this frame's displacement along
    /// the camera's local forward and right axes: speed times elapsed time in
    /// each direction with a net key press, with opposing keys cancelling.
    pub fn camera_movement(&self, keys: &MoveKeys, dt: i64) -> (delta: MoveDelta)
        requires
            -i64::MAX <= self.speed * dt <= i64::MAX,
        ensures
            (delta.forward as int, delta.right as int) == spec_move_delta(*keys, self.speed as int, dt as int),
    {
        let scaled: i64 = self.speed * dt;
        let forward: i64 = if keys.w && !keys.s {
            scaled
        } else if keys.s && !keys.w {
            -scaled
        } else {
            0
        };
        let right: i64 = if keys.d && !keys.a {
            scaled
        } else if keys.a && !keys.d {
            -scaled
        } else {
            0
        };
        proof {
            let s = self.speed as int;
            let t = dt as int;
            lemma_steps_scale(spec_forward_steps(*keys), s, t);
            lemma_steps_scale(spec_right_steps(*keys), s, t);
        }
        MoveDelta { forward, right }
    }
}

/// One mouse-motion event's raw displacement, in device counts.
#[derive(Clone, Copy, Debug, PartialEq, Eq, Structural)]
pub struct MouseDelta {
    pub dx: i32,
    pub dy: i32,
}

/// The camera's orientation relative to where it started: a yaw rotation
/// applied in world space and a pitch rotation applied in the post-yaw local
/// space, each measured in accumulated device counts. The driver turns a
/// count into an angle with its fixed sensitivity factor.
#[derive(Clone, Copy, Debug, PartialEq, Eq, Structural)]
pub struct Orientation {
    pub yaw: i64,
    pub pitch: i64,
}

/// The summed horizontal displacement of a sequence of mouse events.
pub open spec fn sum_dx(events: Seq<MouseDelta>) -> int
    decreases events.len(),
{
    if events.len() == 0 {
        0
    } else {
        sum_dx(events.drop_last()) + events.last().dx
    }
}

/// The summed vertical displacement of a sequence of mouse events.
pub open spec fn sum_dy(events: Seq<MouseDelta>) -> int
    decreases events.len(),
{
    if events.len() == 0 {
        0
    } else {
        sum_dy(events.drop_last()) + events.last().dy
    }
}

/// The orientation after one frame's mouse events: each count of rightward or
/// downward motion turns the camera one count of yaw or pitch the other way.
pub open spec fn spec_rotation_after(yaw: int, pitch: int, events: Seq<MouseDelta>) -> (int, int) {
    (yaw - sum_dx(events), pitch - sum_dy(events))
}

impl CameraControl {
    /// Accumulates this frame's mouse-motion events into the camera's
    /// orientation: yaw falls by the summed horizontal counts and pitch by
    /// the summed vertical counts.
    pub fn camera_rotation(&self, orientation: &mut Orientation, events: &Vec<MouseDelta>)
        requires
            forall|i: int|
                0 <= i <= events@.len() ==> i64::MIN <= old(orientation).yaw - sum_dx(
                    #[trigger] events@.take(i),
                ) <= i64::MAX,
            forall|i: int|
                0 <= i <= events@.len() ==> i64::MIN <= old(orientation).pitch - sum_dy(
                    #[trigger] events@.take(i),
                ) <= i64::MAX,
        ensures
            (final(orientation).yaw as int, final(orientation).pitch as int)
                == spec_rotation_after(
                old(orientation).yaw as int,
                old(orientation).pitch as int,
                events@,
            ),
    {
        let mut k: usize = 0;
        while k < events.len()
            invariant
                0 <= k <= events@.len(),
                orientation.yaw == old(orientation).yaw - sum_dx(events@.take(k as int)),
                orientation.pitch == old(orientation).pitch - sum_dy(events@.take(k as int)),
                forall|i: int|
                    0 <= i <= events@.len() ==> i64::MIN <= old(orientation).yaw - sum_dx(
                        #[trigger] events@.take(i),
                    ) <= i64::MAX,
                forall|i: int|
                    0 <= i <= events@.len() ==> i64::MIN <= old(orientation).pitch - sum_dy(
                        #[trigger] events@.take(i),
                    ) <= i64::MAX,
            decreases events@.len() - k,
        {
            let event = events[k];
            proof {
                assert(events@.take(k + 1).drop_last() =~= events@.take(k as int));
                assert(events@.take(k + 1).last() == events@[k as int]);
            }
            orientation.yaw = orientation.yaw - (event.dx as i64);
            orientation.pitch = orientation.pitch - (event.dy as i64);
            k = k + 1;
        }
        proof {
            assert(events@.take(events@.len() as int) =~= events@);
        }
    }
}

/// The orientation after several frames of mouse events, applied frame by
/// frame.
pub open spec fn spec_rotation_after_frames(
    yaw: int,
    pitch: int,
    frames: Seq<Seq<MouseDelta>>,
) -> (int, int)
    decreases frames.len(),
{
    if frames.len() == 0 {
        (yaw, pitch)
    } else {
        let prev = spec_rotation_after_frames(yaw, pitch, frames.drop_last());
        spec_rotation_after(prev.0, prev.1, frames.last())
    }
}

/// The summed horizontal displacement over several frames of mouse events.
pub open spec fn total_dx(frames: Seq<Seq<MouseDelta>>) -> int
    decreases frames.len(),
{
    if frames.len() == 0 {
        0
    } else {
        total_dx(frames.drop_last()) + sum_dx(frames.last())
    }
}

/// The summed vertical displacement over several frames of mouse events.
pub open spec fn total_dy(frames: Seq<Seq<MouseDelta>>) -> int
    decreases frames.len(),
{
    if frames.len() == 0 {
        0
    } else {
        total_dy(frames.drop_last()) + sum_dy(frames.last())
    }
}

/// Law: the orientation after any series of frames depends only on the motion
/// summed over all of them.
pub proof fn lemma_frames_accumulate(yaw: int, pitch: int, frames: Seq<Seq<MouseDelta>>)
    ensures
        spec_rotation_after_frames(yaw, pitch, frames) == (
            yaw - total_dx(frames),
            pitch - total_dy(frames),
        ),
    decreases frames.len(),
{
    if frames.len() > 0 {
        lemma_frames_accumulate(yaw, pitch, frames.drop_last());
    }
}

/// Law: mouse motion spread over several frames — zero-motion frames in
/// between included — ends at exactly the orientation one frame with the
/// summed displacement reaches.
pub proof fn lemma_split_motion_single_frame(
    yaw: int,
    pitch: int,
    frames: Seq<Seq<MouseDelta>>,
    combined: MouseDelta,
)
    requires
        combined.dx == total_dx(frames),
        combined.dy == total_dy(frames),
    ensures
        spec_rotation_after_frames(yaw, pitch, frames) == spec_rotation_after(
            yaw,
            pitch,
            seq![combined],
        ),
{
    lemma_frames_accumulate(yaw, pitch, frames);
    let s: Seq<MouseDelta> = seq![combined];
    assert(s.drop_last() =~= Seq::<MouseDelta>::empty());
    assert(s.last() == combined);
    assert(sum_dx(s) == sum_dx(s.drop_last()) + s.last().dx);
    assert(sum_dy(s) == sum_dy(s.drop_last()) + s.last().dy);
    assert(sum_dx(s.drop_last()) == 0);
    assert(sum_dy(s.drop_last()) == 0);
}

/// A net step count of 1, -1 or 0 scales speed times time to itself, its
/// negation, or zero.
proof fn lemma_steps_scale(steps: int, s: int, t: int)
    requires
        steps == 1 || steps == -1 || steps == 0,
    ensures
        steps == 1 ==> steps * s * t == s * t,
        steps == -1 ==> steps * s * t == -(s * t),
        steps == 0 ==> steps * s * t == 0,
{
    if steps == 1 {
        assert(steps * s == s);
    } else if steps == -1 {
        assert(steps * s == -s);
        assert((-s) * t == -(s * t)) by (nonlinear_arith);
    } else {
        assert(steps * s == 0);
        assert(0int * t == 0);
    }
}

/// Law: holding W alone moves the camera by exactly speed times elapsed time
/// along its forward axis, and not at all sideways.
pub proof fn lemma_forward_motion(keys: MoveKeys, speed: int, dt: int)
    requires
        keys.w,
        !keys.s,
        !keys.a,
        !keys.d,
        0 <= speed,
        0 <= dt,
    ensures
        spec_move_delta(keys, speed, dt) == (speed * dt, 0int),
{
    lemma_steps_scale(spec_forward_steps(keys), speed, dt);
    lemma_steps_scale(spec_right_steps(keys), speed, dt);
}

} // verus!
