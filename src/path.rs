//! The decisions of the path tracer. A camera ray is followed through the
//! scene bounce by bounce: each ray either leaves the scene (and the path
//! ends in the sky), is absorbed by the surface it hits (and the path ends
//! black), or is scattered into a new ray. A path may bounce at most as many
//! times as its depth budget allows; once that is spent it ends black without
//! the scene being queried again. The radiance arithmetic that goes with
//! these decisions is done by the caller.
use vstd::prelude::*;

verus! {

/// What became of a ray that was sent into the scene.
#[derive(Clone, Copy, Debug, PartialEq, Eq, Structural)]
pub enum SurfaceEvent {
    /// The ray hit nothing.
    Missed,
    /// The ray hit a surface whose material absorbed it.
    Absorbed,
    /// The ray hit a surface and was scattered into a new ray.
    Scattered,
}

/// What the tracer does next with a path.
#[derive(Clone, Copy, Debug, PartialEq, Eq, Structural)]
pub enum PathStep {
    /// The path ends and contributes no light.
    Black,
    /// The path ends in the sky, which lights it.
    Sky,
    /// The current ray is to be sent into the scene.
    Trace,
}

/// The step for a ray that may still bounce `depth` times.
pub open spec fn step_for(depth: nat) -> PathStep {
    if depth == 0 {
        PathStep::Black
    } else {
        PathStep::Trace
    }
}

/// A path whose bounce budget is spent ends black, whatever its ray and the
/// scene: the scene is not queried for it.
pub proof fn lemma_spent_budget_is_black()
    ensures
        step_for(0) == PathStep::Black,
{
}

/// One path's remaining bounce budget.
pub struct Path {
    depth: u32,
}

impl View for Path {
    type V = nat;

    closed spec fn view(&self) -> nat {
        self.depth as nat
    }
}

impl Path {
    /// A path that may bounce `max_depth` times.
    pub fn new(max_depth: u32) -> (p: Path)
        ensures
            p@ == max_depth as nat,
    {
        Path { depth: max_depth }
    }

    /// The bounces left.
    pub fn depth(&self) -> (d: u32)
        ensures
            d as nat == self@,
    {
        self.depth
    }

    /// The first step of the path: black at once when its budget is zero,
    /// otherwise trace the camera ray.
    pub fn begin(&self) -> (s: PathStep)
        ensures
            s == step_for(self@),
    {
        if self.depth == 0 {
            PathStep::Black
        } else {
            PathStep::Trace
        }
    }

    /// The step after the traced ray met `event`. A miss ends the path in the
    /// sky and an absorption ends it black; a scattered ray uses up one
    /// bounce and is traced in turn, unless that was the last one.
    pub fn advance(&mut self, event: SurfaceEvent) -> (s: PathStep)
        requires
            old(self)@ > 0,
        ensures
            event == SurfaceEvent::Missed ==> s == PathStep::Sky && final(self)@ == old(self)@,
            event == SurfaceEvent::Absorbed ==> s == PathStep::Black && final(self)@ == old(
                self,
            )@,
            event == SurfaceEvent::Scattered ==> final(self)@ == old(self)@ - 1 && s == step_for(
                final(self)@,
            ),
    {
        match event {
            SurfaceEvent::Missed => PathStep::Sky,
            SurfaceEvent::Absorbed => PathStep::Black,
            SurfaceEvent::Scattered => {
                self.depth = self.depth - 1;
                self.begin()
            },
        }
    }
}

} // verus!
