use vstd::prelude::*;

verus! {

/// Every this many recorded wind-tunnel steps the boundary-layer heuristic runs.
pub const BOUNDARY_LAYER_CADENCE: usize = 5;

/// The pressure relaxation never stops early before this sweep index has passed.
pub const WARMUP_SWEEPS: usize = 3;

/// Whether the pressure relaxation stops after sweep `sweep` (counted from zero),
/// given whether the largest pressure change of that sweep fell below the
/// convergence threshold. The sweep cap bounds the work in any case.
pub fn relaxation_done(sweep: usize, below_threshold: bool) -> (r: bool)
    ensures
        r == (sweep > WARMUP_SWEEPS && below_threshold),
{
    sweep > WARMUP_SWEEPS && below_threshold
}

/// The kind of scene being simulated.
#[derive(Debug, Clone, Copy, PartialEq, Eq, Structural)]
pub enum SceneType {
    Tank,
    WindTunnel,
    Paint,
    Default,
}

/// The integer settings of a numbered scene preset.
#[derive(Debug, Clone, Copy, PartialEq, Eq, Structural)]
pub struct ScenePreset {
    pub scene_type: SceneType,
    /// Cells across the domain height.
    pub resolution: usize,
    /// Pressure relaxation sweeps per step.
    pub iterations: usize,
    /// The clean tunnel that a radiator is tested in, with its own domain size.
    pub radiator_bench: bool,
}

/// The scene type of scene number `scene_nr`.
pub open spec fn spec_scene_type(scene_nr: usize) -> SceneType {
    if scene_nr == 0 {
        SceneType::Tank
    } else if scene_nr == 1 || scene_nr == 3 || scene_nr == 4 {
        SceneType::WindTunnel
    } else if scene_nr == 2 {
        SceneType::Paint
    } else {
        SceneType::Default
    }
}

/// The number of cells across the domain height in scene number `scene_nr`.
pub open spec fn spec_resolution(scene_nr: usize) -> usize {
    if scene_nr == 0 {
        60
    } else if scene_nr == 1 {
        120
    } else if scene_nr == 3 {
        180
    } else if scene_nr == 4 {
        150
    } else {
        100
    }
}

impl ScenePreset {
    /// The preset of scene number `scene_nr`: 0 tank, 1 wind tunnel, 2 paint,
    /// 3 high-resolution wind tunnel, 4 radiator bench; any other number is the
    /// default scene.
    pub fn for_scene(scene_nr: usize) -> (r: ScenePreset)
        ensures
            r.scene_type == spec_scene_type(scene_nr),
            r.resolution == spec_resolution(scene_nr),
            r.iterations == if scene_nr == 4 { 20usize } else { 30usize },
            r.radiator_bench == (scene_nr == 4),
    {
        let scene_type = if scene_nr == 0 {
            SceneType::Tank
        } else if scene_nr == 1 || scene_nr == 3 || scene_nr == 4 {
            SceneType::WindTunnel
        } else if scene_nr == 2 {
            SceneType::Paint
        } else {
            SceneType::Default
        };
        let resolution: usize = if scene_nr == 0 {
            60
        } else if scene_nr == 1 {
            120
        } else if scene_nr == 3 {
            180
        } else if scene_nr == 4 {
            150
        } else {
            100
        };
        let iterations: usize = if scene_nr == 4 {
            20
        } else {
            30
        };
        ScenePreset { scene_type, resolution, iterations, radiator_bench: scene_nr == 4 }
    }
}

/// Counts the steps of a wind-tunnel scene, to run the boundary-layer
/// heuristic at a reduced cadence. Owned by the scene that steps.
#[derive(Debug, Clone, Copy, PartialEq, Eq, Structural)]
pub struct StepCounter {
    pub steps: usize,
}

impl StepCounter {
    pub fn new() -> (r: StepCounter)
        ensures
            r.steps == 0,
    {
        StepCounter { steps: 0 }
    }

    /// Records one completed step of a scene of type `scene`, and says whether
    /// the boundary-layer heuristic is due after it. Only wind-tunnel steps
    /// count; the count wraps around at the end of `usize`.
    pub fn record_step(&mut self, scene: SceneType) -> (due: bool)
        ensures
            scene == SceneType::WindTunnel ==> final(self).steps == if old(self).steps
                == usize::MAX {
                0
            } else {
                old(self).steps + 1
            },
            scene == SceneType::WindTunnel ==> due == (final(self).steps % BOUNDARY_LAYER_CADENCE
                == 0),
            scene != SceneType::WindTunnel ==> *final(self) == *old(self) && !due,
    {
        if scene == SceneType::WindTunnel {
            self.steps = if self.steps == usize::MAX {
                0
            } else {
                self.steps + 1
            };
            self.steps % BOUNDARY_LAYER_CADENCE == 0
        } else {
            false
        }
    }
}

} // verus!
