use cfd_sim::schedule::{relaxation_done, ScenePreset, SceneType, StepCounter, BOUNDARY_LAYER_CADENCE};

#[test]
fn relaxation_never_stops_during_warmup() {
    for sweep in 0..4 {
        assert!(!relaxation_done(sweep, true));
    }
    assert!(relaxation_done(4, true));
    assert!(!relaxation_done(4, false));
    assert!(!relaxation_done(100, false));
}

#[test]
fn presets_by_scene_number() {
    let p = ScenePreset::for_scene(0);
    assert_eq!((p.scene_type, p.resolution, p.iterations, p.radiator_bench), (SceneType::Tank, 60, 30, false));
    let p = ScenePreset::for_scene(1);
    assert_eq!((p.scene_type, p.resolution, p.iterations), (SceneType::WindTunnel, 120, 30));
    let p = ScenePreset::for_scene(2);
    assert_eq!((p.scene_type, p.resolution), (SceneType::Paint, 100));
    let p = ScenePreset::for_scene(3);
    assert_eq!((p.scene_type, p.resolution), (SceneType::WindTunnel, 180));
    let p = ScenePreset::for_scene(4);
    assert_eq!((p.scene_type, p.resolution, p.iterations, p.radiator_bench), (SceneType::WindTunnel, 150, 20, true));
    let p = ScenePreset::for_scene(9);
    assert_eq!((p.scene_type, p.resolution, p.iterations), (SceneType::Default, 100, 30));
}

#[test]
fn heuristic_every_fifth_wind_tunnel_step() {
    let mut c = StepCounter::new();
    let due: Vec<bool> = (0..10).map(|_| c.record_step(SceneType::WindTunnel)).collect();
    assert_eq!(due, vec![false, false, false, false, true, false, false, false, false, true]);
    assert_eq!(c.steps, 10);
    assert_eq!(BOUNDARY_LAYER_CADENCE, 5);
}

#[test]
fn other_scenes_do_not_count() {
    let mut c = StepCounter::new();
    for _ in 0..7 {
        assert!(!c.record_step(SceneType::Tank));
        assert!(!c.record_step(SceneType::Paint));
    }
    assert_eq!(c.steps, 0);
}

#[test]
fn counter_wraps_at_the_end() {
    let mut c = StepCounter { steps: usize::MAX };
    let due = c.record_step(SceneType::WindTunnel);
    assert_eq!(c.steps, 0);
    assert!(due);
}
