use bowling::registry::RigidBodyRegistry;
use bowling::scene::{scene_plan, BodyKind, PIN_ROWS};
use rapier3d::dynamics::RigidBodyHandle;

fn handles(n: u32) -> Vec<RigidBodyHandle> {
    (0..n).map(|i| RigidBodyHandle::from_raw_parts(i + 100, 0)).collect()
}

#[test]
fn register_returns_next_index() {
    let mut reg = RigidBodyRegistry::new();
    assert_eq!(reg.register(BodyKind::Ball, RigidBodyHandle::from_raw_parts(7, 0)), 0);
    assert_eq!(reg.register(BodyKind::Pin { row: 1, col: 0 }, RigidBodyHandle::from_raw_parts(8, 0)), 1);
    assert_eq!(reg.len(), 2);
    assert_eq!(reg.handle_of(0), RigidBodyHandle::from_raw_parts(7, 0));
    assert_eq!(reg.handle_of(1), RigidBodyHandle::from_raw_parts(8, 0));
    assert_eq!(reg.kind_of(1), BodyKind::Pin { row: 1, col: 0 });
}

#[test]
fn registry_built_in_plan_order_matches_scene() {
    let mut reg = RigidBodyRegistry::new();
    for (i, kind) in scene_plan(PIN_ROWS).into_iter().enumerate() {
        assert_eq!(reg.register(kind, RigidBodyHandle::from_raw_parts(i as u32, 0)), i);
    }
    assert!(reg.matches_scene(PIN_ROWS));
    assert!(!reg.matches_scene(4));
    assert_eq!(reg.kind_of(0), BodyKind::Ball);
    assert_eq!(reg.kind_of(reg.len() - 1), BodyKind::Floor);
}

#[test]
fn duplicate_registration_breaks_the_match() {
    let mut reg = RigidBodyRegistry::new();
    let plan = scene_plan(PIN_ROWS);
    for (i, kind) in plan.iter().enumerate() {
        reg.register(*kind, RigidBodyHandle::from_raw_parts(i as u32, 0));
    }
    reg.register(BodyKind::Floor, RigidBodyHandle::from_raw_parts(99, 0));
    assert!(!reg.matches_scene(PIN_ROWS));
}

#[test]
fn out_of_order_registration_breaks_the_match() {
    let mut reg = RigidBodyRegistry::new();
    reg.register(BodyKind::Floor, RigidBodyHandle::from_raw_parts(0, 0));
    reg.register(BodyKind::Ball, RigidBodyHandle::from_raw_parts(1, 0));
    assert!(!reg.matches_scene(0));
}

#[test]
fn from_handles_assigns_plan_indices() {
    let hs = handles(12);
    let reg = RigidBodyRegistry::from_handles(PIN_ROWS, &hs).unwrap();
    assert_eq!(reg.len(), 12);
    assert!(reg.matches_scene(PIN_ROWS));
    for i in 0..12 {
        assert_eq!(reg.handle_of(i), hs[i]);
    }
    assert_eq!(reg.kind_of(0), BodyKind::Ball);
    assert_eq!(reg.kind_of(11), BodyKind::Floor);
}

#[test]
fn from_handles_rejects_wrong_count() {
    assert!(RigidBodyRegistry::from_handles(PIN_ROWS, &handles(11)).is_none());
    assert!(RigidBodyRegistry::from_handles(PIN_ROWS, &handles(13)).is_none());
    assert!(RigidBodyRegistry::from_handles(0, &handles(2)).is_some());
}

#[test]
fn objects_match_their_bodies() {
    let reg = RigidBodyRegistry::from_handles(PIN_ROWS, &handles(12)).unwrap();
    let mut kinds = scene_plan(PIN_ROWS);
    kinds.pop();
    assert!(reg.matches_objects(&kinds));
    assert!(reg.matches_objects(&vec![]));
    assert!(reg.matches_objects(&scene_plan(PIN_ROWS)));
    kinds.swap(1, 2);
    assert!(!reg.matches_objects(&kinds));
    let mut too_many = scene_plan(PIN_ROWS);
    too_many.push(BodyKind::Ball);
    assert!(!reg.matches_objects(&too_many));
}
