use chrono::{Duration, Utc};
use chronovox::{
    Cartesian, ChronoEvent, EntityState, EventKind, TimeDelta, Timeline, UvoxId,
    ROOM_TEMPERATURE, STANDARD_PRESSURE,
};

/// A fixed-point scalar from a decimal value.
fn fx(v: f64) -> i64 {
    (v * 1_000_000.0).round() as i64
}

fn cart(x: f64, y: f64, z: f64) -> Cartesian {
    Cartesian { x: fx(x), y: fx(y), z: fx(z) }
}

fn make_event(anchor: &UvoxId, nanos: i64, kind: EventKind) -> ChronoEvent {
    let start = Utc::now();
    let end = start + Duration::nanoseconds(nanos);
    let t = tdt::core::TimeDelta::between(start, end);
    ChronoEvent {
        id: *anchor,
        t: TimeDelta::from_nanos(t.ticks("nanoseconds")),
        kind,
        payload: None,
    }
}

fn at(id: UvoxId, tick: i64, kind: EventKind) -> ChronoEvent {
    ChronoEvent::new(id, TimeDelta::from_nanos(tick), kind)
}

#[test]
fn playback_handles_temp_and_pressure_changes() {
    let id = UvoxId::earth(0, 0, 0);
    let mut timeline = Timeline::new();
    let tick = |n: i64| TimeDelta::from_nanos(tdt::core::TimeDelta::from_ticks(n, "nanoseconds").ticks("nanoseconds"));

    timeline.push(ChronoEvent { id, t: tick(0), kind: EventKind::Spawn, payload: None });
    timeline.push(ChronoEvent { id, t: tick(1), kind: EventKind::TemperatureChange { delta_c: fx(10.0) }, payload: None });
    timeline.push(ChronoEvent { id, t: tick(2), kind: EventKind::PressureChange { delta_pa: fx(500.0) }, payload: None });
    timeline.push(ChronoEvent { id, t: tick(3), kind: EventKind::Teleport { new_pos: cart(5.0, -2.0, 1.0) }, payload: None });

    let state_map = timeline.playback();
    let state = state_map.get(&id).expect("entity state should exist");

    assert!(state.alive);
    assert_eq!(state.temperature, fx(30.0));
    assert_eq!(state.pressure, fx(101_825.0));
    assert_eq!(state.pos.x, fx(5.0));
    assert_eq!(state.pos.y, fx(-2.0));
    assert_eq!(state.pos.z, fx(1.0));
}

#[test]
fn playback_applies_spawn_move_despawn() {
    let mut timeline = Timeline::new();
    let anchor = UvoxId::earth(6_371_000_000, 0, 0);

    timeline.insert(make_event(&anchor, 1000, EventKind::Spawn));
    timeline.insert(make_event(&anchor, 2000, EventKind::Move { offset: cart(1.0, 2.0, 0.0) }));
    timeline.insert(make_event(&anchor, 3000, EventKind::Despawn));

    let state = timeline.playback();
    let entity = state.get(&anchor).expect("entity missing");
    assert_eq!(entity.pos.x, fx(1.0));
    assert_eq!(entity.pos.y, fx(2.0));
    assert_eq!(entity.pos.z, fx(0.0));
    assert_eq!(entity.alive, false);
}

#[test]
fn interpolates_halfway_between_moves() {
    let mut timeline = Timeline::new();
    let anchor = UvoxId::earth(6_371_000_000, 0, 0);

    timeline.insert(make_event(&anchor, 1000, EventKind::Spawn));
    timeline.insert(make_event(&anchor, 2000, EventKind::Move { offset: cart(0.0, 0.0, 0.0) }));
    timeline.insert(make_event(&anchor, 3000, EventKind::Move { offset: cart(10.0, 0.0, 0.0) }));

    let state = timeline.playback_until(2500);
    let e = state.get(&anchor).unwrap();
    let x = e.pos.x as f64 / 1_000_000.0;
    assert!((x - 5.0).abs() < 1e-6, "expected ~5.0, got {}", x);
    assert_eq!(e.pos.y, 0);
    assert_eq!(e.pos.z, 0);
}

#[test]
fn playback_until_stops_at_cutoff() {
    let mut timeline = Timeline::new();
    let anchor = UvoxId::earth(6_371_000_000, 0, 0);

    timeline.insert(make_event(&anchor, 1000, EventKind::Spawn));
    timeline.insert(make_event(&anchor, 3000, EventKind::Despawn));
    timeline.insert(make_event(&anchor, 2000, EventKind::Move { offset: cart(1.0, 0.0, 0.0) }));

    let state_early = timeline.playback_until(1500);
    let e1 = state_early.get(&anchor).unwrap();
    assert_eq!(e1.pos.x, fx(0.0));
    assert!(e1.alive);

    let state_mid = timeline.playback_until(2500);
    let e2 = state_mid.get(&anchor).unwrap();
    assert_eq!(e2.pos.x, fx(1.0));
    assert!(e2.alive);

    let state_end = timeline.playback_until(4000);
    let e3 = state_end.get(&anchor).unwrap();
    assert_eq!(e3.pos.x, fx(1.0));
    assert!(!e3.alive);
    assert_eq!((e1.pos.y, e1.pos.z, e2.pos.y, e2.pos.z, e3.pos.y, e3.pos.z), (0, 0, 0, 0, 0, 0));
}

#[test]
fn spawn_creates_default_state() {
    let a = UvoxId::earth(1, 2, 3);
    let mut t = Timeline::new();
    t.push(at(a, 0, EventKind::Spawn));
    let s = *t.playback().get(&a).unwrap();
    assert_eq!(
        s,
        EntityState { pos: Cartesian::origin(), alive: true, temperature: fx(20.0), pressure: fx(101_325.0) }
    );
    assert_eq!(s.temperature, ROOM_TEMPERATURE);
    assert_eq!(s.pressure, STANDARD_PRESSURE);
}

#[test]
fn events_for_unspawned_entity_are_ignored() {
    let a = UvoxId::earth(1, 0, 0);
    let b = UvoxId::earth(2, 0, 0);
    let mut t = Timeline::new();
    t.push(at(a, 0, EventKind::Spawn));
    t.push(at(b, 1, EventKind::Move { offset: cart(1.0, 1.0, 1.0) }));
    t.push(at(b, 2, EventKind::Despawn));
    t.push(at(b, 3, EventKind::Teleport { new_pos: cart(7.0, 7.0, 7.0) }));
    t.push(at(b, 4, EventKind::TemperatureChange { delta_c: fx(5.0) }));
    t.push(at(b, 5, EventKind::PressureChange { delta_pa: fx(5.0) }));
    let m = t.playback();
    assert!(!m.contains(&b));
    assert_eq!(m.get(&a).unwrap().pos, Cartesian::origin());
    let m2 = t.playback_until(10);
    assert!(!m2.contains(&b));
    assert!(m2.contains(&a));
}

#[test]
fn respawn_resets_state() {
    let a = UvoxId::earth(1, 0, 0);
    let mut t = Timeline::new();
    t.insert(at(a, 1, EventKind::Spawn));
    t.insert(at(a, 2, EventKind::Move { offset: cart(3.0, 4.0, 5.0) }));
    t.insert(at(a, 3, EventKind::Despawn));
    t.insert(at(a, 4, EventKind::Spawn));
    let s = *t.playback().get(&a).unwrap();
    assert_eq!(s.pos, Cartesian::origin());
    assert!(s.alive);
}

#[test]
fn extension_kinds_have_no_effect() {
    let a = UvoxId::earth(1, 0, 0);
    let mut t = Timeline::new();
    t.push(at(a, 0, EventKind::Spawn));
    t.push(at(a, 1, EventKind::Radiation { dose: fx(0.05) }));
    t.push(at(a, 2, EventKind::Shock { g: fx(9.81) }));
    t.push(at(a, 3, EventKind::Degrade { rate: fx(0.01) }));
    t.push(at(a, 4, EventKind::Leak { severity: fx(0.5) }));
    t.push(at(a, 5, EventKind::Fracture { plane: "X-Y".to_string() }));
    t.push(at(a, 6, EventKind::Bond { with: 7 }));
    t.push(at(a, 7, EventKind::Unbond { from: 7 }));
    t.push(at(a, 8, EventKind::Transfer { to: 7, what: "water".into(), amount: fx(3.14) }));
    t.push(at(a, 9, EventKind::Custom("Magic".into())));
    let s = *t.playback().get(&a).unwrap();
    assert_eq!(s, EntityState { pos: Cartesian::origin(), alive: true, temperature: ROOM_TEMPERATURE, pressure: STANDARD_PRESSURE });
}

#[test]
fn moves_accumulate_and_saturate() {
    let a = UvoxId::earth(1, 0, 0);
    let mut t = Timeline::new();
    t.push(at(a, 0, EventKind::Spawn));
    t.push(at(a, 1, EventKind::Move { offset: Cartesian::new(i64::MAX, -3, 4) }));
    t.push(at(a, 2, EventKind::Move { offset: Cartesian::new(5, i64::MIN, 6) }));
    t.push(at(a, 3, EventKind::TemperatureChange { delta_c: -fx(25.5) }));
    let s = *t.playback().get(&a).unwrap();
    assert_eq!(s.pos, Cartesian::new(i64::MAX, i64::MIN, 10));
    assert_eq!(s.temperature, -fx(5.5));
}

#[test]
fn interpolation_goes_toward_a_lower_offset() {
    let a = UvoxId::earth(1, 0, 0);
    let mut t = Timeline::new();
    t.insert(at(a, 0, EventKind::Spawn));
    t.insert(at(a, 100, EventKind::Move { offset: Cartesian::new(10, 0, -10) }));
    t.insert(at(a, 200, EventKind::Move { offset: Cartesian::new(-10, 7, 20) }));
    let s = *t.playback_until(125).get(&a).unwrap();
    // a quarter of the way from the first offset to the second, rounded toward the first
    assert_eq!(s.pos, Cartesian::new(5, 1, -3));
    let at_first = *t.playback_until(100).get(&a).unwrap();
    assert_eq!(at_first.pos, Cartesian::new(10, 0, -10));
}

#[test]
fn no_interpolation_without_two_moves() {
    let a = UvoxId::earth(1, 0, 0);
    let b = UvoxId::earth(2, 0, 0);
    let mut t = Timeline::new();
    t.insert(at(a, 0, EventKind::Spawn));
    t.insert(at(b, 0, EventKind::Spawn));
    t.insert(at(a, 10, EventKind::Move { offset: Cartesian::new(4, 0, 0) }));
    t.insert(at(a, 20, EventKind::Teleport { new_pos: Cartesian::new(100, 0, 0) }));
    t.insert(at(b, 20, EventKind::TemperatureChange { delta_c: 1 }));
    t.insert(at(b, 30, EventKind::Move { offset: Cartesian::new(50, 0, 0) }));
    // a pending teleport: no interpolation
    assert_eq!(t.playback_until(15).get(&a).unwrap().pos, Cartesian::new(4, 0, 0));
    // a move preceded by a temperature change: no interpolation
    assert_eq!(t.playback_until(25).get(&b).unwrap().pos, Cartesian::origin());
}

#[test]
fn interpolation_only_touches_the_crossing_entity() {
    let a = UvoxId::earth(1, 0, 0);
    let b = UvoxId::earth(2, 0, 0);
    let mut t = Timeline::new();
    t.insert(at(a, 0, EventKind::Spawn));
    t.insert(at(b, 0, EventKind::Spawn));
    t.insert(at(b, 5, EventKind::Move { offset: Cartesian::new(1, 1, 1) }));
    t.insert(at(a, 10, EventKind::Move { offset: Cartesian::new(0, 0, 0) }));
    t.insert(at(b, 15, EventKind::Move { offset: Cartesian::new(9, 9, 9) }));
    t.insert(at(a, 20, EventKind::Move { offset: Cartesian::new(100, 0, 0) }));
    // the first event past 12 is b's move: b is interpolated, a keeps its applied state
    let m = t.playback_until(12);
    assert_eq!(m.get(&a).unwrap().pos, Cartesian::new(0, 0, 0));
    assert_eq!(m.get(&b).unwrap().pos, Cartesian::new(6, 6, 6));
}
