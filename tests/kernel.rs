use not_pong::collision::is_colliding;
use not_pong::geometry::{Vec3, UNIT};
use not_pong::health::{Health, STARTING_HEALTH};
use not_pong::score::Score;
use not_pong::phase::{is_transition, phase_keys, transition_hook, AppState, Hook, InGameSet, Keys};
use not_pong::timer::{Timer, TimerMode};
use not_pong::world::{AlreadyFired, Collider, Entity, Role, SpaceshipShield, World};

fn entity(role: Role, x: i64, z: i64, radius: Option<u64>) -> Entity {
    Entity {
        id: 0,
        role,
        position: Vec3 { x, y: 0, z },
        velocity: Vec3 { x: 0, y: 0, z: 0 },
        acceleration: Vec3 { x: 0, y: 0, z: 0 },
        facing: Vec3 { x: 0, y: 0, z: 1000 },
        collider: radius.map(Collider::new),
        health: None,
        shield: None,
        cooldown: None,
        despawn_at_endgame: true,
    }
}

fn ship(x: i64, z: i64) -> Entity {
    Entity {
        health: Some(Health(STARTING_HEALTH)),
        ..entity(Role::Spaceship, x, z, Some(5 * UNIT as u64))
    }
}

fn find(w: &World, id: u64) -> Option<Entity> {
    w.entities.iter().copied().find(|e| e.id == id)
}

fn in_game() -> World {
    let mut w = World::new();
    w.state = AppState::InGame;
    w
}

#[test]
fn movement_moves_by_velocity_times_dt() {
    let mut w = World::new();
    let mut e = entity(Role::Asteroid, 100, -50, Some(1));
    e.velocity = Vec3 { x: 3, y: 0, z: -2 };
    let id = w.spawn(e).unwrap();
    w.advance(1000);
    let m = find(&w, id).unwrap();
    assert_eq!(m.position, Vec3 { x: 3100, y: 0, z: -2050 });
    assert_eq!(m.velocity, Vec3 { x: 3, y: 0, z: -2 });
}

#[test]
fn movement_zero_dt_changes_nothing() {
    let mut w = World::new();
    let mut e = entity(Role::Missile, 7, 8, Some(1));
    e.velocity = Vec3 { x: 10, y: 0, z: 10 };
    e.acceleration = Vec3 { x: 1, y: 0, z: 0 };
    let id = w.spawn(e).unwrap();
    let before = find(&w, id).unwrap();
    w.advance(0);
    assert_eq!(find(&w, id).unwrap(), before);
}

#[test]
fn movement_applies_acceleration_before_position() {
    let mut w = World::new();
    let mut e = entity(Role::Asteroid, 0, 0, None);
    e.acceleration = Vec3 { x: 1, y: 0, z: -1 };
    let id = w.spawn(e).unwrap();
    w.advance(10);
    let m = find(&w, id).unwrap();
    assert_eq!(m.velocity, Vec3 { x: 10, y: 0, z: -10 });
    assert_eq!(m.position, Vec3 { x: 100, y: 0, z: -100 });
}

#[test]
fn movement_entities_are_independent() {
    let mut w = World::new();
    let mut a = entity(Role::Asteroid, 0, 0, Some(1));
    a.velocity = Vec3 { x: 1, y: 0, z: 0 };
    let mut b = entity(Role::Asteroid, 0, 0, Some(1));
    b.velocity = Vec3 { x: 0, y: 0, z: 5 };
    let ia = w.spawn(a).unwrap();
    let ib = w.spawn(b).unwrap();
    w.advance(4);
    assert_eq!(find(&w, ia).unwrap().position, Vec3 { x: 4, y: 0, z: 0 });
    assert_eq!(find(&w, ib).unwrap().position, Vec3 { x: 0, y: 0, z: 20 });
}

#[test]
fn collision_overlap_lists_are_symmetric() {
    let mut w = World::new();
    let a = w.spawn(entity(Role::Asteroid, 0, 0, Some(UNIT as u64))).unwrap();
    let b = w.spawn(entity(Role::Asteroid, UNIT, 0, Some(UNIT as u64))).unwrap();
    let c = w.spawn(entity(Role::Missile, 10 * UNIT, 0, Some(UNIT as u64))).unwrap();
    let d = w.spawn(entity(Role::Missile, UNIT, UNIT / 2, Some(UNIT as u64))).unwrap();
    w.detect_collisions();
    let ids = [a, b, c, d];
    for &x in &ids {
        for &y in &ids {
            assert_eq!(
                w.colliding_entities(x).contains(&y),
                w.colliding_entities(y).contains(&x)
            );
        }
    }
    assert_eq!(w.colliding_entities(a), vec![b, d]);
    assert_eq!(w.colliding_entities(b), vec![a, d]);
    assert!(w.colliding_entities(c).is_empty());
    assert_eq!(w.colliding_entities(d), vec![a, b]);
}

#[test]
fn collision_at_radius_sum_does_not_count() {
    let a = entity(Role::Spaceship, 0, 0, Some(5 * UNIT as u64));
    let b = entity(Role::Asteroid, 6 * UNIT, 0, Some(UNIT as u64));
    assert!(!is_colliding(&a, &b));
    assert!(!is_colliding(&b, &a));
    let c = entity(Role::Asteroid, 6 * UNIT - 1, 0, Some(UNIT as u64));
    assert!(is_colliding(&a, &c));
    // a 3-4-5 triangle: distance exactly 5
    let p = entity(Role::Missile, 0, 0, Some(2));
    let q = entity(Role::Missile, 3, 4, Some(3));
    assert!(!is_colliding(&p, &q));
    let r = entity(Role::Missile, 3, 4, Some(4));
    assert!(is_colliding(&p, &r));
}

#[test]
fn collision_needs_a_collider_on_both() {
    let a = entity(Role::Spaceship, 0, 0, Some(5 * UNIT as u64));
    let b = entity(Role::ShieldDisplay, 0, 0, None);
    assert!(!is_colliding(&a, &b));
}

#[test]
fn detection_rebuilds_lists_every_tick() {
    let mut w = World::new();
    let mut e = entity(Role::Asteroid, 0, 0, Some(UNIT as u64));
    e.velocity = Vec3 { x: 1000, y: 0, z: 0 };
    let a = w.spawn(e).unwrap();
    let b = w.spawn(entity(Role::Asteroid, UNIT, 0, Some(UNIT as u64))).unwrap();
    w.detect_collisions();
    assert_eq!(w.colliding_entities(a), vec![b]);
    w.advance(10_000);
    w.detect_collisions();
    assert!(w.colliding_entities(a).is_empty());
    assert!(w.colliding_entities(b).is_empty());
}

#[test]
fn spawn_keeps_clearance_from_ship() {
    let mut w = World::new();
    w.spawn(ship(3 * UNIT, -2 * UNIT)).unwrap();
    let need = (5 * UNIT + 3 * UNIT) as i128;
    for _ in 0..300 {
        let id = w.spawn_asteroid().unwrap();
        let e = find(&w, id).unwrap();
        let dx = (e.position.x - 3 * UNIT) as i128;
        let dz = (e.position.z + 2 * UNIT) as i128;
        assert!(dx * dx + dz * dz >= need * need);
        assert!(-50 * UNIT <= e.position.x && e.position.x < 50 * UNIT);
        assert!(-50 * UNIT <= e.position.z && e.position.z < 50 * UNIT);
        assert_eq!(e.position.y, 0);
        assert!(e.velocity.x.abs() <= 5000 && e.velocity.z.abs() <= 5000);
        assert_eq!(e.velocity.y, 0);
        assert_eq!(e.role, Role::Asteroid);
        assert!(e.despawn_at_endgame);
        assert_eq!(e.collider, Some(Collider::new(UNIT as u64)));
    }
}

#[test]
fn spawn_positions_are_drawn_at_random() {
    let mut w = World::new();
    let mut xs = Vec::new();
    for _ in 0..20 {
        let id = w.spawn_asteroid().unwrap();
        xs.push(find(&w, id).unwrap().position);
    }
    assert!(xs.iter().any(|p| *p != xs[0]));
    assert!(xs.iter().any(|p| p.x != -50 * UNIT));
}

#[test]
fn spawn_at_rejects_point_near_ship() {
    let mut w = World::new();
    w.spawn(ship(0, 0)).unwrap();
    let near = Vec3 { x: 8 * UNIT - 1, y: 0, z: 0 };
    assert_eq!(w.spawn_asteroid_at(near, Vec3 { x: 0, y: 0, z: 0 }), None);
    assert_eq!(w.entities.len(), 1);
    let edge = Vec3 { x: 8 * UNIT, y: 0, z: 0 };
    let id = w.spawn_asteroid_at(edge, Vec3 { x: 1, y: 0, z: -1 }).unwrap();
    assert_eq!(find(&w, id).unwrap().position, edge);
}

#[test]
fn shield_absorbs_one_impact() {
    let mut w = in_game();
    let s = w.spawn(ship(0, 0)).unwrap();
    assert!(w.enable_shields(true).is_some());
    let rock = w.spawn(entity(Role::Asteroid, 2 * UNIT, 0, Some(UNIT as u64))).unwrap();
    w.detect_collisions();
    w.despawn_entities_stage();
    assert!(find(&w, rock).is_none());
    let p = find(&w, s).unwrap();
    assert_eq!(p.shield, None);
    assert_eq!(p.health, Some(Health(STARTING_HEALTH)));
    assert_eq!(w.count(Role::ShieldDisplay), 0);
    assert_eq!(w.next_state, None);
}

#[test]
fn last_hit_point_ends_the_game() {
    let mut w = in_game();
    let s = w.spawn(Entity { health: Some(Health(1)), ..ship(0, 0) }).unwrap();
    let rock = w.spawn(entity(Role::Asteroid, UNIT, UNIT, Some(UNIT as u64))).unwrap();
    w.detect_collisions();
    w.despawn_entities_stage();
    assert!(find(&w, rock).is_none());
    assert_eq!(find(&w, s).unwrap().health, Some(Health(0)));
    assert_eq!(w.next_state, Some(AppState::EndGame));
    w.apply_transition();
    assert_eq!(w.state, AppState::EndGame);
    assert_eq!(w.entities.len(), 0);
}

#[test]
fn unshielded_impact_costs_one_hit_point() {
    let mut w = in_game();
    let s = w.spawn(ship(0, 0)).unwrap();
    w.spawn(entity(Role::Asteroid, 0, 3 * UNIT, Some(UNIT as u64))).unwrap();
    w.detect_collisions();
    w.despawn_entities_stage();
    assert_eq!(find(&w, s).unwrap().health, Some(Health(STARTING_HEALTH - 1)));
    assert_eq!(w.next_state, None);
    assert_eq!(w.count(Role::Asteroid), 0);
}

#[test]
fn one_impact_resolved_per_tick() {
    let mut w = in_game();
    let s = w.spawn(ship(0, 0)).unwrap();
    let first = w.spawn(entity(Role::Asteroid, UNIT, 0, Some(UNIT as u64))).unwrap();
    let second = w.spawn(entity(Role::Asteroid, -UNIT, 0, Some(UNIT as u64))).unwrap();
    w.detect_collisions();
    w.despawn_entities_stage();
    assert!(find(&w, first).is_none());
    assert!(find(&w, second).is_some());
    assert_eq!(find(&w, s).unwrap().health, Some(Health(STARTING_HEALTH - 1)));
    w.detect_collisions();
    w.despawn_entities_stage();
    assert!(find(&w, second).is_none());
    assert_eq!(find(&w, s).unwrap().health, Some(Health(STARTING_HEALTH - 2)));
}

#[test]
fn missile_strike_destroys_both_and_frees_weapon() {
    let mut w = in_game();
    let s = w.spawn(ship(0, 0)).unwrap();
    w.spaceship_weapon_controls(true).unwrap();
    assert!(find(&w, s).unwrap().cooldown.is_some());
    let rock = w.spawn(entity(Role::Asteroid, 30 * UNIT, 0, Some(UNIT as u64))).unwrap();
    let m = w.spawn(entity(Role::Missile, 30 * UNIT, UNIT, Some(UNIT as u64))).unwrap();
    let far_rock = w.spawn(entity(Role::Asteroid, -30 * UNIT, 0, Some(UNIT as u64))).unwrap();
    w.detect_collisions();
    w.despawn_entities_stage();
    assert!(find(&w, rock).is_none());
    assert!(find(&w, m).is_none());
    assert!(find(&w, far_rock).is_some());
    assert_eq!(find(&w, s).unwrap().cooldown, None);
}

#[test]
fn stray_asteroid_is_despawned() {
    let mut w = in_game();
    let out = w.spawn(entity(Role::Asteroid, 50 * UNIT + 1, 0, Some(UNIT as u64))).unwrap();
    let edge = w.spawn(entity(Role::Asteroid, 50 * UNIT, -50 * UNIT, Some(UNIT as u64))).unwrap();
    let out_z = w.spawn(entity(Role::Asteroid, 0, -50 * UNIT - 1, Some(UNIT as u64))).unwrap();
    let far_missile_ok = w.spawn(entity(Role::Missile, 0, 50 * UNIT, Some(UNIT as u64))).unwrap();
    w.detect_collisions();
    w.despawn_entities_stage();
    assert!(find(&w, out).is_none());
    assert!(find(&w, out_z).is_none());
    assert!(find(&w, edge).is_some());
    assert!(find(&w, far_missile_ok).is_some());
}

#[test]
fn stray_missile_is_despawned_and_frees_weapon() {
    let mut w = in_game();
    let s = w.spawn(ship(0, 0)).unwrap();
    w.spaceship_weapon_controls(true).unwrap();
    let m = w.spawn(entity(Role::Missile, 40 * UNIT, 30 * UNIT + 1, Some(UNIT as u64))).unwrap();
    w.detect_collisions();
    w.despawn_entities_stage();
    assert!(find(&w, m).is_none());
    assert_eq!(find(&w, s).unwrap().cooldown, None);
}

#[test]
fn end_to_end_scenario() {
    let mut w = World::new();
    assert_eq!(w.state, AppState::Loading);
    w.request_transition(AppState::MainMenu);
    w.apply_transition();
    assert_eq!(w.state, AppState::MainMenu);
    let keys = Keys { n: true, ..Keys::default() };
    assert!(!w.frame(keys, None, 16));
    assert_eq!(w.state, AppState::InGame);
    assert_eq!(w.count(Role::Spaceship), 1);
    assert_eq!(w.count(Role::Asteroid), 5);

    let before = w.count(Role::Asteroid);
    w.spawn_asteroid_on_interval(400);
    assert_eq!(w.count(Role::Asteroid), before);
    w.spawn_asteroid_on_interval(400);
    assert_eq!(w.count(Role::Asteroid), before);
    w.spawn_asteroid_on_interval(400);
    assert!(w.spawn_timer.timer.just_finished);
    assert_eq!(w.count(Role::Asteroid), before + 1);

    let ship_id = w.entities[w.single(Role::Spaceship).unwrap()].id;
    assert!(w.spaceship_weapon_controls(true).is_some());
    assert_eq!(w.count(Role::Missile), 1);
    assert!(w.spaceship_weapon_controls(true).is_none());
    assert_eq!(w.count(Role::Missile), 1);
    w.weapon_timer(500);
    assert!(find(&w, ship_id).unwrap().cooldown.is_some());
    w.weapon_timer(299);
    assert!(find(&w, ship_id).unwrap().cooldown.is_some());
    w.weapon_timer(1);
    assert_eq!(find(&w, ship_id).unwrap().cooldown, None);
}

#[test]
fn mass_despawn_on_game_end() {
    let mut w = in_game();
    w.spawn(ship(0, 0)).unwrap();
    for _ in 0..40 {
        w.spawn_asteroid().unwrap();
    }
    let keep = w.spawn(Entity { despawn_at_endgame: false, ..entity(Role::Asteroid, 0, 0, None) }).unwrap();
    assert_eq!(w.count_despawn_tagged(), 41);
    w.request_transition(AppState::EndGame);
    w.apply_transition();
    assert_eq!(w.state, AppState::EndGame);
    assert_eq!(w.count_despawn_tagged(), 0);
    assert_eq!(w.entities.len(), 1);
    assert!(find(&w, keep).is_some());
}

#[test]
fn missile_leaves_ahead_of_ship() {
    let mut w = in_game();
    let s = w.spawn(ship(UNIT, 0)).unwrap();
    let m = w.spaceship_weapon_controls(true).unwrap();
    let e = find(&w, m).unwrap();
    assert_eq!(e.role, Role::Missile);
    assert_eq!(e.position, Vec3 { x: UNIT, y: 0, z: 7_500_000 });
    assert_eq!(e.velocity, Vec3 { x: 0, y: 0, z: 10_000 });
    assert_eq!(e.collider, Some(Collider::new(UNIT as u64)));
    assert_eq!(
        find(&w, s).unwrap().cooldown,
        Some(AlreadyFired { timer: Timer::new(800, TimerMode::Once) })
    );
}

#[test]
fn no_fire_without_key_or_ship() {
    let mut w = in_game();
    assert_eq!(w.spaceship_weapon_controls(true), None);
    w.spawn(ship(0, 0)).unwrap();
    assert_eq!(w.spaceship_weapon_controls(false), None);
    assert_eq!(w.count(Role::Missile), 0);
}

#[test]
fn thrust_and_turn() {
    let mut w = in_game();
    let s = w.spawn(ship(0, 0)).unwrap();
    let keys = Keys { w: true, ..Keys::default() };
    w.spaceship_movement_controls(keys, None);
    assert_eq!(find(&w, s).unwrap().velocity, Vec3 { x: 0, y: 0, z: 25_000 });
    let back = Keys { s: true, w: true, ..Keys::default() };
    w.spaceship_movement_controls(back, Some(Vec3 { x: 1000, y: 0, z: 0 }));
    let e = find(&w, s).unwrap();
    assert_eq!(e.facing, Vec3 { x: 1000, y: 0, z: 0 });
    assert_eq!(e.velocity, Vec3 { x: -25_000, y: 0, z: 25_000 });
}

#[test]
fn shield_expires_with_its_visual() {
    let mut w = in_game();
    let s = w.spawn(ship(0, 0)).unwrap();
    w.enable_shields(true).unwrap();
    assert_eq!(w.count(Role::ShieldDisplay), 1);
    assert!(w.enable_shields(true).is_none());
    assert_eq!(w.count(Role::ShieldDisplay), 1);
    w.disable_shields(1199);
    assert!(find(&w, s).unwrap().shield.is_some());
    w.disable_shields(1);
    assert_eq!(find(&w, s).unwrap().shield, None);
    assert_eq!(w.count(Role::ShieldDisplay), 0);
}

#[test]
fn shield_without_visual_stays() {
    let mut w = in_game();
    let s = w.spawn(Entity {
        shield: Some(SpaceshipShield { timer: Timer::new(10, TimerMode::Once) }),
        ..ship(0, 0)
    })
    .unwrap();
    w.disable_shields(20);
    assert!(find(&w, s).unwrap().shield.unwrap().timer.finished);
}

#[test]
fn ids_run_out() {
    let mut w = World::new();
    w.next_id = u64::MAX;
    assert_eq!(w.spawn_spaceship(), None);
    assert_eq!(w.spawn_asteroid(), None);
    assert!(w.entities.is_empty());
}

#[test]
fn spaceship_starts_at_origin() {
    let mut w = World::new();
    let id = w.spawn_spaceship().unwrap();
    let e = find(&w, id).unwrap();
    assert_eq!(e.position, Vec3::zero());
    assert_eq!(e.health, Some(Health(5)));
    assert_eq!(e.collider, Some(Collider::new(5 * UNIT as u64)));
    assert!(e.despawn_at_endgame);
}

#[test]
fn tick_runs_only_in_game() {
    let mut w = World::new();
    w.state = AppState::Paused;
    let mut e = entity(Role::Asteroid, 0, 0, Some(1));
    e.velocity = Vec3 { x: 5, y: 0, z: 0 };
    let id = w.spawn(e).unwrap();
    w.run_tick(Keys::default(), None, 100);
    assert_eq!(find(&w, id).unwrap().position.x, 0);
    w.state = AppState::InGame;
    w.run_tick(Keys::default(), None, 100);
    assert_eq!(find(&w, id).unwrap().position.x, 500);
}

#[test]
fn pause_and_resume() {
    let mut w = in_game();
    let esc = Keys { escape: true, ..Keys::default() };
    w.frame(esc, None, 16);
    assert_eq!(w.state, AppState::Paused);
    w.frame(Keys { u: true, ..Keys::default() }, None, 16);
    assert_eq!(w.state, AppState::InGame);
    assert!(!w.frame(Keys::default(), None, 16));
    w.state = AppState::Paused;
    assert!(w.frame(Keys { q: true, ..Keys::default() }, None, 16));
}

#[test]
fn phase_graph_edges() {
    assert!(is_transition(AppState::Loading, AppState::MainMenu));
    assert!(is_transition(AppState::MainMenu, AppState::InGame));
    assert!(is_transition(AppState::InGame, AppState::Paused));
    assert!(is_transition(AppState::Paused, AppState::InGame));
    assert!(is_transition(AppState::InGame, AppState::EndGame));
    assert!(is_transition(AppState::EndGame, AppState::MainMenu));
    assert!(!is_transition(AppState::MainMenu, AppState::EndGame));
    assert!(!is_transition(AppState::Paused, AppState::EndGame));
    assert_eq!(transition_hook(AppState::MainMenu, AppState::InGame), Hook::SetupGame);
    assert_eq!(transition_hook(AppState::InGame, AppState::EndGame), Hook::Teardown);
    assert_eq!(transition_hook(AppState::Paused, AppState::InGame), Hook::Nothing);
    assert_eq!(AppState::default(), AppState::Loading);
}

#[test]
fn request_off_the_graph_is_dropped() {
    let mut w = World::new();
    w.state = AppState::MainMenu;
    w.request_transition(AppState::Paused);
    w.apply_transition();
    assert_eq!(w.state, AppState::MainMenu);
    assert_eq!(w.next_state, None);
}

#[test]
fn last_request_wins() {
    let mut w = in_game();
    w.request_transition(AppState::Paused);
    w.request_transition(AppState::EndGame);
    w.apply_transition();
    assert_eq!(w.state, AppState::EndGame);
}

#[test]
fn menu_keys() {
    let r = phase_keys(AppState::MainMenu, Keys { n: true, q: true, ..Keys::default() });
    assert_eq!(r.next, Some(AppState::InGame));
    assert!(r.exit);
    let r = phase_keys(AppState::EndGame, Keys { m: true, ..Keys::default() });
    assert_eq!(r.next, Some(AppState::MainMenu));
    assert!(!r.exit);
    let r = phase_keys(AppState::Loading, Keys { n: true, q: true, ..Keys::default() });
    assert_eq!(r.next, None);
    assert!(!r.exit);
}

#[test]
fn stages_run_in_order() {
    let p = InGameSet::pipeline();
    assert_eq!(
        p,
        vec![
            InGameSet::UserInput,
            InGameSet::EntityUpdates,
            InGameSet::CollisionDetection,
            InGameSet::DespawnEntities
        ]
    );
    assert!(InGameSet::UserInput.runs_before(InGameSet::EntityUpdates));
    assert!(InGameSet::CollisionDetection.runs_before(InGameSet::DespawnEntities));
    assert!(!InGameSet::DespawnEntities.runs_before(InGameSet::UserInput));
}

#[test]
fn repeating_timer_wraps() {
    let mut t = Timer::new(1000, TimerMode::Repeating);
    t.tick(999);
    assert!(!t.just_finished);
    t.tick(1002);
    assert!(t.just_finished && t.finished);
    assert_eq!(t.elapsed, 1);
    t.tick(5);
    assert!(!t.finished);
}

#[test]
fn once_timer_stays_finished() {
    let mut t = Timer::new(800, TimerMode::Once);
    t.tick(900);
    assert!(t.finished && t.just_finished);
    assert_eq!(t.elapsed, 800);
    t.tick(10);
    assert!(t.finished && !t.just_finished);
}

#[test]
fn health_arithmetic() {
    let h = Health::default();
    assert_eq!(h.value(), 5);
    assert_eq!(h.add(2).value(), 7);
    assert_eq!(h.sub(5).value(), 0);
    let mut g = Health(3);
    g.sub_assign(1);
    assert!(g.eq(&2));
    g.add_assign(4);
    assert_eq!(g.partial_cmp(&6), Some(std::cmp::Ordering::Equal));
    assert_eq!(g.partial_cmp(&7), Some(std::cmp::Ordering::Less));
    assert_eq!(g.partial_cmp(&1), Some(std::cmp::Ordering::Greater));
}

#[test]
fn score_accumulates() {
    let mut s = Score::new();
    s.score(3);
    s.score(4);
    assert_eq!(s.value(), 7);
}

#[test]
fn spawn_gives_up_when_no_point_is_clear() {
    let mut w = World::new();
    let huge = Entity {
        collider: Some(Collider::new(200 * UNIT as u64)),
        ..ship(0, 0)
    };
    w.spawn(huge).unwrap();
    assert_eq!(w.spawn_asteroid(), None);
    assert_eq!(w.count(Role::Asteroid), 0);
    w.spawn_initial_asteroids();
    assert_eq!(w.count(Role::Asteroid), 0);
}

#[test]
fn quit_from_main_menu() {
    let mut w = World::new();
    w.state = AppState::MainMenu;
    assert!(w.frame(Keys { q: true, ..Keys::default() }, None, 16));
    assert_eq!(w.state, AppState::MainMenu);
    assert!(w.entities.is_empty());
}

#[test]
fn initial_batch_is_complete_without_ship() {
    let mut w = World::new();
    w.spawn_initial_asteroids();
    assert_eq!(w.count(Role::Asteroid), 5);
    assert_eq!(w.next_id, 5);
}

#[test]
fn interval_spawn_is_owed_without_ship() {
    let mut w = World::new();
    w.spawn_asteroid_on_interval(999);
    assert_eq!(w.count(Role::Asteroid), 0);
    w.spawn_asteroid_on_interval(3001);
    assert!(w.spawn_timer.timer.just_finished);
    assert_eq!(w.spawn_timer.timer.elapsed, 0);
    assert_eq!(w.count(Role::Asteroid), 1);
}

#[test]
fn spawn_at_refuses_nothing_without_ship() {
    let mut w = World::new();
    let p = Vec3 { x: -50 * UNIT, y: 0, z: 50 * UNIT - 1 };
    let id = w.spawn_asteroid_at(p, Vec3 { x: 0, y: 0, z: 0 }).unwrap();
    assert_eq!(find(&w, id).unwrap().position, p);
}

#[test]
fn once_timer_finishes_exactly_at_duration() {
    let mut t = Timer::new(800, TimerMode::Once);
    t.tick(799);
    assert!(!t.finished);
    assert_eq!(t.elapsed, 799);
    t.tick(1);
    assert!(t.finished);
    assert_eq!(t.elapsed, 800);
}
