use slash_mania::chart::{Direction, Note, NoteType, Obstacle, ObstacleType};
use slash_mania::components::{Drawable, Transform, Vec3};
use slash_mania::engine::{NoteSystem, ObstacleSystem};
use slash_mania::sound::SoundEvent;
use slash_mania::world::{Facet, World};

fn note(kind: NoteType) -> Note {
    Note {
        line_layer: 0,
        line_index: 0,
        note_type: kind,
        time: 0,
        direction: Direction::Top,
    }
}

fn obstacle(duration: i64) -> Obstacle {
    Obstacle {
        line_index: 0,
        obstacle_type: ObstacleType::Wall,
        width: 1,
        time: 0,
        duration,
    }
}

fn transform_at(z: i64) -> Transform {
    Transform::new(Vec3::new(0, 0, z), 0, Vec3::new(300, 300, 300))
}

fn drawable() -> Drawable {
    Drawable::new(
        "block".to_string(),
        "note_red".to_string(),
        "simple".to_string(),
    )
}

fn place(w: &mut World, kind: NoteType, z: i64) -> u64 {
    let h = w.create();
    w.attach(h, Facet::Spatial(transform_at(z)));
    w.attach(h, Facet::NoteTag(note(kind)));
    w.attach(h, Facet::Visual(drawable()));
    h
}

fn note_z(w: &World, h: u64) -> i64 {
    w.get_transform(h).unwrap().position.z
}

#[test]
fn first_tick_applies_no_motion() {
    let mut w = World::new();
    let a = place(&mut w, NoteType::Red, 30_000);
    let b = place(&mut w, NoteType::Blue, 10_000);
    let mut sys = NoteSystem::new();
    sys.run(1_000, &mut w);
    assert_eq!(note_z(&w, a), 30_000);
    assert_eq!(note_z(&w, b), 10_000);
    assert!(w.remove.0.is_empty());
    assert!(w.sound_events.queue.is_empty());
    assert_eq!(sys.last_update_time_ms, 1_000);
}

#[test]
fn motion_is_scaled_by_measured_delta() {
    let mut w = World::new();
    let h = place(&mut w, NoteType::Red, 30_000);
    let mut sys = NoteSystem::new();
    sys.run(1_000, &mut w);
    // 600 ms elapsed: 600/60 = 10 units = 10_000 thousandths.
    sys.run(1_600, &mut w);
    assert_eq!(note_z(&w, h), 20_000);
    // A backward clock is clamped: no backward motion.
    sys.run(1_000, &mut w);
    assert_eq!(note_z(&w, h), 20_000);
}

#[test]
fn visibility_thresholds_are_exclusive_on_the_hidden_side() {
    let mut w = World::new();
    // After a 0 ms delta the positions are unchanged and visibility is
    // evaluated at exactly these depths.
    let far = place(&mut w, NoteType::Red, 41_000);
    let near = place(&mut w, NoteType::Red, 39_000);
    let boundary = place(&mut w, NoteType::Red, 40_000);
    let mut sys = NoteSystem::new();
    sys.run(500, &mut w);
    sys.run(500, &mut w);
    assert!(!w.get_drawable(far).unwrap().enabled);
    assert!(w.get_drawable(near).unwrap().enabled);
    assert!(w.get_drawable(boundary).unwrap().enabled);
}

#[test]
fn crossed_note_is_marked_once_with_one_slash_cue() {
    let mut w = World::new();
    let h = place(&mut w, NoteType::Red, 5_010);
    let mut sys = NoteSystem::new();
    sys.run(1_000, &mut w);
    // 1 ms: 16 thousandths of a unit; 5_010 - 16 = 4_994 < 5_000.
    sys.run(1_001, &mut w);
    assert_eq!(note_z(&w, h), 4_994);
    assert_eq!(w.remove.0, vec![h]);
    assert_eq!(w.sound_events.queue.len(), 1);
    match &w.sound_events.queue[0] {
        SoundEvent::AddSound(path, name) => {
            assert_eq!(path, "./assets/sounds/slash.mp3");
            assert!(name.is_none());
        }
        _ => panic!("expected a play event"),
    }
    // Later ticks keep the mark and the cue unique: marking is idempotent.
    sys.run(1_002, &mut w);
    sys.run(1_003, &mut w);
    assert_eq!(w.remove.0, vec![h]);
    assert_eq!(w.sound_events.queue.len(), 1);
}

#[test]
fn uncrossed_note_is_not_marked() {
    let mut w = World::new();
    let h = place(&mut w, NoteType::Blue, 5_020);
    let mut sys = NoteSystem::new();
    sys.run(1_000, &mut w);
    sys.run(1_001, &mut w);
    assert_eq!(note_z(&w, h), 5_004);
    assert!(w.remove.0.is_empty());
    assert!(w.sound_events.queue.is_empty());
}

#[test]
fn mine_crossing_marks_without_sound() {
    let mut w = World::new();
    let h = place(&mut w, NoteType::Mine, -4_990);
    let mut sys = NoteSystem::new();
    sys.run(1_000, &mut w);
    // Mines live until they pass -5 units; at -4_990 - 16 = -5_006 the mine
    // is marked, silently.
    sys.run(1_001, &mut w);
    assert_eq!(w.remove.0, vec![h]);
    assert!(w.sound_events.queue.is_empty());
}

#[test]
fn mine_is_not_marked_at_the_regular_plane() {
    let mut w = World::new();
    let h = place(&mut w, NoteType::Mine, 4_000);
    let mut sys = NoteSystem::new();
    sys.run(1_000, &mut w);
    sys.run(1_001, &mut w);
    // A regular note at this depth would be gone; a mine survives until the
    // mirror plane on the other side.
    assert_eq!(note_z(&w, h), 3_984);
    assert!(w.remove.0.is_empty());
}

#[test]
fn obstacle_is_removed_exactly_when_its_duration_has_passed() {
    let mut w = World::new();
    // An obstacle lasting 120 ms is removed exactly when z < -120 units.
    let h = w.create();
    w.attach(h, Facet::Spatial(transform_at(-119_990)));
    w.attach(h, Facet::ObstacleTag(obstacle(120_000)));
    let mut sys = ObstacleSystem::new();
    sys.run(1_000, &mut w);
    sys.run(1_000, &mut w);
    // Zero delta: still at -119_990 > -120_000, not removed yet.
    assert!(w.remove.0.is_empty());
    sys.run(1_001, &mut w);
    // -119_990 - 16 = -120_006 < -120_000: removed now, silently.
    assert_eq!(w.remove.0, vec![h]);
    assert!(w.sound_events.queue.is_empty());
}

#[test]
fn obstacle_exactly_on_the_trailing_plane_survives() {
    let mut w = World::new();
    let h = w.create();
    w.attach(h, Facet::Spatial(transform_at(-120_000)));
    w.attach(h, Facet::ObstacleTag(obstacle(120_000)));
    let mut sys = ObstacleSystem::new();
    sys.run(1_000, &mut w);
    sys.run(1_000, &mut w);
    // The bound is strict: z == -duration is not yet past the player.
    assert!(w.remove.0.is_empty());
}

#[test]
fn first_obstacle_tick_applies_no_motion() {
    let mut w = World::new();
    let h = w.create();
    w.attach(h, Facet::Spatial(transform_at(9_000)));
    w.attach(h, Facet::ObstacleTag(obstacle(60_000)));
    let mut sys = ObstacleSystem::new();
    sys.run(2_000, &mut w);
    assert_eq!(w.get_transform(h).unwrap().position.z, 9_000);
    assert!(w.remove.0.is_empty());
}
