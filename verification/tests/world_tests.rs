use slash_mania::chart::{Direction, Note, NoteType};
use slash_mania::components::{Drawable, Transform, Vec3};
use slash_mania::world::{Facet, World};

fn test_note() -> Note {
    Note {
        line_layer: 0,
        line_index: 0,
        note_type: NoteType::Red,
        time: 0,
        direction: Direction::Top,
    }
}

fn test_transform(z: i64) -> Transform {
    Transform::new(Vec3::new(0, 0, z), 0, Vec3::new(300, 300, 300))
}

#[test]
fn create_issues_fresh_handles() {
    let mut w = World::new();
    let a = w.create();
    let b = w.create();
    let c = w.create();
    assert_ne!(a, b);
    assert_ne!(b, c);
    assert_ne!(a, c);
    assert_eq!(w.entities.len(), 3);
}

#[test]
fn attach_and_get_round_trip() {
    let mut w = World::new();
    let h = w.create();
    assert!(w.attach(h, Facet::Spatial(test_transform(7_000))));
    assert!(w.attach(h, Facet::NoteTag(test_note())));
    let t = w.get_transform(h).unwrap();
    assert_eq!(t.position.z, 7_000);
    let n = w.get_note(h).unwrap();
    assert!(matches!(n.note_type, NoteType::Red));
    assert!(w.get_drawable(h).is_none());
    assert!(w.get_obstacle(h).is_none());
}

#[test]
fn attach_to_dead_handle_is_refused() {
    let mut w = World::new();
    let h = w.create();
    assert!(!w.attach(h + 1, Facet::Spatial(test_transform(0))));
    assert!(w.get_transform(h).is_none());
}

#[test]
fn mark_is_idempotent() {
    let mut w = World::new();
    let h = w.create();
    assert!(w.mark(h));
    assert!(!w.mark(h));
    assert!(!w.mark(h));
    assert_eq!(w.remove.0.len(), 1);
    assert_eq!(w.remove.0[0], h);
}

#[test]
fn drain_removals_deletes_marked_entities_only() {
    let mut w = World::new();
    let a = w.create();
    let b = w.create();
    let c = w.create();
    w.mark(b);
    let drained = w.drain_removals();
    assert_eq!(drained, vec![b]);
    assert_eq!(w.remove.0.len(), 0);
    assert_eq!(w.entities.len(), 2);
    assert_eq!(w.entities[0].handle, a);
    assert_eq!(w.entities[1].handle, c);
}

#[test]
fn destroyed_handles_are_never_reused() {
    let mut w = World::new();
    let a = w.create();
    w.mark(a);
    w.drain_removals();
    let b = w.create();
    assert_ne!(a, b);
    assert_eq!(w.entities.len(), 1);
}

#[test]
fn draw_list_skips_disabled_and_incomplete_entities() {
    let mut w = World::new();
    let shown = w.create();
    w.attach(shown, Facet::Spatial(test_transform(1_000)));
    w.attach(
        shown,
        Facet::Visual(Drawable::new(
            "block".to_string(),
            "note_red".to_string(),
            "simple".to_string(),
        )),
    );
    let hidden = w.create();
    w.attach(hidden, Facet::Spatial(test_transform(50_000)));
    let mut d = Drawable::new(
        "block".to_string(),
        "note_blue".to_string(),
        "simple".to_string(),
    );
    d.enabled = false;
    w.attach(hidden, Facet::Visual(d));
    let bare = w.create();
    w.attach(bare, Facet::Spatial(test_transform(0)));
    assert_eq!(w.draw_list(), vec![shown]);
}
