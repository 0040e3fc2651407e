use slash_mania::chart::{Direction, Note, NoteType, Obstacle, ObstacleType, ParsedSong};
use slash_mania::engine::{NoteSystem, ObstacleSystem};
use slash_mania::songs::{init_song, place_note, place_obstacle, start_song};
use slash_mania::sound::SoundEvent;
use slash_mania::world::World;

fn red_note_origin() -> Note {
    Note {
        line_layer: 0,
        line_index: 0,
        note_type: NoteType::Red,
        time: 0,
        direction: Direction::Top,
    }
}

#[test]
fn placed_note_follows_the_layout_formula() {
    let mut w = World::new();
    let n = Note {
        line_layer: 2,
        line_index: 3,
        note_type: NoteType::Blue,
        time: 600_000, // 600 ms
        direction: Direction::Left,
    };
    place_note(&mut w, n);
    let h = w.entities[0].handle;
    let t = w.get_transform(h).unwrap();
    assert_eq!(t.position.x, 1_000 - 3 * 700); // -1.1 units
    assert_eq!(t.position.y, 1_000 + 2 * 600); // 2.2 units
    assert_eq!(t.position.z, 600_000 / 60 + 5_000); // 15.0 units
    assert_eq!(t.rotation, -1_570); // left swipe: minus a quarter turn
    assert_eq!(t.scale.x, 300);
    let d = w.get_drawable(h).unwrap();
    assert_eq!(d.model, "block");
    assert_eq!(d.texture, "note_blue");
    assert_eq!(d.shader, "simple");
    assert!(d.enabled);
}

#[test]
fn placed_mine_gets_its_own_model_and_texture() {
    let mut w = World::new();
    let mut n = red_note_origin();
    n.note_type = NoteType::Mine;
    place_note(&mut w, n);
    let d = w.get_drawable(w.entities[0].handle).unwrap();
    assert_eq!(d.model, "mine");
    assert_eq!(d.texture, "mine");
}

#[test]
fn placed_wall_follows_the_layout_formula() {
    let mut w = World::new();
    let o = Obstacle {
        line_index: 1,
        obstacle_type: ObstacleType::Wall,
        width: 2,
        time: 1_200_000,     // 1200 ms
        duration: 2_400_000, // 2400 ms
    };
    place_obstacle(&mut w, o);
    let h = w.entities[0].handle;
    let t = w.get_transform(h).unwrap();
    assert_eq!(t.position.x, 2_000 - 1_500);
    assert_eq!(t.position.y, 2_000);
    // Leading edge at time/60 + 5, midpoint one half-length further out.
    assert_eq!(t.position.z, 1_200_000 / 60 + 5_000 + 2_400_000 / 120);
    assert_eq!(t.scale.x, 2 * 300);
    assert_eq!(t.scale.y, 2_000);
    assert_eq!(t.scale.z, 2_400_000 / 60);
    let d = w.get_drawable(h).unwrap();
    assert_eq!(d.model, "cube");
    assert_eq!(d.texture, "obstacle");
    assert_eq!(d.shader, "wall");
}

#[test]
fn placed_ceiling_follows_the_layout_formula() {
    let mut w = World::new();
    let o = Obstacle {
        line_index: 0,
        obstacle_type: ObstacleType::Ceiling,
        width: 3,
        time: 0,
        duration: 600_000,
    };
    place_obstacle(&mut w, o);
    let t = w.get_transform(w.entities[0].handle).unwrap();
    assert_eq!(t.position.x, 800);
    assert_eq!(t.position.y, 3_200 - (3 / 2) * 1_000); // integer halving of the width
    assert_eq!(t.position.z, 5_000 + 600_000 / 120);
    assert_eq!(t.scale.x, 1_200);
    assert_eq!(t.scale.y, 3 * 300);
    assert_eq!(t.scale.z, 600_000 / 60);
}

#[test]
fn init_song_records_metadata_and_places_everything() {
    let mut w = World::new();
    let song = ParsedSong {
        notes: vec![red_note_origin(), red_note_origin()],
        obstacles: vec![Obstacle {
            line_index: 0,
            obstacle_type: ObstacleType::Wall,
            width: 1,
            time: 0,
            duration: 60_000,
        }],
        bpm: 120_000,
        bpb: 4_000,
        time: 0,
        song_file: "song.ogg".to_string(),
    };
    init_song(song, &mut w);
    assert_eq!(w.song_info.bpm, 120_000);
    assert_eq!(w.song_info.bpb, 4_000);
    assert_eq!(w.entities.len(), 3);
    assert!(w.entities[0].note.is_some());
    assert!(w.entities[1].note.is_some());
    assert!(w.entities[2].obstacle.is_some());
    assert!(w.sound_events.queue.is_empty());
}

#[test]
fn start_song_enqueues_the_playback_event() {
    let mut w = World::new();
    let song = ParsedSong {
        notes: vec![],
        obstacles: vec![],
        bpm: 100_000,
        bpb: 4_000,
        time: 0,
        song_file: "song.ogg".to_string(),
    };
    start_song(song, "./assets/songs/Test Song/song.ogg".to_string(), &mut w);
    assert_eq!(w.sound_events.queue.len(), 1);
    match &w.sound_events.queue[0] {
        SoundEvent::AddSound(path, Some(name)) => {
            assert_eq!(path, "./assets/songs/Test Song/song.ogg");
            assert_eq!(name, "SongPlayback");
        }
        _ => panic!("expected a named playback event"),
    }
}

#[test]
fn one_red_note_end_to_end() {
    // Load a chart with a single red note at row 0, column 0, time 0 ms,
    // top cut; simulate until it crosses the removal plane; exactly one
    // removal mark and one slash cue must come out, and the drain must
    // delete the entity.
    let mut w = World::new();
    let song = ParsedSong {
        notes: vec![red_note_origin()],
        obstacles: vec![],
        bpm: 120_000,
        bpb: 4_000,
        time: 0,
        song_file: "song.ogg".to_string(),
    };
    init_song(song, &mut w);
    assert_eq!(w.entities.len(), 1);
    let h = w.entities[0].handle;
    // Initial depth is exactly the spawn offset of 5 units.
    assert_eq!(w.get_transform(h).unwrap().position.z, 5_000);

    let mut notes = NoteSystem::new();
    let mut obstacles = ObstacleSystem::new();
    notes.run(10, &mut w);
    obstacles.run(10, &mut w);
    // 60 ms at one unit per 60 ms moves the note one unit, past the plane.
    notes.run(70, &mut w);
    obstacles.run(70, &mut w);
    assert_eq!(w.get_transform(h).unwrap().position.z, 4_000);
    assert_eq!(w.remove.0, vec![h]);
    assert_eq!(w.sound_events.queue.len(), 1);
    match &w.sound_events.queue[0] {
        SoundEvent::AddSound(path, name) => {
            assert_eq!(path, "./assets/sounds/slash.mp3");
            assert!(name.is_none());
        }
        _ => panic!("expected the slash cue"),
    }
    let drained = w.drain_removals();
    assert_eq!(drained, vec![h]);
    assert!(w.entities.is_empty());
    // The handle is dead for good.
    assert!(w.get_transform(h).is_none());
}
