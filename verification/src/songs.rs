//! Chart placement: turns chart descriptors into entities with their initial
//! transform, visual and gameplay tag, by a fixed layout formula, and starts
//! the song's audio playback through the side-effect queue.
//!
//! All formulas are the fixed-point (thousandths) form of the layout:
//! a note sits at `x = 1.0 - 0.7 * column`, `y = 1.0 + 0.6 * row`,
//! `z = time / 60 + 5.0`; an obstacle is scaled from its width and duration
//! and placed so its leading edge reaches the player at its time and its
//! trailing edge clears one duration later.
use vstd::prelude::*;
use vstd::string::StringExecFns;

use crate::chart::Direction;
use crate::chart::LINE_INDEX_MAX;
use crate::chart::Note;
use crate::chart::NoteType;
use crate::chart::Obstacle;
use crate::chart::ObstacleType;
use crate::chart::ParsedSong;
use crate::components::Drawable;
use crate::components::Transform;
use crate::components::Vec3;
use crate::chart::WIDTH_MAX;
use crate::engine::NOTE_SPEED_DIVISOR;
use crate::sound::SoundEvent;
use crate::world::CurrentSongInfo;
use crate::world::Entity;
use crate::world::Facet;
use crate::world::World;

verus! {

/// Horizontal distance between note columns (0.7 units).
pub const COLUMN_SPACING: i64 = 700;

/// Horizontal offset of column zero (1.0 units).
pub const COLUMN_OFFSET: i64 = 1_000;

/// Vertical distance between note rows (0.6 units).
pub const ROW_SPACING: i64 = 600;

/// Vertical offset of row zero (1.0 units).
pub const ROW_OFFSET: i64 = 1_000;

/// Depth at which a note of time zero spawns (5.0 units).
pub const SPAWN_Z_OFFSET: i64 = 5_000;

/// Uniform scale of a note block (0.3 units).
pub const NOTE_SCALE: i64 = 300;

/// Horizontal distance between obstacle columns (1.5 units).
pub const OBSTACLE_COLUMN_SPACING: i64 = 1_500;

/// Horizontal offset of a wall in column zero (2.0 units).
pub const WALL_X_OFFSET: i64 = 2_000;

/// Vertical center of a wall (2.0 units).
pub const WALL_Y: i64 = 2_000;

/// Vertical extent of a wall (2.0 units).
pub const WALL_HEIGHT: i64 = 2_000;

/// Horizontal offset of a ceiling band in column zero (0.8 units).
pub const CEILING_X_OFFSET: i64 = 800;

/// Height from which a ceiling band hangs (3.2 units).
pub const CEILING_Y_BASE: i64 = 3_200;

/// Fixed horizontal extent of a ceiling band (1.2 units).
pub const CEILING_SPAN_X: i64 = 1_200;

/// World units per obstacle width unit (0.3 units).
pub const WIDTH_UNIT: i64 = 300;

/// Divisor that centers an obstacle: its midpoint trails the leading edge by
/// half the obstacle's length (`duration / 120` at speed `1/60`).
pub const OBSTACLE_TAIL_DIVISOR: i64 = 120;

/// The in-plane roll angle, in milliradians, that visualizes a cut
/// direction (the lookup table over the eight compass directions; no
/// direction is the identity).
pub open spec fn spec_direction_angle(d: Direction) -> i32 {
    match d {
        Direction::Top => 0i32,
        Direction::Bottom => 3140i32,
        Direction::Right => 1570i32,
        Direction::Left => -1570i32,
        Direction::BottomRight => 2355i32,
        Direction::BottomLeft => -2355i32,
        Direction::TopRight => 785i32,
        Direction::TopLeft => -785i32,
        Direction::NoDirection => 0i32,
    }
}

pub fn direction_angle(d: Direction) -> (r: i32)
    ensures
        r == spec_direction_angle(d),
{
    match d {
        Direction::Top => 0i32,
        Direction::Bottom => 3140i32,
        Direction::Right => 1570i32,
        Direction::Left => -1570i32,
        Direction::BottomRight => 2355i32,
        Direction::BottomLeft => -2355i32,
        Direction::TopRight => 785i32,
        Direction::TopLeft => -785i32,
        Direction::NoDirection => 0i32,
    }
}

/// The texture name a note of this kind is drawn with.
pub open spec fn spec_note_texture(kind: NoteType) -> Seq<char> {
    if kind == NoteType::Red {
        "note_red"@
    } else if kind == NoteType::Blue {
        "note_blue"@
    } else {
        "mine"@
    }
}

/// The model name a note of this kind is drawn with: mines get their own
/// model, every other kind the generic block.
pub open spec fn spec_note_model(kind: NoteType) -> Seq<char> {
    if kind == NoteType::Mine {
        "mine"@
    } else {
        "block"@
    }
}

/// The initial pose of a placed note: the fixed layout formula over its
/// column, row, time and cut direction.
pub open spec fn spec_note_transform(n: Note) -> Transform {
    Transform {
        position: Vec3 {
            x: (COLUMN_OFFSET - n.line_index as int * COLUMN_SPACING) as i64,
            y: (ROW_OFFSET + n.line_layer as int * ROW_SPACING) as i64,
            z: (n.time as int / (NOTE_SPEED_DIVISOR as int) + SPAWN_Z_OFFSET) as i64,
        },
        rotation: spec_direction_angle(n.direction),
        scale: Vec3 { x: NOTE_SCALE, y: NOTE_SCALE, z: NOTE_SCALE },
    }
}

/// The initial pose of a placed obstacle: walls occupy a vertical column,
/// ceiling bands a horizontal band near the top; both are placed so their
/// leading edge reaches the player at their time and their trailing edge
/// clears one duration later.
pub open spec fn spec_obstacle_transform(o: Obstacle) -> Transform {
    let z = (o.time as int / (NOTE_SPEED_DIVISOR as int) + SPAWN_Z_OFFSET + o.duration as int
        / (OBSTACLE_TAIL_DIVISOR as int)) as i64;
    let depth = (o.duration as int / (NOTE_SPEED_DIVISOR as int)) as i64;
    match o.obstacle_type {
        ObstacleType::Wall => Transform {
            position: Vec3 {
                x: (WALL_X_OFFSET - o.line_index as int * OBSTACLE_COLUMN_SPACING) as i64,
                y: WALL_Y,
                z,
            },
            rotation: 0,
            scale: Vec3 { x: (o.width as int * WIDTH_UNIT) as i64, y: WALL_HEIGHT, z: depth },
        },
        ObstacleType::Ceiling => Transform {
            position: Vec3 {
                x: (CEILING_X_OFFSET - o.line_index as int * OBSTACLE_COLUMN_SPACING) as i64,
                y: (CEILING_Y_BASE - (o.width as int / 2) * 1000) as i64,
                z,
            },
            rotation: 0,
            scale: Vec3 { x: CEILING_SPAN_X, y: (o.width as int * WIDTH_UNIT) as i64, z: depth },
        },
    }
}

/// Whether this entity is exactly what placing `n` under handle `h`
/// produces: the note tag, the layout pose, and an enabled visual with the
/// kind's texture, the kind's model and the simple shader.
pub open spec fn note_entity_matches(e: Entity, h: u64, n: Note) -> bool {
    &&& e.handle == h
    &&& e.note == Some(n)
    &&& e.obstacle is None
    &&& e.transform == Some(spec_note_transform(n))
    &&& e.drawable matches Some(d) && d.model@ == spec_note_model(n.note_type) && d.texture@
        == spec_note_texture(n.note_type) && d.shader@ == "simple"@ && d.enabled
}

/// Whether this entity is exactly what placing `o` under handle `h`
/// produces: the obstacle tag, the layout pose, and an enabled visual with
/// the cube model, obstacle texture and wall shader.
pub open spec fn obstacle_entity_matches(e: Entity, h: u64, o: Obstacle) -> bool {
    &&& e.handle == h
    &&& e.obstacle == Some(o)
    &&& e.note is None
    &&& e.transform == Some(spec_obstacle_transform(o))
    &&& e.drawable matches Some(d) && d.model@ == "cube"@ && d.texture@ == "obstacle"@
        && d.shader@ == "wall"@ && d.enabled
}

/// Creates one entity for a note: a fresh handle with the note tag, the
/// layout pose, and an enabled visual for the note's kind. Everything else
/// in the store is untouched.
pub fn place_note(world: &mut World, note: Note)
    requires
        old(world).wf(),
        old(world).next_handle < u64::MAX,
        0 <= note.time,
    ensures
        final(world).wf(),
        final(world).entities@.len() == old(world).entities@.len() + 1,
        forall|j: int|
            0 <= j < old(world).entities@.len() ==> final(world).entities@[j] == old(
                world,
            ).entities@[j],
        note_entity_matches(final(world).entities@.last(), old(world).next_handle, note),
        final(world).next_handle == old(world).next_handle + 1,
        final(world).song_info == old(world).song_info,
        final(world).sound_events == old(world).sound_events,
        final(world).remove == old(world).remove,
{
    let texture: String = match note.note_type {
        NoteType::Red => String::from_str("note_red"),
        NoteType::Blue => String::from_str("note_blue"),
        NoteType::Mine => String::from_str("mine"),
    };
    let model: String = match note.note_type {
        NoteType::Mine => String::from_str("mine"),
        _ => String::from_str("block"),
    };
    let x = COLUMN_OFFSET - (note.line_index as i64) * COLUMN_SPACING;
    let y = ROW_OFFSET + (note.line_layer as i64) * ROW_SPACING;
    let z = note.time / NOTE_SPEED_DIVISOR + SPAWN_Z_OFFSET;
    let transform = Transform::new(
        Vec3::new(x, y, z),
        direction_angle(note.direction),
        Vec3::new(NOTE_SCALE, NOTE_SCALE, NOTE_SCALE),
    );
    let drawable = Drawable::new(model, texture, String::from_str("simple"));
    let ghost n0 = world.entities@.len() as int;
    let h = world.create();
    proof {
        assert forall|j: int| 0 <= j < n0 implies (#[trigger] world.entities@[j]).handle != h by {
            assert(world.entities@[j].handle < world.entities@[n0].handle);
        }
    }
    world.attach(h, Facet::Spatial(transform));
    world.attach(h, Facet::NoteTag(note));
    world.attach(h, Facet::Visual(drawable));
    proof {
        assert(note_entity_matches(world.entities@.last(), h, note));
    }
}

/// Creates one entity for an obstacle: a fresh handle with the obstacle
/// tag, the layout pose and scale of its shape, and an enabled visual.
/// Everything else in the store is untouched.
pub fn place_obstacle(world: &mut World, obstacle: Obstacle)
    requires
        old(world).wf(),
        old(world).next_handle < u64::MAX,
        0 <= obstacle.time,
        0 <= obstacle.duration,
        0 <= obstacle.line_index <= LINE_INDEX_MAX,
        0 <= obstacle.width <= WIDTH_MAX,
    ensures
        final(world).wf(),
        final(world).entities@.len() == old(world).entities@.len() + 1,
        forall|j: int|
            0 <= j < old(world).entities@.len() ==> final(world).entities@[j] == old(
                world,
            ).entities@[j],
        obstacle_entity_matches(final(world).entities@.last(), old(world).next_handle, obstacle),
        final(world).next_handle == old(world).next_handle + 1,
        final(world).song_info == old(world).song_info,
        final(world).sound_events == old(world).sound_events,
        final(world).remove == old(world).remove,
{
    let z = obstacle.time / NOTE_SPEED_DIVISOR + SPAWN_Z_OFFSET + obstacle.duration
        / OBSTACLE_TAIL_DIVISOR;
    let depth = obstacle.duration / NOTE_SPEED_DIVISOR;
    let transform = match obstacle.obstacle_type {
        ObstacleType::Wall => Transform::new(
            Vec3::new(
                WALL_X_OFFSET - (obstacle.line_index as i64) * OBSTACLE_COLUMN_SPACING,
                WALL_Y,
                z,
            ),
            0,
            Vec3::new((obstacle.width as i64) * WIDTH_UNIT, WALL_HEIGHT, depth),
        ),
        ObstacleType::Ceiling => Transform::new(
            Vec3::new(
                CEILING_X_OFFSET - (obstacle.line_index as i64) * OBSTACLE_COLUMN_SPACING,
                CEILING_Y_BASE - ((obstacle.width as i64) / 2) * 1000,
                z,
            ),
            0,
            Vec3::new(CEILING_SPAN_X, (obstacle.width as i64) * WIDTH_UNIT, depth),
        ),
    };
    let drawable = Drawable::new(
        String::from_str("cube"),
        String::from_str("obstacle"),
        String::from_str("wall"),
    );
    let ghost n0 = world.entities@.len() as int;
    let h = world.create();
    proof {
        assert forall|j: int| 0 <= j < n0 implies (#[trigger] world.entities@[j]).handle != h by {
            assert(world.entities@[j].handle < world.entities@[n0].handle);
        }
    }
    world.attach(h, Facet::Spatial(transform));
    world.attach(h, Facet::ObstacleTag(obstacle));
    world.attach(h, Facet::Visual(drawable));
    proof {
        assert(obstacle_entity_matches(world.entities@.last(), h, obstacle));
    }
}

/// Whether every descriptor in a parsed chart lies in the bands the
/// placement formulas accept; what `Note::from_raw` and
/// `Obstacle::from_raw` guarantee of each record they admit.
pub open spec fn parsed_song_valid(p: ParsedSong) -> bool {
    &&& forall|k: int| 0 <= k < p.notes@.len() ==> 0 <= (#[trigger] p.notes@[k]).time
    &&& forall|k: int|
        0 <= k < p.obstacles@.len() ==> ({
            let o = #[trigger] p.obstacles@[k];
            &&& 0 <= o.time
            &&& 0 <= o.duration
            &&& 0 <= o.line_index <= LINE_INDEX_MAX
            &&& 0 <= o.width <= WIDTH_MAX
        })
}

/// Loads a parsed chart into the store: records the song metadata, then
/// places one entity per note and one per obstacle, in chart order, under
/// consecutive fresh handles. A pure transform from chart data to store
/// mutations; no entity is removed and no sound is enqueued.
pub fn init_song(parsed_song: ParsedSong, world: &mut World)
    requires
        old(world).wf(),
        parsed_song_valid(parsed_song),
        old(world).next_handle as int + parsed_song.notes@.len() + parsed_song.obstacles@.len()
            <= u64::MAX,
    ensures
        final(world).wf(),
        final(world).song_info == (CurrentSongInfo {
            bpm: parsed_song.bpm,
            bpb: parsed_song.bpb,
            time: parsed_song.time,
        }),
        final(world).entities@.len() == old(world).entities@.len() + parsed_song.notes@.len()
            + parsed_song.obstacles@.len(),
        forall|j: int|
            0 <= j < old(world).entities@.len() ==> final(world).entities@[j] == old(
                world,
            ).entities@[j],
        forall|k: int|
            0 <= k < parsed_song.notes@.len() ==> note_entity_matches(
                #[trigger] final(world).entities@[old(world).entities@.len() + k],
                (old(world).next_handle + k) as u64,
                parsed_song.notes@[k],
            ),
        forall|k: int|
            0 <= k < parsed_song.obstacles@.len() ==> obstacle_entity_matches(
                #[trigger] final(world).entities@[old(world).entities@.len()
                    + parsed_song.notes@.len() + k],
                (old(world).next_handle + parsed_song.notes@.len() + k) as u64,
                parsed_song.obstacles@[k],
            ),
        final(world).next_handle as int == old(world).next_handle + parsed_song.notes@.len()
            + parsed_song.obstacles@.len(),
        final(world).sound_events == old(world).sound_events,
        final(world).remove == old(world).remove,
{
    world.song_info = CurrentSongInfo {
        bpm: parsed_song.bpm,
        bpb: parsed_song.bpb,
        time: parsed_song.time,
    };
    let ghost base_len = old(world).entities@.len() as int;
    let ghost base_handle = old(world).next_handle as int;
    let nn = parsed_song.notes.len();
    let mut i: usize = 0;
    while i < nn
        invariant
            0 <= i <= nn,
            nn == parsed_song.notes@.len(),
            parsed_song_valid(parsed_song),
            base_handle + nn + parsed_song.obstacles@.len() <= u64::MAX,
            world.wf(),
            world.next_handle as int == base_handle + i,
            world.entities@.len() == base_len + i,
            base_len == old(world).entities@.len(),
            base_handle == old(world).next_handle,
            forall|j: int|
                0 <= j < base_len ==> #[trigger] world.entities@[j] == old(world).entities@[j],
            forall|k: int|
                0 <= k < i ==> note_entity_matches(
                    #[trigger] world.entities@[base_len + k],
                    (base_handle + k) as u64,
                    parsed_song.notes@[k],
                ),
            world.song_info == (CurrentSongInfo {
                bpm: parsed_song.bpm,
                bpb: parsed_song.bpb,
                time: parsed_song.time,
            }),
            world.sound_events == old(world).sound_events,
            world.remove == old(world).remove,
        decreases nn - i,
    {
        place_note(world, parsed_song.notes[i]);
        i += 1;
    }
    let no = parsed_song.obstacles.len();
    let mut j: usize = 0;
    while j < no
        invariant
            0 <= j <= no,
            no == parsed_song.obstacles@.len(),
            nn == parsed_song.notes@.len(),
            parsed_song_valid(parsed_song),
            base_handle + nn + no <= u64::MAX,
            world.wf(),
            world.next_handle as int == base_handle + nn + j,
            world.entities@.len() == base_len + nn + j,
            base_len == old(world).entities@.len(),
            base_handle == old(world).next_handle,
            forall|jj: int|
                0 <= jj < base_len ==> #[trigger] world.entities@[jj] == old(world).entities@[jj],
            forall|k: int|
                0 <= k < nn ==> note_entity_matches(
                    #[trigger] world.entities@[base_len + k],
                    (base_handle + k) as u64,
                    parsed_song.notes@[k],
                ),
            forall|k: int|
                0 <= k < j ==> obstacle_entity_matches(
                    #[trigger] world.entities@[base_len + nn + k],
                    (base_handle + nn + k) as u64,
                    parsed_song.obstacles@[k],
                ),
            world.song_info == (CurrentSongInfo {
                bpm: parsed_song.bpm,
                bpb: parsed_song.bpb,
                time: parsed_song.time,
            }),
            world.sound_events == old(world).sound_events,
            world.remove == old(world).remove,
        decreases no - j,
    {
        place_obstacle(world, parsed_song.obstacles[j]);
        j += 1;
    }
}

/// Loads a parsed chart and starts its audio: after placement, exactly one
/// playback event for the song's audio file is enqueued, under the fixed
/// playback sink name, so the audio collaborator can later pause or resume
/// it.
pub fn start_song(parsed_song: ParsedSong, audio_path: String, world: &mut World)
    requires
        old(world).wf(),
        parsed_song_valid(parsed_song),
        old(world).next_handle as int + parsed_song.notes@.len() + parsed_song.obstacles@.len()
            <= u64::MAX,
    ensures
        final(world).wf(),
        final(world).song_info == (CurrentSongInfo {
            bpm: parsed_song.bpm,
            bpb: parsed_song.bpb,
            time: parsed_song.time,
        }),
        final(world).entities@.len() == old(world).entities@.len() + parsed_song.notes@.len()
            + parsed_song.obstacles@.len(),
        forall|j: int|
            0 <= j < old(world).entities@.len() ==> final(world).entities@[j] == old(
                world,
            ).entities@[j],
        forall|k: int|
            0 <= k < parsed_song.notes@.len() ==> note_entity_matches(
                #[trigger] final(world).entities@[old(world).entities@.len() + k],
                (old(world).next_handle + k) as u64,
                parsed_song.notes@[k],
            ),
        forall|k: int|
            0 <= k < parsed_song.obstacles@.len() ==> obstacle_entity_matches(
                #[trigger] final(world).entities@[old(world).entities@.len()
                    + parsed_song.notes@.len() + k],
                (old(world).next_handle + parsed_song.notes@.len() + k) as u64,
                parsed_song.obstacles@[k],
            ),
        final(world).next_handle as int == old(world).next_handle + parsed_song.notes@.len()
            + parsed_song.obstacles@.len(),
        final(world).remove == old(world).remove,
        final(world).sound_events.queue@.len() == old(world).sound_events.queue@.len() + 1,
        forall|j: int|
            0 <= j < old(world).sound_events.queue@.len() ==> #[trigger] final(
                world).sound_events.queue@[j] == old(world).sound_events.queue@[j],
        ({
            let ev = final(world).sound_events.queue@.last();
            &&& ev matches SoundEvent::AddSound(p, nm)
            &&& p == audio_path
            &&& nm matches Some(sink) && sink@ == "SongPlayback"@
        }),
{
    init_song(parsed_song, world);
    world.sound_events.queue.push(
        SoundEvent::AddSound(audio_path, Some(String::from_str("SongPlayback"))),
    );
}

} // verus!
