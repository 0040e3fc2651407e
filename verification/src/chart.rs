//! Chart model: immutable note and obstacle descriptors with timing and
//! layout metadata, plus the conversions that turn raw chart records into
//! typed descriptors.
//!
//! Raw chart files express time in beats; descriptors carry milliseconds.
//! Both are held as fixed-point integers in thousandths (milli-beats,
//! milli-ms, milli-bpm), so `beats_to_ms` is exact integer arithmetic.
use vstd::prelude::*;

verus! {

/// Upper bound on a time value in milli-beats accepted from a chart file.
pub const BEATS_MILLI_MAX: i64 = 100_000_000_000;

/// Upper bound on a tempo in milli-bpm accepted from a chart file.
pub const BPM_MILLI_MAX: i64 = 10_000_000;

/// Upper bound on an obstacle column index accepted from a chart file.
pub const LINE_INDEX_MAX: i64 = 10_000;

/// Upper bound on an obstacle width accepted from a chart file.
pub const WIDTH_MAX: i64 = 10_000;

/// Gameplay classification of a note.
#[derive(Clone, Copy, PartialEq, Eq, Structural, Debug)]
pub enum NoteType {
    Red,
    Blue,
    Mine,
}

/// The swipe direction a player must use to resolve a note, visualized as an
/// in-plane rotation of the note block.
#[derive(Clone, Copy, PartialEq, Eq, Structural, Debug)]
pub enum Direction {
    Top,
    Bottom,
    Left,
    Right,
    TopLeft,
    TopRight,
    BottomLeft,
    BottomRight,
    NoDirection,
}

/// Shape of an obstacle: a vertical wall column or a horizontal ceiling band.
#[derive(Clone, Copy, PartialEq, Eq, Structural, Debug)]
pub enum ObstacleType {
    Wall,
    Ceiling,
}

/// One note descriptor. `time` is in milli-ms since song start.
#[derive(Clone, Copy, PartialEq, Eq, Structural, Debug)]
pub struct Note {
    pub line_layer: u8,
    pub line_index: u8,
    pub note_type: NoteType,
    pub time: i64,
    pub direction: Direction,
}

/// One obstacle descriptor. `time` and `duration` are in milli-ms.
#[derive(Clone, Copy, PartialEq, Eq, Structural, Debug)]
pub struct Obstacle {
    pub line_index: i32,
    pub obstacle_type: ObstacleType,
    pub width: i32,
    pub time: i64,
    pub duration: i64,
}

/// Maps a raw note type code to its variant; unrecognized codes fall back to
/// `Mine`, the neutral policy this crate documents for malformed kinds.
pub fn note_type_from_code(code: i64) -> (r: NoteType)
    ensures
        r == (if code == 0 {
            NoteType::Red
        } else if code == 1 {
            NoteType::Blue
        } else {
            NoteType::Mine
        }),
{
    match code {
        0 => NoteType::Red,
        1 => NoteType::Blue,
        _ => NoteType::Mine,
    }
}

/// Maps a raw cut-direction code to its variant; unrecognized codes fall back
/// to `NoDirection`.
pub fn direction_from_code(code: i64) -> (r: Direction)
    ensures
        r == (if code == 0 {
            Direction::Top
        } else if code == 1 {
            Direction::Bottom
        } else if code == 2 {
            Direction::Left
        } else if code == 3 {
            Direction::Right
        } else if code == 4 {
            Direction::TopLeft
        } else if code == 5 {
            Direction::TopRight
        } else if code == 6 {
            Direction::BottomLeft
        } else if code == 7 {
            Direction::BottomRight
        } else {
            Direction::NoDirection
        }),
{
    match code {
        0 => Direction::Top,
        1 => Direction::Bottom,
        2 => Direction::Left,
        3 => Direction::Right,
        4 => Direction::TopLeft,
        5 => Direction::TopRight,
        6 => Direction::BottomLeft,
        7 => Direction::BottomRight,
        _ => Direction::NoDirection,
    }
}

/// Maps a raw obstacle type code to its variant; unrecognized codes fall back
/// to `Wall`.
pub fn obstacle_type_from_code(code: i64) -> (r: ObstacleType)
    ensures
        r == (if code == 1 {
            ObstacleType::Ceiling
        } else {
            ObstacleType::Wall
        }),
{
    match code {
        1 => ObstacleType::Ceiling,
        _ => ObstacleType::Wall,
    }
}

/// Exact beat-to-millisecond conversion on in-range fixed-point values:
/// `ms = beats * 60000 / bpm`, all three in thousandths.
pub fn beats_to_ms(beats_milli: i64, bpm_milli: i64) -> (ms_milli: i64)
    requires
        0 <= beats_milli <= BEATS_MILLI_MAX,
        0 < bpm_milli <= BPM_MILLI_MAX,
    ensures
        ms_milli == beats_milli * 60_000_000 / bpm_milli as int,
        ms_milli >= 0,
{
    (beats_milli * 60_000_000) / bpm_milli
}

/// Range-checked beat-to-millisecond conversion: `None` exactly on values a
/// chart file is not allowed to carry (negative or oversized time, tempo not
/// in the accepted band).
pub fn try_beats_to_ms(beats_milli: i64, bpm_milli: i64) -> (r: Option<i64>)
    ensures
        r is Some <==> (0 <= beats_milli <= BEATS_MILLI_MAX && 0 < bpm_milli <= BPM_MILLI_MAX),
        r matches Some(ms) ==> ms == beats_milli * 60_000_000 / bpm_milli as int,
{
    if 0 <= beats_milli && beats_milli <= BEATS_MILLI_MAX && 0 < bpm_milli
        && bpm_milli <= BPM_MILLI_MAX {
        Some(beats_to_ms(beats_milli, bpm_milli))
    } else {
        None
    }
}

impl Note {
    /// Builds a note descriptor from the raw fields of one chart record:
    /// row, column, kind code, time in milli-beats, cut-direction code and
    /// the song tempo in milli-bpm. `None` exactly on a malformed record:
    /// row or column outside a byte, or time or tempo outside the accepted
    /// band. Unrecognized kind and direction codes are not errors; they map
    /// to the documented fallbacks.
    pub fn from_raw(
        line_layer: i64,
        line_index: i64,
        type_code: i64,
        time_beats_milli: i64,
        direction_code: i64,
        bpm_milli: i64,
    ) -> (r: Option<Note>)
        ensures
            r is Some <==> (0 <= line_layer <= 255 && 0 <= line_index <= 255 && 0
                <= time_beats_milli <= BEATS_MILLI_MAX && 0 < bpm_milli <= BPM_MILLI_MAX),
            r matches Some(n) ==> ({
                &&& n.line_layer == line_layer
                &&& n.line_index == line_index
                &&& n.note_type == (if type_code == 0 {
                    NoteType::Red
                } else if type_code == 1 {
                    NoteType::Blue
                } else {
                    NoteType::Mine
                })
                &&& n.time == time_beats_milli * 60_000_000 / bpm_milli as int
                &&& 0 <= n.time
                &&& n.direction == (if direction_code == 0 {
                    Direction::Top
                } else if direction_code == 1 {
                    Direction::Bottom
                } else if direction_code == 2 {
                    Direction::Left
                } else if direction_code == 3 {
                    Direction::Right
                } else if direction_code == 4 {
                    Direction::TopLeft
                } else if direction_code == 5 {
                    Direction::TopRight
                } else if direction_code == 6 {
                    Direction::BottomLeft
                } else if direction_code == 7 {
                    Direction::BottomRight
                } else {
                    Direction::NoDirection
                })
            }),
    {
        if !(0 <= line_layer && line_layer <= 255 && 0 <= line_index && line_index <= 255) {
            return None;
        }
        match try_beats_to_ms(time_beats_milli, bpm_milli) {
            Some(time) => Some(
                Note {
                    line_layer: line_layer as u8,
                    line_index: line_index as u8,
                    note_type: note_type_from_code(type_code),
                    time,
                    direction: direction_from_code(direction_code),
                },
            ),
            None => None,
        }
    }
}

impl Obstacle {
    /// Builds an obstacle descriptor from the raw fields of one chart
    /// record: column, shape code, time and duration in milli-beats, width
    /// and the song tempo in milli-bpm. `None` exactly on a malformed
    /// record: column or width out of band, or time, duration or tempo
    /// outside the accepted band. An unrecognized shape code maps to the
    /// documented fallback.
    pub fn from_raw(
        line_index: i64,
        type_code: i64,
        time_beats_milli: i64,
        duration_beats_milli: i64,
        width: i64,
        bpm_milli: i64,
    ) -> (r: Option<Obstacle>)
        ensures
            r is Some <==> (0 <= line_index <= LINE_INDEX_MAX && 0 <= width <= WIDTH_MAX && 0
                <= time_beats_milli <= BEATS_MILLI_MAX && 0 <= duration_beats_milli
                <= BEATS_MILLI_MAX && 0 < bpm_milli <= BPM_MILLI_MAX),
            r matches Some(o) ==> ({
                &&& o.line_index == line_index
                &&& o.obstacle_type == (if type_code == 1 {
                    ObstacleType::Ceiling
                } else {
                    ObstacleType::Wall
                })
                &&& o.width == width
                &&& o.time == time_beats_milli * 60_000_000 / bpm_milli as int
                &&& o.duration == duration_beats_milli * 60_000_000 / bpm_milli as int
                &&& 0 <= o.time
                &&& 0 <= o.duration
            }),
    {
        if !(0 <= line_index && line_index <= LINE_INDEX_MAX && 0 <= width && width <= WIDTH_MAX) {
            return None;
        }
        let time = match try_beats_to_ms(time_beats_milli, bpm_milli) {
            Some(t) => t,
            None => {
                return None;
            },
        };
        let duration = match try_beats_to_ms(duration_beats_milli, bpm_milli) {
            Some(d) => d,
            None => {
                return None;
            },
        };
        Some(
            Obstacle {
                line_index: line_index as i32,
                obstacle_type: obstacle_type_from_code(type_code),
                width: width as i32,
                time,
                duration,
            },
        )
    }
}

/// A parsed chart: the note and obstacle descriptors, song-level tempo and
/// meter in fixed-point thousandths, the chart's offset in milli-ms, and the
/// audio file name the song plays from.
#[derive(Debug)]
pub struct ParsedSong {
    pub notes: Vec<Note>,
    pub obstacles: Vec<Obstacle>,
    pub bpm: i64,
    pub bpb: i64,
    pub time: i64,
    pub song_file: String,
}

} // verus!
