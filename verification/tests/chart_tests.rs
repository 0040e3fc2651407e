use slash_mania::chart::{
    beats_to_ms, direction_from_code, note_type_from_code, obstacle_type_from_code,
    try_beats_to_ms, Direction, Note, NoteType, Obstacle, ObstacleType,
};

#[test]
fn note_type_codes_map_with_mine_fallback() {
    assert!(matches!(note_type_from_code(0), NoteType::Red));
    assert!(matches!(note_type_from_code(1), NoteType::Blue));
    assert!(matches!(note_type_from_code(2), NoteType::Mine));
    assert!(matches!(note_type_from_code(77), NoteType::Mine));
    assert!(matches!(note_type_from_code(-1), NoteType::Mine));
}

#[test]
fn direction_codes_map_with_neutral_fallback() {
    assert!(matches!(direction_from_code(0), Direction::Top));
    assert!(matches!(direction_from_code(1), Direction::Bottom));
    assert!(matches!(direction_from_code(2), Direction::Left));
    assert!(matches!(direction_from_code(3), Direction::Right));
    assert!(matches!(direction_from_code(4), Direction::TopLeft));
    assert!(matches!(direction_from_code(5), Direction::TopRight));
    assert!(matches!(direction_from_code(6), Direction::BottomLeft));
    assert!(matches!(direction_from_code(7), Direction::BottomRight));
    assert!(matches!(direction_from_code(8), Direction::NoDirection));
    assert!(matches!(direction_from_code(-3), Direction::NoDirection));
}

#[test]
fn obstacle_type_codes_map_with_wall_fallback() {
    assert!(matches!(obstacle_type_from_code(0), ObstacleType::Wall));
    assert!(matches!(obstacle_type_from_code(1), ObstacleType::Ceiling));
    assert!(matches!(obstacle_type_from_code(9), ObstacleType::Wall));
}

#[test]
fn beat_conversion_exact_values() {
    // One beat at 120 bpm is 500 ms: 500_000 in thousandths.
    assert_eq!(beats_to_ms(1_000, 120_000), 500_000);
    // Half a beat at 60 bpm is 500 ms as well.
    assert_eq!(beats_to_ms(500, 60_000), 500_000);
    // Zero beats is zero ms at any tempo.
    assert_eq!(beats_to_ms(0, 93_000), 0);
    // Four beats at 100 bpm is 2400 ms.
    assert_eq!(beats_to_ms(4_000, 100_000), 2_400_000);
}

#[test]
fn beat_conversion_rejects_bad_tempo_and_time() {
    assert_eq!(try_beats_to_ms(1_000, 0), None);
    assert_eq!(try_beats_to_ms(1_000, -5), None);
    assert_eq!(try_beats_to_ms(-1, 120_000), None);
    assert_eq!(try_beats_to_ms(1_000, 120_000), Some(500_000));
}

#[test]
fn note_from_raw_builds_checked_descriptor() {
    let n: Note = Note::from_raw(1, 2, 0, 2_000, 3, 120_000).unwrap();
    assert_eq!(n.line_layer, 1);
    assert_eq!(n.line_index, 2);
    assert!(matches!(n.note_type, NoteType::Red));
    assert_eq!(n.time, 1_000_000); // two beats at 120 bpm = 1000 ms
    assert!(matches!(n.direction, Direction::Right));
}

#[test]
fn note_from_raw_rejects_malformed_records() {
    assert!(Note::from_raw(256, 0, 0, 0, 0, 120_000).is_none());
    assert!(Note::from_raw(0, -1, 0, 0, 0, 120_000).is_none());
    assert!(Note::from_raw(0, 0, 0, -1, 0, 120_000).is_none());
    assert!(Note::from_raw(0, 0, 0, 0, 0, 0).is_none());
}

#[test]
fn obstacle_from_raw_builds_checked_descriptor() {
    let o: Obstacle = Obstacle::from_raw(2, 1, 1_000, 2_000, 3, 60_000).unwrap();
    assert_eq!(o.line_index, 2);
    assert!(matches!(o.obstacle_type, ObstacleType::Ceiling));
    assert_eq!(o.width, 3);
    assert_eq!(o.time, 1_000_000); // one beat at 60 bpm = 1000 ms
    assert_eq!(o.duration, 2_000_000);
}

#[test]
fn obstacle_from_raw_rejects_malformed_records() {
    assert!(Obstacle::from_raw(-1, 0, 0, 0, 0, 60_000).is_none());
    assert!(Obstacle::from_raw(0, 0, 0, 0, 10_001, 60_000).is_none());
    assert!(Obstacle::from_raw(0, 0, 0, -2, 0, 60_000).is_none());
    assert!(Obstacle::from_raw(0, 0, 0, 0, 0, 0).is_none());
}
