use slash_mania::sound::{SoundAction, SoundDirector, SoundEvent, SoundEvents};

#[test]
fn detached_play_registers_no_name() {
    let mut d = SoundDirector::new();
    let a = d.step(&SoundEvent::AddSound("a.mp3".to_string(), None));
    match a {
        SoundAction::PlayDetached(path) => assert_eq!(path, "a.mp3"),
        _ => panic!("expected a detached play"),
    }
    assert!(d.names.is_empty());
}

#[test]
fn named_play_registers_its_sink_once() {
    let mut d = SoundDirector::new();
    let ev = SoundEvent::AddSound("song.ogg".to_string(), Some("SongPlayback".to_string()));
    match d.step(&ev) {
        SoundAction::PlayNamed(path, name) => {
            assert_eq!(path, "song.ogg");
            assert_eq!(name, "SongPlayback");
        }
        _ => panic!("expected a named play"),
    }
    assert_eq!(d.names.len(), 1);
    // Replaying under the same name replaces the sink: no second entry.
    d.step(&ev);
    assert_eq!(d.names.len(), 1);
}

#[test]
fn pause_and_resume_of_unknown_names_are_ignored() {
    let mut d = SoundDirector::new();
    assert!(matches!(
        d.step(&SoundEvent::PauseSound("nobody".to_string())),
        SoundAction::Ignore
    ));
    assert!(matches!(
        d.step(&SoundEvent::ContinueSound("nobody".to_string())),
        SoundAction::Ignore
    ));
}

#[test]
fn pause_and_resume_of_known_names_pass_through() {
    let mut d = SoundDirector::new();
    d.step(&SoundEvent::AddSound(
        "song.ogg".to_string(),
        Some("SongPlayback".to_string()),
    ));
    match d.step(&SoundEvent::PauseSound("SongPlayback".to_string())) {
        SoundAction::Pause(name) => assert_eq!(name, "SongPlayback"),
        _ => panic!("expected a pause"),
    }
    match d.step(&SoundEvent::ContinueSound("SongPlayback".to_string())) {
        SoundAction::Resume(name) => assert_eq!(name, "SongPlayback"),
        _ => panic!("expected a resume"),
    }
}

#[test]
fn drain_maps_the_whole_queue_in_order_and_clears_it() {
    let mut d = SoundDirector::new();
    let mut q = SoundEvents::new();
    q.queue.push(SoundEvent::AddSound(
        "song.ogg".to_string(),
        Some("SongPlayback".to_string()),
    ));
    q.queue.push(SoundEvent::AddSound("slash.mp3".to_string(), None));
    q.queue.push(SoundEvent::PauseSound("SongPlayback".to_string()));
    q.queue.push(SoundEvent::PauseSound("unknown".to_string()));
    let acts = d.drain(&mut q);
    assert!(q.queue.is_empty());
    assert_eq!(acts.len(), 4);
    assert!(matches!(&acts[0], SoundAction::PlayNamed(_, _)));
    assert!(matches!(&acts[1], SoundAction::PlayDetached(_)));
    assert!(matches!(&acts[2], SoundAction::Pause(_)));
    assert!(matches!(&acts[3], SoundAction::Ignore));
}
