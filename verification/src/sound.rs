//! The deferred side-effect queue and the audio decision logic.
//!
//! During a tick the motion engine appends `SoundEvent`s to a `SoundEvents`
//! queue; once per tick the driver drains the queue, in order, through a
//! `SoundDirector`, which decides for each event what the audio device must
//! do. The device work itself (opening files, sinks, playback) belongs to an
//! unverified collaborator that executes the returned `SoundAction`s.
use vstd::prelude::*;

verus! {

/// One deferred audio event. The optional second field of `AddSound` is a
/// sink name: named sounds can later be paused and resumed, unnamed sounds
/// play once and are forgotten.
#[derive(Debug)]
pub enum SoundEvent {
    AddSound(String, Option<String>),
    PauseSound(String),
    ContinueSound(String),
}

/// The tick-scoped, append-only queue of audio events; drained exactly once
/// per tick by the driver.
#[derive(Debug)]
pub struct SoundEvents {
    pub queue: Vec<SoundEvent>,
}

impl SoundEvents {
    pub fn new() -> (r: SoundEvents)
        ensures
            r.queue@.len() == 0,
    {
        SoundEvents { queue: Vec::new() }
    }
}

/// What the audio collaborator must do for one drained event.
#[derive(Debug)]
pub enum SoundAction {
    PlayDetached(String),
    PlayNamed(String, String),
    Pause(String),
    Resume(String),
    Ignore,
}

/// Tracks which sink names are registered and maps each drained event to the
/// action the audio device must perform.
#[derive(Debug)]
pub struct SoundDirector {
    pub names: Vec<String>,
}

/// Whether a sink under this name is registered.
pub open spec fn has_name(names: Seq<String>, n: String) -> bool {
    exists|i: int| 0 <= i < names.len() && (#[trigger] names[i])@ == n@
}

/// One decision step: the registered names after the event, and the action
/// it maps to. Playing a named sound registers the name (a replay under an
/// existing name replaces that sink, so the name set is unchanged); pause and
/// resume of an unknown name are ignored.
pub open spec fn director_step(names: Seq<String>, ev: SoundEvent) -> (Seq<String>, SoundAction) {
    match ev {
        SoundEvent::AddSound(path, opt) => match opt {
            Option::None => (names, SoundAction::PlayDetached(path)),
            Option::Some(name) => (
                if has_name(names, name) {
                    names
                } else {
                    names.push(name)
                },
                SoundAction::PlayNamed(path, name),
            ),
        },
        SoundEvent::PauseSound(name) => (
            names,
            if has_name(names, name) {
                SoundAction::Pause(name)
            } else {
                SoundAction::Ignore
            },
        ),
        SoundEvent::ContinueSound(name) => (
            names,
            if has_name(names, name) {
                SoundAction::Resume(name)
            } else {
                SoundAction::Ignore
            },
        ),
    }
}

/// Folds `director_step` over a whole queue: the names after draining it and
/// the actions it maps to, in queue order.
pub open spec fn director_fold(names: Seq<String>, evs: Seq<SoundEvent>) -> (
    Seq<String>,
    Seq<SoundAction>,
)
    decreases evs.len(),
{
    if evs.len() == 0 {
        (names, Seq::empty())
    } else {
        let prefix = director_fold(names, evs.drop_last());
        let last = director_step(prefix.0, evs.last());
        (last.0, prefix.1.push(last.1))
    }
}

fn contains_name(names: &Vec<String>, n: &String) -> (r: bool)
    ensures
        r == has_name(names@, *n),
{
    let mut i: usize = 0;
    while i < names.len()
        invariant
            0 <= i <= names@.len(),
            forall|j: int| 0 <= j < i ==> (#[trigger] names@[j])@ != n@,
        decreases names@.len() - i,
    {
        if names[i] == *n {
            assert(has_name(names@, *n)) by {
                assert((names@[i as int])@ == n@);
            }
            return true;
        }
        i += 1;
    }
    false
}

impl SoundDirector {
    /// A director with no registered sink names.
    pub fn new() -> (r: SoundDirector)
        ensures
            r.names@.len() == 0,
    {
        SoundDirector { names: Vec::new() }
    }

    /// Decides one event: updates the registered names and returns the
    /// action the audio collaborator must perform for it.
    pub fn step(&mut self, ev: &SoundEvent) -> (a: SoundAction)
        ensures
            (final(self).names@, a) == director_step(old(self).names@, *ev),
    {
        match ev {
            SoundEvent::AddSound(path, opt) => match opt {
                Option::None => SoundAction::PlayDetached(path.clone()),
                Option::Some(name) => {
                    if !contains_name(&self.names, name) {
                        self.names.push(name.clone());
                    }
                    SoundAction::PlayNamed(path.clone(), name.clone())
                },
            },
            SoundEvent::PauseSound(name) => {
                if contains_name(&self.names, name) {
                    SoundAction::Pause(name.clone())
                } else {
                    SoundAction::Ignore
                }
            },
            SoundEvent::ContinueSound(name) => {
                if contains_name(&self.names, name) {
                    SoundAction::Resume(name.clone())
                } else {
                    SoundAction::Ignore
                }
            },
        }
    }

    /// Drains the queue exactly once: decides every event in enqueue order,
    /// clears the queue, and returns the actions for the audio collaborator.
    pub fn drain(&mut self, events: &mut SoundEvents) -> (acts: Vec<SoundAction>)
        ensures
            final(events).queue@.len() == 0,
            (final(self).names@, acts@) == director_fold(old(self).names@, old(events).queue@),
    {
        let mut acts: Vec<SoundAction> = Vec::new();
        let n = events.queue.len();
        let mut i: usize = 0;
        while i < n
            invariant
                0 <= i <= n,
                n == events.queue@.len(),
                events.queue@ == old(events).queue@,
                (self.names@, acts@) == director_fold(
                    old(self).names@,
                    events.queue@.take(i as int),
                ),
            decreases n - i,
        {
            let a = self.step(&events.queue[i]);
            acts.push(a);
            i += 1;
            proof {
                assert(events.queue@.take(i as int).drop_last() == events.queue@.take(
                    i as int - 1,
                ));
                assert(events.queue@.take(i as int).last() == events.queue@[i as int - 1]);
            }
        }
        proof {
            assert(events.queue@.take(n as int) == events.queue@);
        }
        events.queue.clear();
        acts
    }
}

} // verus!
