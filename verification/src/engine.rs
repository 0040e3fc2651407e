//! The motion and culling engine: once per tick, advance every simulated
//! entity toward the player by the elapsed wall time, decide each entity's
//! fate (keep, hide, mark for removal), and enqueue audio side effects.
//!
//! The engine never deletes an entity itself: it only marks handles in the
//! pending-removal set, which the driver drains after the tick. The driver
//! reads the wall clock and passes the timestamp in; on the very first tick
//! there is no prior timestamp to diff against, so no motion is applied. A
//! timestamp that goes backward is clamped to a zero delta rather than
//! moving entities away from the player.
use vstd::prelude::*;
use vstd::string::StringExecFns;

use crate::chart::NoteType;
use crate::components::Drawable;
use crate::components::Transform;
use crate::components::Vec3;
use crate::sound::SoundEvent;
use crate::world::Entity;
use crate::world::World;
use crate::world::distinct_handles;
use crate::world::handles_increasing;

verus! {

/// Milliseconds of elapsed time per world unit of approach: the tempo-derived
/// speed divisor shared by notes and obstacles. Tunable; this is the
/// canonical default.
pub const NOTE_SPEED_DIVISOR: i64 = 60;

/// A regular note past this plane (fixed-point thousandths) is marked for
/// removal, with an audio cue.
pub const NOTE_REMOVE_Z: i64 = 5_000;

/// A mine past this plane is marked for removal, silently: mines are hit by
/// avoidance, not destruction with feedback.
pub const MINE_REMOVE_Z: i64 = -5_000;

/// A note beyond this plane has not yet entered the visible spawn volume and
/// is simulated but not drawn. The threshold is exclusive: exactly on the
/// plane an entity is still drawn.
pub const HIDE_Z: i64 = 40_000;

/// Saturation floor for motion: a coordinate never falls below this value,
/// which lies far beyond every removal plane, so saturation is unobservable
/// in gameplay and keeps the arithmetic total.
pub const Z_FLOOR: i64 = -1_000_000_000_000_000;

/// Cap on one tick's measured delta, in whole milliseconds. Far above any
/// real frame time; keeps the per-tick displacement within range.
pub const DELTA_CAP_MS: u128 = 1_000_000_000_000;

/// The elapsed milliseconds one tick works with: zero when the clock did not
/// advance (or went backward), the measured difference otherwise, capped.
pub open spec fn tick_delta_ms(last: u128, now: u128) -> int {
    if now <= last {
        0
    } else if now - last > DELTA_CAP_MS {
        DELTA_CAP_MS as int
    } else {
        now - last
    }
}

/// How far an entity approaches in one tick, in fixed-point thousandths:
/// `delta / 60` world units.
pub open spec fn fall_per_tick(delta_ms: int) -> int {
    delta_ms * 1000 / (NOTE_SPEED_DIVISOR as int)
}

/// One coordinate after one tick of motion: decreased by the displacement,
/// saturating at the floor.
pub open spec fn spec_move_z(z: int, dz: int) -> int {
    if z - dz >= Z_FLOOR {
        z - dz
    } else {
        Z_FLOOR as int
    }
}

/// Whether the note system simulates this entity: it owns both a transform
/// and a note tag.
pub open spec fn is_sim_note(e: Entity) -> bool {
    e.transform is Some && e.note is Some
}

/// The z coordinate a simulated note entity has after this tick's motion.
pub open spec fn moved_z(e: Entity, dz: int) -> int {
    spec_move_z(e.transform->0.position.z as int, dz)
}

/// The removal plane for a note of this kind.
pub open spec fn note_threshold(kind: NoteType) -> int {
    if kind == NoteType::Mine {
        MINE_REMOVE_Z as int
    } else {
        NOTE_REMOVE_Z as int
    }
}

/// Whether removal of a note of this kind confirms the pass with audio:
/// every kind but a mine does.
pub open spec fn note_sound_on_removal(kind: NoteType) -> bool {
    kind != NoteType::Mine
}

/// One entity after the note system's tick: a simulated note moves toward
/// the player and its visual (if any) is enabled exactly when the moved
/// position has entered the visible spawn volume (`z <= 40` units); any
/// other entity is untouched.
pub open spec fn note_moved(e: Entity, dz: int) -> Entity {
    if is_sim_note(e) {
        let tr = e.transform->0;
        let nz = spec_move_z(tr.position.z as int, dz);
        let tr2 = Transform {
            position: Vec3 { x: tr.position.x, y: tr.position.y, z: nz as i64 },
            rotation: tr.rotation,
            scale: tr.scale,
        };
        let dr2 = match e.drawable {
            Option::Some(d) => Option::Some(Drawable { enabled: nz <= HIDE_Z as int, ..d }),
            Option::None => Option::None,
        };
        Entity { transform: Some(tr2), drawable: dr2, ..e }
    } else {
        e
    }
}

/// Whether this step of the marking pass newly marks the entity: it is a
/// simulated note, its moved position has crossed its removal plane, and its
/// handle is not marked yet.
pub open spec fn note_newly_marked(marks: Seq<u64>, e: Entity, dz: int) -> bool {
    is_sim_note(e) && moved_z(e, dz) < note_threshold(e.note->0.note_type) && !marks.contains(
        e.handle,
    )
}

/// The pending-removal set after the note system's marking pass over these
/// entities, starting from the already-marked handles.
pub open spec fn note_marks(init: Seq<u64>, ents: Seq<Entity>, dz: int) -> Seq<u64>
    decreases ents.len(),
{
    if ents.len() == 0 {
        init
    } else {
        let prev = note_marks(init, ents.drop_last(), dz);
        if note_newly_marked(prev, ents.last(), dz) {
            prev.push(ents.last().handle)
        } else {
            prev
        }
    }
}

/// How many audio cues the marking pass enqueues: one per newly marked note
/// whose kind triggers sound, none for mines or already-marked entities.
pub open spec fn note_slash_count(init: Seq<u64>, ents: Seq<Entity>, dz: int) -> nat
    decreases ents.len(),
{
    if ents.len() == 0 {
        0
    } else {
        let c = note_slash_count(init, ents.drop_last(), dz);
        let prev = note_marks(init, ents.drop_last(), dz);
        let e = ents.last();
        if note_newly_marked(prev, e, dz) && note_sound_on_removal(e.note->0.note_type) {
            c + 1
        } else {
            c
        }
    }
}

/// The fixed audio cue a removed regular note enqueues: play the slash
/// sample once, with no sink name.
pub open spec fn is_slash_event(ev: SoundEvent) -> bool {
    &&& ev matches SoundEvent::AddSound(p, h)
    &&& p@ == "./assets/sounds/slash.mp3"@
    &&& h is None
}

fn tick_delta(last: u128, now: u128) -> (d: i64)
    ensures
        d as int == tick_delta_ms(last, now),
        0 <= d,
{
    if now <= last {
        0
    } else {
        let diff = now - last;
        if diff > DELTA_CAP_MS {
            DELTA_CAP_MS as i64
        } else {
            diff as i64
        }
    }
}

fn move_z(z: i64, dz: i64) -> (r: i64)
    requires
        0 <= dz,
    ensures
        r as int == spec_move_z(z as int, dz as int),
{
    match z.checked_sub(dz) {
        Some(d) => if d >= Z_FLOOR {
            d
        } else {
            Z_FLOOR
        },
        None => Z_FLOOR,
    }
}

/// Advances every entity owning both a transform and a note tag, updates
/// visibility, marks notes past their removal plane and enqueues one audio
/// cue per newly removed sounding note.
pub struct NoteSystem {
    pub last_update_time_ms: u128,
}

impl NoteSystem {
    /// A note system that has not yet seen a tick: its first tick applies no
    /// motion.
    pub fn new() -> (r: NoteSystem)
        ensures
            r.last_update_time_ms == 0,
    {
        NoteSystem { last_update_time_ms: 0 }
    }

    /// One tick of the note system at wall-clock time `now_ms` (whole
    /// milliseconds; zero is reserved for "no tick seen yet").
    ///
    /// The first tick only records the timestamp. Every later tick moves
    /// each simulated note by the elapsed time over the speed divisor,
    /// enables its visual exactly when the new position is at or inside the
    /// 40-unit spawn plane, marks each note crossing its removal plane
    /// (idempotently), and enqueues exactly one slash cue per newly marked
    /// non-mine note, in store order. Nothing is deleted and nothing else in
    /// the store moves.
    pub fn run(&mut self, now_ms: u128, world: &mut World)
        requires
            old(world).wf(),
        ensures
            final(world).wf(),
            final(self).last_update_time_ms == now_ms,
            old(self).last_update_time_ms == 0 ==> *final(world) == *old(world),
            old(self).last_update_time_ms != 0 ==> ({
                let dz = fall_per_tick(tick_delta_ms(old(self).last_update_time_ms, now_ms));
                &&& final(world).entities@.len() == old(world).entities@.len()
                &&& forall|j: int|
                    0 <= j < old(world).entities@.len() ==> final(world).entities@[j] == note_moved(
                        old(world).entities@[j],
                        dz,
                    )
                &&& final(world).remove.0@ == note_marks(
                    old(world).remove.0@,
                    old(world).entities@,
                    dz,
                )
                &&& final(world).sound_events.queue@.len() == old(world).sound_events.queue@.len()
                    + note_slash_count(old(world).remove.0@, old(world).entities@, dz)
                &&& forall|j: int|
                    0 <= j < old(world).sound_events.queue@.len() ==> #[trigger] final(
                        world).sound_events.queue@[j] == old(world).sound_events.queue@[j]
                &&& forall|j: int|
                    old(world).sound_events.queue@.len() <= j < final(
                        world).sound_events.queue@.len() ==> is_slash_event(
                        #[trigger] final(world).sound_events.queue@[j],
                    )
                &&& final(world).next_handle == old(world).next_handle
                &&& final(world).song_info == old(world).song_info
            }),
    {
        let last = self.last_update_time_ms;
        self.last_update_time_ms = now_ms;
        if last == 0 {
            return ;
        }
        let delta = tick_delta(last, now_ms);
        let dz = (delta * 1000) / NOTE_SPEED_DIVISOR;
        let ghost orig = world.entities@;
        let ghost init_rem = world.remove.0@;
        let ghost init_snd = world.sound_events.queue@;
        let n = world.entities.len();
        let mut i: usize = 0;
        while i < n
            invariant
                0 <= i <= n,
                n == world.entities@.len(),
                n == orig.len(),
                0 <= dz,
                dz as int == fall_per_tick(tick_delta_ms(last, now_ms)),
                old(world).wf(),
                world.wf(),
                init_rem == old(world).remove.0@,
                init_snd == old(world).sound_events.queue@,
                orig == old(world).entities@,
                forall|j: int|
                    0 <= j < i ==> world.entities@[j] == note_moved(orig[j], dz as int),
                forall|j: int| i <= j < n ==> world.entities@[j] == orig[j],
                world.remove.0@ == note_marks(init_rem, orig.take(i as int), dz as int),
                world.sound_events.queue@.len() == init_snd.len() + note_slash_count(
                    init_rem,
                    orig.take(i as int),
                    dz as int,
                ),
                forall|j: int|
                    0 <= j < init_snd.len() ==> #[trigger] world.sound_events.queue@[j]
                        == init_snd[j],
                forall|j: int|
                    init_snd.len() <= j < world.sound_events.queue@.len() ==> is_slash_event(
                        #[trigger] world.sound_events.queue@[j],
                    ),
                world.next_handle == old(world).next_handle,
                world.song_info == old(world).song_info,
            decreases n - i,
        {
            proof {
                assert(orig.take(i as int + 1).drop_last() == orig.take(i as int));
                assert(orig.take(i as int + 1).last() == orig[i as int]);
            }
            let e = &world.entities[i];
            let h = e.handle;
            let tr_opt = e.transform;
            let note_opt = e.note;
            if tr_opt.is_some() && note_opt.is_some() {
                let tr = tr_opt.unwrap();
                let note = note_opt.unwrap();
                let nz = move_z(tr.position.z, dz);
                let ent = &mut world.entities[i];
                ent.transform = Some(
                    Transform {
                        position: Vec3 { x: tr.position.x, y: tr.position.y, z: nz },
                        rotation: tr.rotation,
                        scale: tr.scale,
                    },
                );
                match &mut ent.drawable {
                    Some(d) => {
                        d.enabled = nz <= HIDE_Z;
                    },
                    None => {},
                }
                proof {
                    assert(world.entities@[i as int] == note_moved(orig[i as int], dz as int));
                    assert forall|j: int|
                        0 <= j < n implies (#[trigger] world.entities@[j]).handle
                        == orig[j].handle by {
                        if j < i {
                            assert(world.entities@[j] == note_moved(orig[j], dz as int));
                        }
                    }
                    assert(handles_increasing(world.entities@));
                    assert(world.wf());
                }
                let threshold: i64 = if note.note_type == NoteType::Mine {
                    MINE_REMOVE_Z
                } else {
                    NOTE_REMOVE_Z
                };
                if nz < threshold {
                    let newly = world.mark(h);
                    if newly && note.note_type != NoteType::Mine {
                        world.sound_events.queue.push(
                            SoundEvent::AddSound(
                                String::from_str("./assets/sounds/slash.mp3"),
                                None,
                            ),
                        );
                    }
                }
            }
            i += 1;
        }
        proof {
            assert(orig.take(n as int) == orig);
        }
    }
}

/// Whether the obstacle system simulates this entity: it owns both a
/// transform and an obstacle tag.
pub open spec fn is_sim_obstacle(e: Entity) -> bool {
    e.transform is Some && e.obstacle is Some
}

/// One entity after the obstacle system's tick: a simulated obstacle moves
/// toward the player at the shared approach speed; any other entity is
/// untouched. Obstacles keep their visual: they are culled by removal alone.
pub open spec fn obstacle_moved(e: Entity, dz: int) -> Entity {
    if is_sim_obstacle(e) {
        let tr = e.transform->0;
        let nz = spec_move_z(tr.position.z as int, dz);
        let tr2 = Transform {
            position: Vec3 { x: tr.position.x, y: tr.position.y, z: nz as i64 },
            rotation: tr.rotation,
            scale: tr.scale,
        };
        Entity { transform: Some(tr2), ..e }
    } else {
        e
    }
}

/// Whether this step of the marking pass newly marks the obstacle: its moved
/// position has fully cleared the player -- the trailing edge, one duration
/// behind the leading edge, has passed the origin -- and it is not marked
/// yet.
pub open spec fn obstacle_newly_marked(marks: Seq<u64>, e: Entity, dz: int) -> bool {
    is_sim_obstacle(e) && moved_z(e, dz) < -(e.obstacle->0.duration as int) && !marks.contains(
        e.handle,
    )
}

/// The pending-removal set after the obstacle system's marking pass over
/// these entities, starting from the already-marked handles. Obstacle
/// removal enqueues no sound.
pub open spec fn obstacle_marks(init: Seq<u64>, ents: Seq<Entity>, dz: int) -> Seq<u64>
    decreases ents.len(),
{
    if ents.len() == 0 {
        init
    } else {
        let prev = obstacle_marks(init, ents.drop_last(), dz);
        if obstacle_newly_marked(prev, ents.last(), dz) {
            prev.push(ents.last().handle)
        } else {
            prev
        }
    }
}

/// Advances every entity owning both a transform and an obstacle tag and
/// marks each obstacle whose trailing edge has fully passed the player.
pub struct ObstacleSystem {
    pub last_update_time_ms: u128,
}

impl ObstacleSystem {
    /// An obstacle system that has not yet seen a tick: its first tick
    /// applies no motion.
    pub fn new() -> (r: ObstacleSystem)
        ensures
            r.last_update_time_ms == 0,
    {
        ObstacleSystem { last_update_time_ms: 0 }
    }

    /// One tick of the obstacle system at wall-clock time `now_ms` (whole
    /// milliseconds; zero is reserved for "no tick seen yet").
    ///
    /// The first tick only records the timestamp. Every later tick moves
    /// each simulated obstacle by the elapsed time over the shared speed
    /// divisor and marks, idempotently, each obstacle whose position has
    /// dropped below minus its duration. No sound is enqueued and nothing
    /// is deleted.
    pub fn run(&mut self, now_ms: u128, world: &mut World)
        requires
            old(world).wf(),
        ensures
            final(world).wf(),
            final(self).last_update_time_ms == now_ms,
            old(self).last_update_time_ms == 0 ==> *final(world) == *old(world),
            old(self).last_update_time_ms != 0 ==> ({
                let dz = fall_per_tick(tick_delta_ms(old(self).last_update_time_ms, now_ms));
                &&& final(world).entities@.len() == old(world).entities@.len()
                &&& forall|j: int|
                    0 <= j < old(world).entities@.len() ==> final(world).entities@[j]
                        == obstacle_moved(old(world).entities@[j], dz)
                &&& final(world).remove.0@ == obstacle_marks(
                    old(world).remove.0@,
                    old(world).entities@,
                    dz,
                )
                &&& final(world).sound_events == old(world).sound_events
                &&& final(world).next_handle == old(world).next_handle
                &&& final(world).song_info == old(world).song_info
            }),
    {
        let last = self.last_update_time_ms;
        self.last_update_time_ms = now_ms;
        if last == 0 {
            return ;
        }
        let delta = tick_delta(last, now_ms);
        let dz = (delta * 1000) / NOTE_SPEED_DIVISOR;
        let ghost orig = world.entities@;
        let ghost init_rem = world.remove.0@;
        let n = world.entities.len();
        let mut i: usize = 0;
        while i < n
            invariant
                0 <= i <= n,
                n == world.entities@.len(),
                n == orig.len(),
                0 <= dz,
                dz as int == fall_per_tick(tick_delta_ms(last, now_ms)),
                old(world).wf(),
                world.wf(),
                init_rem == old(world).remove.0@,
                orig == old(world).entities@,
                forall|j: int|
                    0 <= j < i ==> world.entities@[j] == obstacle_moved(orig[j], dz as int),
                forall|j: int| i <= j < n ==> world.entities@[j] == orig[j],
                world.remove.0@ == obstacle_marks(init_rem, orig.take(i as int), dz as int),
                world.sound_events == old(world).sound_events,
                world.next_handle == old(world).next_handle,
                world.song_info == old(world).song_info,
            decreases n - i,
        {
            proof {
                assert(orig.take(i as int + 1).drop_last() == orig.take(i as int));
                assert(orig.take(i as int + 1).last() == orig[i as int]);
            }
            let e = &world.entities[i];
            let h = e.handle;
            let tr_opt = e.transform;
            let obstacle_opt = e.obstacle;
            if tr_opt.is_some() && obstacle_opt.is_some() {
                let tr = tr_opt.unwrap();
                let obstacle = obstacle_opt.unwrap();
                let nz = move_z(tr.position.z, dz);
                let ent = &mut world.entities[i];
                ent.transform = Some(
                    Transform {
                        position: Vec3 { x: tr.position.x, y: tr.position.y, z: nz },
                        rotation: tr.rotation,
                        scale: tr.scale,
                    },
                );
                proof {
                    assert(world.entities@[i as int] == obstacle_moved(orig[i as int], dz as int));
                    assert forall|j: int|
                        0 <= j < n implies (#[trigger] world.entities@[j]).handle
                        == orig[j].handle by {
                        if j < i {
                            assert(world.entities@[j] == obstacle_moved(orig[j], dz as int));
                        }
                    }
                    assert(handles_increasing(world.entities@));
                    assert(world.wf());
                }
                if (nz as i128) < -(obstacle.duration as i128) {
                    world.mark(h);
                }
            }
            i += 1;
        }
        proof {
            assert(orig.take(n as int) == orig);
        }
    }
}

/// How many times this handle stands in a mark list.
pub open spec fn marked_count(s: Seq<u64>, x: u64) -> nat
    decreases s.len(),
{
    if s.len() == 0 {
        0
    } else {
        marked_count(s.drop_last(), x) + (if s.last() == x {
            1nat
        } else {
            0nat
        })
    }
}

/// A handle absent from a mark list stands in it zero times.
pub proof fn lemma_absent_count(s: Seq<u64>, x: u64)
    requires
        !s.contains(x),
    ensures
        marked_count(s, x) == 0,
    decreases s.len(),
{
    if s.len() > 0 {
        assert(s.last() != x) by {
            assert(s[s.len() - 1] == s.last());
        }
        assert(!s.drop_last().contains(x)) by {
            if s.drop_last().contains(x) {
                let k = choose|k: int| 0 <= k < s.drop_last().len() && s.drop_last()[k] == x;
                assert(s[k] == x);
            }
        }
        lemma_absent_count(s.drop_last(), x);
    }
}

/// A handle contained in a duplicate-free mark list stands in it exactly
/// once.
pub proof fn lemma_distinct_contains_count(s: Seq<u64>, x: u64)
    requires
        distinct_handles(s),
        s.contains(x),
    ensures
        marked_count(s, x) == 1,
    decreases s.len(),
{
    let pre = s.drop_last();
    if s.last() == x {
        assert(!pre.contains(x)) by {
            if pre.contains(x) {
                let k = choose|k: int| 0 <= k < pre.len() && pre[k] == x;
                assert(s[k] == s[s.len() - 1]);
            }
        }
        lemma_absent_count(pre, x);
    } else {
        let k = choose|k: int| 0 <= k < s.len() && s[k] == x;
        assert(k < pre.len()) by {
            assert(s[s.len() - 1] == s.last());
        }
        assert(pre.contains(x)) by {
            assert(pre[k] == x);
        }
        assert(distinct_handles(pre));
        lemma_distinct_contains_count(pre, x);
    }
}

/// The marking pass never duplicates a handle: starting from a
/// duplicate-free pending-removal set it produces a duplicate-free set, so
/// an entity is marked at most once however many entities cross their
/// plane.
pub proof fn lemma_note_marks_distinct(init: Seq<u64>, ents: Seq<Entity>, dz: int)
    requires
        distinct_handles(init),
    ensures
        distinct_handles(note_marks(init, ents, dz)),
    decreases ents.len(),
{
    if ents.len() > 0 {
        lemma_note_marks_distinct(init, ents.drop_last(), dz);
        let prev = note_marks(init, ents.drop_last(), dz);
        let e = ents.last();
        if note_newly_marked(prev, e, dz) {
            let r = prev.push(e.handle);
            assert forall|i: int, j: int| 0 <= i < j < r.len() implies r[i] != r[j] by {
                if j < prev.len() {
                    assert(prev[i] != prev[j]);
                } else {
                    assert(r[j] == e.handle);
                    if prev[i] == e.handle {
                        assert(prev.contains(e.handle));
                    }
                }
            }
        }
    }
}

/// Every handle the marking pass puts in the pending-removal set was either
/// already marked or belongs to one of the entities of the pass.
pub proof fn lemma_note_marks_members(init: Seq<u64>, ents: Seq<Entity>, dz: int, x: u64)
    requires
        note_marks(init, ents, dz).contains(x),
    ensures
        init.contains(x) || exists|i: int|
            0 <= i < ents.len() && (#[trigger] ents[i]).handle == x,
    decreases ents.len(),
{
    if ents.len() > 0 {
        let pre = ents.drop_last();
        let prev = note_marks(init, pre, dz);
        let e = ents.last();
        let r = note_marks(init, ents, dz);
        let k = choose|k: int| 0 <= k < r.len() && r[k] == x;
        if note_newly_marked(prev, e, dz) && k == prev.len() {
            assert(x == e.handle);
            assert(ents[ents.len() - 1].handle == x);
        } else {
            assert(prev.contains(x)) by {
                assert(prev[k] == x);
            }
            lemma_note_marks_members(init, pre, dz, x);
            if !init.contains(x) {
                let i = choose|i: int| 0 <= i < pre.len() && (#[trigger] pre[i]).handle == x;
                assert(ents[i].handle == x);
            }
        }
    }
}

/// A simulated note whose moved position has crossed its removal plane is
/// in the pending-removal set after the marking pass, whatever else the
/// pass marked.
pub proof fn lemma_note_crossing_marked(init: Seq<u64>, ents: Seq<Entity>, dz: int, i: int)
    requires
        0 <= i < ents.len(),
        is_sim_note(ents[i]),
        moved_z(ents[i], dz) < note_threshold(ents[i].note->0.note_type),
    ensures
        note_marks(init, ents, dz).contains(ents[i].handle),
    decreases ents.len(),
{
    let pre = ents.drop_last();
    let prev = note_marks(init, pre, dz);
    let e = ents.last();
    let h = ents[i].handle;
    if i == ents.len() - 1 {
        if note_newly_marked(prev, e, dz) {
            let r = prev.push(e.handle);
            assert(r[r.len() - 1] == h);
            assert(r.contains(h));
        } else {
            assert(prev.contains(h));
        }
    } else {
        lemma_note_crossing_marked(init, pre, dz, i);
        assert(prev.contains(h));
        if note_newly_marked(prev, e, dz) {
            let k = choose|k: int| 0 <= k < prev.len() && prev[k] == h;
            assert(prev.push(e.handle)[k] == h);
            assert(prev.push(e.handle).contains(h));
        }
    }
}

/// A regular (non-mine) note that has crossed its removal plane is marked
/// for removal exactly once by the marking pass: its handle stands in the
/// resulting pending-removal set one single time, whether or not it was
/// already marked before the pass.
pub proof fn lemma_note_removed_once(init: Seq<u64>, ents: Seq<Entity>, dz: int, i: int)
    requires
        distinct_handles(init),
        0 <= i < ents.len(),
        is_sim_note(ents[i]),
        moved_z(ents[i], dz) < note_threshold(ents[i].note->0.note_type),
    ensures
        note_marks(init, ents, dz).contains(ents[i].handle),
        marked_count(note_marks(init, ents, dz), ents[i].handle) == 1,
{
    lemma_note_crossing_marked(init, ents, dz, i);
    lemma_note_marks_distinct(init, ents, dz);
    lemma_distinct_contains_count(note_marks(init, ents, dz), ents[i].handle);
}

/// How many entities of a pass are sounding notes past their removal plane:
/// simulated, non-mine, moved position below the plane. Each such note is
/// counted once, independently of the others.
pub open spec fn crossing_sound_count(ents: Seq<Entity>, dz: int) -> nat
    decreases ents.len(),
{
    if ents.len() == 0 {
        0
    } else {
        let e = ents.last();
        crossing_sound_count(ents.drop_last(), dz) + (if is_sim_note(e) && moved_z(e, dz)
            < note_threshold(e.note->0.note_type) && note_sound_on_removal(e.note->0.note_type) {
            1nat
        } else {
            0nat
        })
    }
}

/// On a fresh pass -- distinct entity handles, none marked yet -- the
/// marking pass enqueues exactly one audio cue per sounding note past its
/// removal plane: mines and uncrossed notes add none, every crossed
/// non-mine note adds one.
pub proof fn lemma_slash_count_exact(init: Seq<u64>, ents: Seq<Entity>, dz: int)
    requires
        handles_increasing(ents),
        forall|k: int| 0 <= k < ents.len() ==> !init.contains((#[trigger] ents[k]).handle),
    ensures
        note_slash_count(init, ents, dz) == crossing_sound_count(ents, dz),
    decreases ents.len(),
{
    if ents.len() > 0 {
        let pre = ents.drop_last();
        assert(forall|k: int| 0 <= k < pre.len() ==> (#[trigger] pre[k]) == ents[k]);
        lemma_slash_count_exact(init, pre, dz);
        let prev = note_marks(init, pre, dz);
        let e = ents.last();
        if prev.contains(e.handle) {
            lemma_note_marks_members(init, pre, dz, e.handle);
            assert(!init.contains(ents[ents.len() - 1].handle));
            let i = choose|i: int| 0 <= i < pre.len() && (#[trigger] pre[i]).handle == e.handle;
            assert(ents[i].handle == ents[ents.len() - 1].handle);
            assert(false);
        }
    }
}

/// Marking is idempotent: a pass step over an entity whose handle is
/// already in the pending-removal set changes neither the set nor the
/// number of enqueued audio cues.
pub proof fn lemma_marking_idempotent(init: Seq<u64>, ents: Seq<Entity>, dz: int, e: Entity)
    requires
        note_marks(init, ents, dz).contains(e.handle),
    ensures
        note_marks(init, ents.push(e), dz) == note_marks(init, ents, dz),
        note_slash_count(init, ents.push(e), dz) == note_slash_count(init, ents, dz),
{
    assert(ents.push(e).drop_last() =~= ents);
    assert(ents.push(e).last() == e);
}

/// A mine's removal is silent: a pass step over a mine past its removal
/// plane marks the mine's handle but enqueues no audio cue.
pub proof fn lemma_mine_removal_silent(init: Seq<u64>, ents: Seq<Entity>, dz: int, e: Entity)
    requires
        is_sim_note(e),
        e.note->0.note_type == NoteType::Mine,
        moved_z(e, dz) < MINE_REMOVE_Z,
    ensures
        note_marks(init, ents.push(e), dz).contains(e.handle),
        note_slash_count(init, ents.push(e), dz) == note_slash_count(init, ents, dz),
{
    assert(ents.push(e).drop_last() =~= ents);
    assert(ents.push(e).last() == e);
    let prev = note_marks(init, ents, dz);
    if note_newly_marked(prev, e, dz) {
        let r = prev.push(e.handle);
        assert(r[r.len() - 1] == e.handle);
        assert(r.contains(e.handle));
    } else {
        assert(prev.contains(e.handle));
        let k = choose|k: int| 0 <= k < prev.len() && prev[k] == e.handle;
        assert(note_marks(init, ents.push(e), dz)[k] == e.handle);
        assert(note_marks(init, ents.push(e), dz).contains(e.handle));
    }
}

/// An obstacle is removed exactly when its moved position has dropped below
/// minus its duration -- its trailing edge has fully passed the player --
/// and never earlier: a pass step marks an unmarked obstacle entity if and
/// only if that bound is crossed.
pub proof fn lemma_obstacle_removal_exact(init: Seq<u64>, ents: Seq<Entity>, dz: int, e: Entity)
    requires
        !obstacle_marks(init, ents, dz).contains(e.handle),
    ensures
        obstacle_marks(init, ents.push(e), dz).contains(e.handle) <==> (is_sim_obstacle(e)
            && moved_z(e, dz) < -(e.obstacle->0.duration as int)),
{
    assert(ents.push(e).drop_last() =~= ents);
    assert(ents.push(e).last() == e);
    let prev = obstacle_marks(init, ents, dz);
    if obstacle_newly_marked(prev, e, dz) {
        let r = prev.push(e.handle);
        assert(r[r.len() - 1] == e.handle);
        assert(r.contains(e.handle));
    } else {
        if obstacle_marks(init, ents.push(e), dz).contains(e.handle) {
            assert(prev.contains(e.handle));
        }
    }
}

/// Once a handle stands in the pending-removal set it stays there through
/// any further marking pass: removal marks are never lost.
pub proof fn lemma_note_marks_preserved(init: Seq<u64>, ents: Seq<Entity>, dz: int, x: u64)
    requires
        init.contains(x),
    ensures
        note_marks(init, ents, dz).contains(x),
    decreases ents.len(),
{
    if ents.len() > 0 {
        lemma_note_marks_preserved(init, ents.drop_last(), dz, x);
        let prev = note_marks(init, ents.drop_last(), dz);
        if note_newly_marked(prev, ents.last(), dz) {
            let k = choose|k: int| 0 <= k < prev.len() && prev[k] == x;
            assert(prev.push(ents.last().handle)[k] == x);
            assert(prev.push(ents.last().handle).contains(x));
        }
    }
}

/// A handle marked before a pass is marked exactly once after it as well:
/// later ticks neither duplicate nor drop an issued removal mark.
pub proof fn lemma_note_marked_stays_once(init: Seq<u64>, ents: Seq<Entity>, dz: int, x: u64)
    requires
        distinct_handles(init),
        init.contains(x),
    ensures
        marked_count(note_marks(init, ents, dz), x) == 1,
{
    lemma_note_marks_preserved(init, ents, dz, x);
    lemma_note_marks_distinct(init, ents, dz);
    lemma_distinct_contains_count(note_marks(init, ents, dz), x);
}

} // verus!
