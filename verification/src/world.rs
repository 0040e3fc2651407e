//! The entity store: owns all entities and their facets, supports creation,
//! facet attachment and query, and the two-phase removal protocol.
//!
//! An entity is an identity (a `u64` handle, unique for the store's lifetime
//! and never reused) with up to one facet of each kind. Removal is two-phase:
//! the motion engine marks handles in the pending-removal set, and the driver
//! later drains the set and deletes every marked entity in one pass — no
//! entity is deleted mid-iteration.
use vstd::prelude::*;

use crate::chart::Note;
use crate::chart::Obstacle;
use crate::components::Drawable;
use crate::components::Transform;
use crate::sound::SoundEvents;

verus! {

/// Song-level metadata of the chart currently loaded, in fixed-point
/// thousandths (milli-bpm, milli-beats-per-bar, milli-ms offset).
#[derive(Clone, Copy, PartialEq, Eq, Structural, Debug)]
pub struct CurrentSongInfo {
    pub bpm: i64,
    pub bpb: i64,
    pub time: i64,
}

impl Default for CurrentSongInfo {
    /// Before a chart is loaded all song metadata is zero.
    fn default() -> (r: CurrentSongInfo)
        ensures
            r == (CurrentSongInfo { bpm: 0, bpb: 0, time: 0 }),
    {
        CurrentSongInfo { bpm: 0, bpb: 0, time: 0 }
    }
}

/// The tick-scoped pending-removal set: handles marked for deletion,
/// populated by the motion engine and drained by the driver.
#[derive(Debug)]
pub struct RemoveEntities(pub Vec<u64>);

/// One game entity: a never-reused handle and its optional facets.
#[derive(Debug)]
pub struct Entity {
    pub handle: u64,
    pub transform: Option<Transform>,
    pub drawable: Option<Drawable>,
    pub note: Option<Note>,
    pub obstacle: Option<Obstacle>,
}

/// One facet value, for attachment to an entity.
#[derive(Debug)]
pub enum Facet {
    Spatial(Transform),
    Visual(Drawable),
    NoteTag(Note),
    ObstacleTag(Obstacle),
}

/// The entity this facet value turns `e` into: the matching slot replaced,
/// everything else (the handle above all) kept.
pub open spec fn with_facet(e: Entity, f: Facet) -> Entity {
    match f {
        Facet::Spatial(t) => Entity { transform: Some(t), ..e },
        Facet::Visual(d) => Entity { drawable: Some(d), ..e },
        Facet::NoteTag(n) => Entity { note: Some(n), ..e },
        Facet::ObstacleTag(o) => Entity { obstacle: Some(o), ..e },
    }
}

/// Handles strictly increase along the store, so they are distinct.
pub open spec fn handles_increasing(s: Seq<Entity>) -> bool {
    forall|i: int, j: int|
        0 <= i < j < s.len() ==> (#[trigger] s[i]).handle < (#[trigger] s[j]).handle
}

/// Every live handle lies below the store's next fresh handle.
pub open spec fn handles_below(s: Seq<Entity>, bound: u64) -> bool {
    forall|i: int| 0 <= i < s.len() ==> (#[trigger] s[i]).handle < bound
}

/// No handle is marked twice: marking is idempotent.
pub open spec fn distinct_handles(s: Seq<u64>) -> bool {
    forall|i: int, j: int| 0 <= i < j < s.len() ==> s[i] != s[j]
}

/// Whether some live entity carries this handle.
pub open spec fn live_handle(s: Seq<Entity>, h: u64) -> bool {
    exists|i: int| 0 <= i < s.len() && (#[trigger] s[i]).handle == h
}

/// The index of the live entity carrying this handle (unique once handles
/// increase).
pub open spec fn handle_index(s: Seq<Entity>, h: u64) -> int {
    choose|i: int| 0 <= i < s.len() && (#[trigger] s[i]).handle == h
}

/// The live entity carrying this handle.
pub open spec fn entity_of(s: Seq<Entity>, h: u64) -> Entity {
    s[handle_index(s, h)]
}

pub proof fn lemma_handle_index_at(s: Seq<Entity>, h: u64, i: int)
    requires
        handles_increasing(s),
        0 <= i < s.len(),
        s[i].handle == h,
    ensures
        live_handle(s, h),
        handle_index(s, h) == i,
        entity_of(s, h) == s[i],
{
    assert(live_handle(s, h));
    let k = handle_index(s, h);
    if k < i {
        assert(s[k].handle < s[i].handle);
    } else if k > i {
        assert(s[i].handle < s[k].handle);
    }
}

/// The entities that survive a deletion pass: those whose handle is not in
/// the drained mark list, in store order.
pub open spec fn surviving(s: Seq<Entity>, marked: Seq<u64>) -> Seq<Entity>
    decreases s.len(),
{
    if s.len() == 0 {
        Seq::empty()
    } else {
        let rest = surviving(s.drop_last(), marked);
        if marked.contains(s.last().handle) {
            rest
        } else {
            rest.push(s.last())
        }
    }
}

/// Every survivor is one of the entities the pass started from, and they keep
/// the store's increasing-handle order.
pub proof fn lemma_surviving_wf(s: Seq<Entity>, marked: Seq<u64>)
    ensures
        forall|j: int|
            0 <= j < surviving(s, marked).len() ==> s.contains(#[trigger] surviving(s, marked)[j]),
        handles_increasing(s) ==> handles_increasing(surviving(s, marked)),
    decreases s.len(),
{
    if s.len() > 0 {
        let pre = s.drop_last();
        lemma_surviving_wf(pre, marked);
        let rest = surviving(pre, marked);
        assert(forall|j: int| 0 <= j < pre.len() ==> s[j] == pre[j]);
        assert(forall|j: int| 0 <= j < rest.len() ==> pre.contains(#[trigger] rest[j]));
        assert forall|j: int| 0 <= j < rest.len() implies s.contains(#[trigger] rest[j]) by {
            assert(pre.contains(rest[j]));
            let w = choose|w: int| 0 <= w < pre.len() && pre[w] == rest[j];
            assert(s[w] == rest[j]);
        }
        assert(s.contains(s.last())) by {
            assert(s[s.len() - 1] == s.last());
        }
        if handles_increasing(s) {
            assert(handles_increasing(pre));
            if !marked.contains(s.last().handle) {
                let r = rest.push(s.last());
                assert forall|i: int, j: int| 0 <= i < j < r.len() implies (#[trigger] r[i]).handle
                    < (#[trigger] r[j]).handle by {
                    if j < rest.len() {
                        assert(rest[i].handle < rest[j].handle);
                    } else {
                        assert(r[j] == s.last());
                        assert(pre.contains(rest[i]));
                        let k = choose|k: int| 0 <= k < pre.len() && pre[k] == rest[i];
                        assert(s[k].handle < s[s.len() - 1].handle);
                    }
                }
            }
        }
    }
}

/// The handles of the entities the renderer must draw: those with both a
/// transform and an enabled visual, in store order. Entities whose visual is
/// disabled exist and are simulated but are skipped.
pub open spec fn spec_draw_list(s: Seq<Entity>) -> Seq<u64>
    decreases s.len(),
{
    if s.len() == 0 {
        Seq::empty()
    } else {
        let rest = spec_draw_list(s.drop_last());
        let e = s.last();
        if e.transform is Some && e.drawable is Some && e.drawable->0.enabled {
            rest.push(e.handle)
        } else {
            rest
        }
    }
}

fn contains_handle(v: &Vec<u64>, h: u64) -> (r: bool)
    ensures
        r == v@.contains(h),
{
    let mut i: usize = 0;
    while i < v.len()
        invariant
            0 <= i <= v@.len(),
            forall|j: int| 0 <= j < i ==> v@[j] != h,
        decreases v@.len() - i,
    {
        if v[i] == h {
            assert(v@.contains(h)) by {
                assert(v@[i as int] == h);
            }
            return true;
        }
        i += 1;
    }
    false
}

/// The store of all entities and the tick-shared resources: song metadata,
/// the side-effect queue, and the pending-removal set.
#[derive(Debug)]
pub struct World {
    pub entities: Vec<Entity>,
    pub next_handle: u64,
    pub song_info: CurrentSongInfo,
    pub sound_events: SoundEvents,
    pub remove: RemoveEntities,
}

impl World {
    /// Well-formedness: handles increase along the store, stay below the
    /// next fresh handle, and no handle is marked for removal twice.
    pub open spec fn wf(self) -> bool {
        &&& handles_increasing(self.entities@)
        &&& handles_below(self.entities@, self.next_handle)
        &&& distinct_handles(self.remove.0@)
    }

    /// An empty store with zeroed song metadata, an empty side-effect queue
    /// and an empty pending-removal set.
    pub fn new() -> (r: World)
        ensures
            r.wf(),
            r.entities@.len() == 0,
            r.next_handle == 0,
            r.song_info == (CurrentSongInfo { bpm: 0, bpb: 0, time: 0 }),
            r.sound_events.queue@.len() == 0,
            r.remove.0@.len() == 0,
    {
        World {
            entities: Vec::new(),
            next_handle: 0,
            song_info: CurrentSongInfo::default(),
            sound_events: SoundEvents::new(),
            remove: RemoveEntities(Vec::new()),
        }
    }

    /// Allocates a fresh, never-before-issued handle and a facetless entity
    /// under it.
    pub fn create(&mut self) -> (h: u64)
        requires
            old(self).wf(),
            old(self).next_handle < u64::MAX,
        ensures
            final(self).wf(),
            h == old(self).next_handle,
            final(self).next_handle == old(self).next_handle + 1,
            final(self).entities@ == old(self).entities@.push(
                Entity { handle: h, transform: None, drawable: None, note: None, obstacle: None },
            ),
            final(self).song_info == old(self).song_info,
            final(self).sound_events == old(self).sound_events,
            final(self).remove == old(self).remove,
    {
        let h = self.next_handle;
        self.next_handle = h + 1;
        self.entities.push(
            Entity { handle: h, transform: None, drawable: None, note: None, obstacle: None },
        );
        proof {
            let s = self.entities@;
            assert forall|i: int, j: int| 0 <= i < j < s.len() implies (#[trigger] s[i]).handle < (
            #[trigger] s[j]).handle by {
                if j < s.len() - 1 {
                    assert(old(self).entities@[i].handle < old(self).entities@[j].handle);
                } else {
                    assert(old(self).entities@[i].handle < h);
                }
            }
        }
        h
    }

    /// Attaches (or replaces) one facet on the entity carrying this handle.
    /// Returns whether such an entity is live; on a dead handle the store is
    /// unchanged.
    pub fn attach(&mut self, h: u64, f: Facet) -> (found: bool)
        requires
            old(self).wf(),
        ensures
            final(self).wf(),
            found == live_handle(old(self).entities@, h),
            final(self).entities@.len() == old(self).entities@.len(),
            forall|i: int|
                0 <= i < old(self).entities@.len() ==> final(self).entities@[i] == (if old(
                    self,
                ).entities@[i].handle == h {
                    with_facet(old(self).entities@[i], f)
                } else {
                    old(self).entities@[i]
                }),
            final(self).next_handle == old(self).next_handle,
            final(self).song_info == old(self).song_info,
            final(self).sound_events == old(self).sound_events,
            final(self).remove == old(self).remove,
    {
        let n = self.entities.len();
        let mut i: usize = 0;
        while i < n
            invariant
                0 <= i <= n,
                n == self.entities@.len(),
                old(self).wf(),
                *self == *old(self),
                forall|j: int| 0 <= j < i ==> (#[trigger] self.entities@[j]).handle != h,
            decreases n - i,
        {
            if self.entities[i].handle == h {
                let ent = &mut self.entities[i];
                match f {
                    Facet::Spatial(t) => { ent.transform = Some(t) },
                    Facet::Visual(d) => { ent.drawable = Some(d) },
                    Facet::NoteTag(nt) => { ent.note = Some(nt) },
                    Facet::ObstacleTag(o) => { ent.obstacle = Some(o) },
                }
                proof {
                    let s_old = old(self).entities@;
                    let s_new = self.entities@;
                    assert(live_handle(s_old, h)) by {
                        assert(s_old[i as int].handle == h);
                    }
                    assert(s_new == s_old.update(i as int, with_facet(s_old[i as int], f)));
                    assert(forall|j: int|
                        0 <= j < s_old.len() ==> (#[trigger] s_new[j]).handle == s_old[j].handle);
                }
                return true;
            }
            i += 1;
        }
        false
    }

    fn find_index(&self, h: u64) -> (r: Option<usize>)
        requires
            self.wf(),
        ensures
            r is Some <==> live_handle(self.entities@, h),
            r matches Some(i) ==> 0 <= i < self.entities@.len() && self.entities@[
                i as int
            ].handle == h && handle_index(self.entities@, h) == i,
    {
        let n = self.entities.len();
        let mut i: usize = 0;
        while i < n
            invariant
                0 <= i <= n,
                n == self.entities@.len(),
                self.wf(),
                forall|j: int| 0 <= j < i ==> (#[trigger] self.entities@[j]).handle != h,
            decreases n - i,
        {
            if self.entities[i].handle == h {
                proof {
                    lemma_handle_index_at(self.entities@, h, i as int);
                }
                return Some(i);
            }
            i += 1;
        }
        None
    }

    /// The transform facet of the entity under this handle, if both exist.
    pub fn get_transform(&self, h: u64) -> (r: Option<&Transform>)
        requires
            self.wf(),
        ensures
            r is Some <==> live_handle(self.entities@, h) && entity_of(self.entities@, h).transform
                is Some,
            r matches Some(t) ==> entity_of(self.entities@, h).transform == Some(*t),
    {
        match self.find_index(h) {
            Some(i) => self.entities[i].transform.as_ref(),
            None => None,
        }
    }

    /// The visual facet of the entity under this handle, if both exist.
    pub fn get_drawable(&self, h: u64) -> (r: Option<&Drawable>)
        requires
            self.wf(),
        ensures
            r is Some <==> live_handle(self.entities@, h) && entity_of(self.entities@, h).drawable
                is Some,
            r matches Some(d) ==> entity_of(self.entities@, h).drawable matches Some(d0) && d0 == *d,
    {
        match self.find_index(h) {
            Some(i) => self.entities[i].drawable.as_ref(),
            None => None,
        }
    }

    /// The note tag of the entity under this handle, if both exist.
    pub fn get_note(&self, h: u64) -> (r: Option<&Note>)
        requires
            self.wf(),
        ensures
            r is Some <==> live_handle(self.entities@, h) && entity_of(self.entities@, h).note
                is Some,
            r matches Some(n) ==> entity_of(self.entities@, h).note == Some(*n),
    {
        match self.find_index(h) {
            Some(i) => self.entities[i].note.as_ref(),
            None => None,
        }
    }

    /// The obstacle tag of the entity under this handle, if both exist.
    pub fn get_obstacle(&self, h: u64) -> (r: Option<&Obstacle>)
        requires
            self.wf(),
        ensures
            r is Some <==> live_handle(self.entities@, h) && entity_of(self.entities@, h).obstacle
                is Some,
            r matches Some(o) ==> entity_of(self.entities@, h).obstacle == Some(*o),
    {
        match self.find_index(h) {
            Some(i) => self.entities[i].obstacle.as_ref(),
            None => None,
        }
    }

    /// Marks an entity for removal; a second mark of the same handle is a
    /// no-op. Returns whether the handle was newly marked.
    pub fn mark(&mut self, h: u64) -> (newly: bool)
        requires
            old(self).wf(),
        ensures
            final(self).wf(),
            newly == !old(self).remove.0@.contains(h),
            final(self).remove.0@ == (if newly {
                old(self).remove.0@.push(h)
            } else {
                old(self).remove.0@
            }),
            final(self).entities == old(self).entities,
            final(self).next_handle == old(self).next_handle,
            final(self).song_info == old(self).song_info,
            final(self).sound_events == old(self).sound_events,
    {
        if contains_handle(&self.remove.0, h) {
            false
        } else {
            self.remove.0.push(h);
            proof {
                let s = final(self).remove.0@;
                assert forall|i: int, j: int| 0 <= i < j < s.len() implies s[i] != s[j] by {
                    if j < s.len() - 1 {
                        assert(old(self).remove.0@[i] != old(self).remove.0@[j]);
                    } else {
                        assert(!old(self).remove.0@.contains(h));
                        assert(old(self).remove.0@[i] != h);
                    }
                }
            }
            true
        }
    }

    /// Deletes every entity whose handle stands in `marked`, in one pass,
    /// keeping the order of the survivors. Handles of deleted entities are
    /// never reissued: the fresh-handle counter does not move.
    pub fn destroy_all(&mut self, marked: &Vec<u64>)
        requires
            old(self).wf(),
        ensures
            final(self).wf(),
            final(self).entities@ == surviving(old(self).entities@, marked@),
            final(self).next_handle == old(self).next_handle,
            final(self).song_info == old(self).song_info,
            final(self).sound_events == old(self).sound_events,
            final(self).remove == old(self).remove,
    {
        let ghost orig = self.entities@;
        let mut i: usize = 0;
        let ghost mut kk: int = 0;
        while i < self.entities.len()
            invariant
                0 <= i,
                0 <= kk <= orig.len(),
                i as int == surviving(orig.take(kk), marked@).len(),
                self.entities@ == surviving(orig.take(kk), marked@) + orig.skip(kk),
                self.next_handle == old(self).next_handle,
                self.song_info == old(self).song_info,
                self.sound_events == old(self).sound_events,
                self.remove == old(self).remove,
            decreases orig.len() - kk,
        {
            proof {
                assert(kk < orig.len());
                assert(self.entities@[i as int] == orig[kk]) by {
                    assert(orig.skip(kk)[0] == orig[kk]);
                }
                assert(orig.take(kk + 1).drop_last() == orig.take(kk));
                assert(orig.take(kk + 1).last() == orig[kk]);
            }
            let marked_here = contains_handle(marked, self.entities[i].handle);
            if marked_here {
                self.entities.remove(i);
                proof {
                    assert(self.entities@ =~= surviving(orig.take(kk + 1), marked@) + orig.skip(
                        kk + 1,
                    ));
                }
            } else {
                i += 1;
                proof {
                    assert(self.entities@ =~= surviving(orig.take(kk + 1), marked@) + orig.skip(
                        kk + 1,
                    )) by {
                        assert(surviving(orig.take(kk + 1), marked@) == surviving(
                            orig.take(kk),
                            marked@,
                        ).push(orig[kk]));
                        assert(orig.skip(kk) =~= seq![orig[kk]] + orig.skip(kk + 1));
                    }
                }
            }
            proof {
                kk = kk + 1;
            }
        }
        proof {
            assert(kk == orig.len());
            assert(orig.take(orig.len() as int) == orig);
            assert(self.entities@ =~= surviving(orig, marked@));
            lemma_surviving_wf(orig, marked@);
            assert forall|j: int|
                0 <= j < self.entities@.len() implies (#[trigger] self.entities@[j]).handle < old(
                self,
            ).next_handle by {
                assert(orig.contains(self.entities@[j]));
                let w = choose|w: int| 0 <= w < orig.len() && orig[w] == self.entities@[j];
                assert(orig[w].handle < old(self).next_handle);
            }
        }
    }

    /// Drains the pending-removal set: deletes every marked entity, clears
    /// the set, and returns the drained handles.
    pub fn drain_removals(&mut self) -> (removed: Vec<u64>)
        requires
            old(self).wf(),
        ensures
            final(self).wf(),
            removed@ == old(self).remove.0@,
            final(self).remove.0@.len() == 0,
            final(self).entities@ == surviving(old(self).entities@, old(self).remove.0@),
            final(self).next_handle == old(self).next_handle,
            final(self).song_info == old(self).song_info,
            final(self).sound_events == old(self).sound_events,
    {
        let mut drained: Vec<u64> = Vec::new();
        core::mem::swap(&mut drained, &mut self.remove.0);
        self.destroy_all(&drained);
        drained
    }

    /// The handles the renderer must draw this tick, in store order:
    /// entities owning a transform and an enabled visual. Disabled visuals
    /// are skipped, as the render collaborator requires.
    pub fn draw_list(&self) -> (r: Vec<u64>)
        ensures
            r@ == spec_draw_list(self.entities@),
    {
        let mut r: Vec<u64> = Vec::new();
        let n = self.entities.len();
        let mut i: usize = 0;
        while i < n
            invariant
                0 <= i <= n,
                n == self.entities@.len(),
                r@ == spec_draw_list(self.entities@.take(i as int)),
            decreases n - i,
        {
            proof {
                assert(self.entities@.take(i as int + 1).drop_last() == self.entities@.take(
                    i as int,
                ));
                assert(self.entities@.take(i as int + 1).last() == self.entities@[i as int]);
            }
            let e = &self.entities[i];
            if e.transform.is_some() {
                match &e.drawable {
                    Some(d) => {
                        if d.enabled {
                            r.push(e.handle);
                        }
                    },
                    None => {},
                }
            }
            i += 1;
        }
        proof {
            assert(self.entities@.take(n as int) == self.entities@);
        }
        r
    }
}

} // verus!
