use vstd::prelude::*;
use crate::ids::{RenderTargetId, SeqNo};
use crate::render_surface::{
    RenderSurfaceSnapshot, RenderSurfaceVideoSurfaceSnapshot, VideoSurfaceView, video_surfaces_view,
};

verus! {

/// A video surface of a render target, by id.
#[derive(Debug, Clone, PartialEq, Eq, Hash)]
pub struct WgpuVideoSurfaceKey {
    pub target_id: RenderTargetId,
    pub id: String,
}

impl View for WgpuVideoSurfaceKey {
    type V = (RenderTargetId, Seq<char>);

    open spec fn view(&self) -> (RenderTargetId, Seq<char>) {
        (self.target_id, self.id@)
    }
}

/// A video surface as the last snapshot of its target placed it.
#[derive(Debug, Clone, PartialEq, Eq)]
pub struct WgpuVideoSurfaceRegistration {
    pub key: WgpuVideoSurfaceKey,
    pub latest_seq: SeqNo,
    pub surface: RenderSurfaceVideoSurfaceSnapshot,
}

pub struct RegistrationView {
    pub key: (RenderTargetId, Seq<char>),
    pub latest_seq: SeqNo,
    pub surface: VideoSurfaceView,
}

impl View for WgpuVideoSurfaceRegistration {
    type V = RegistrationView;

    open spec fn view(&self) -> RegistrationView {
        RegistrationView { key: self.key@, latest_seq: self.latest_seq, surface: self.surface@ }
    }
}

/// A registered video surface and the frame attached to it, if any.
pub struct WgpuVideoSurfaceState<F> {
    pub registration: WgpuVideoSurfaceRegistration,
    pub frame: Option<F>,
}

/// The video surfaces of all render targets, each with the frame last
/// attached to it. Frames are whatever the renderer uploads; the registry
/// only keeps them.
pub struct WgpuVideoSurfaceRegistry<F> {
    entries: Vec<WgpuVideoSurfaceState<F>>,
}

pub open spec fn key_of<F>(state: WgpuVideoSurfaceState<F>) -> (RenderTargetId, Seq<char>) {
    state.registration.key@
}

pub open spec fn has_key<F>(entries: Seq<WgpuVideoSurfaceState<F>>, key: (RenderTargetId, Seq<char>)) -> bool {
    exists|i: int| 0 <= i < entries.len() && key_of(#[trigger] entries[i]) == key
}

/// The entries by key: each surface's registration and frame.
pub open spec fn entries_map<F>(entries: Seq<WgpuVideoSurfaceState<F>>) -> Map<
    (RenderTargetId, Seq<char>),
    (RegistrationView, Option<F>),
> {
    Map::new(
        |key: (RenderTargetId, Seq<char>)| has_key(entries, key),
        |key: (RenderTargetId, Seq<char>)|
            {
                let e = entries[choose|i: int| 0 <= i < entries.len() && key_of(#[trigger] entries[i]) == key];
                (e.registration@, e.frame)
            },
    )
}

pub open spec fn keys_distinct<F>(entries: Seq<WgpuVideoSurfaceState<F>>) -> bool {
    forall|i: int, j: int| 0 <= i < j < entries.len() ==> key_of(#[trigger] entries[i]) != key_of(#[trigger] entries[j])
}

proof fn lemma_entries_map_at<F>(entries: Seq<WgpuVideoSurfaceState<F>>, i: int)
    requires
        keys_distinct(entries),
        0 <= i < entries.len(),
    ensures
        entries_map(entries).contains_key(key_of(entries[i])),
        entries_map(entries)[key_of(entries[i])] == (entries[i].registration@, entries[i].frame),
{
    let key = key_of(entries[i]);
    assert(has_key(entries, key));
    let j = choose|j: int| 0 <= j < entries.len() && key_of(#[trigger] entries[j]) == key;
    if j != i {
        if j < i {
            assert(key_of(entries[j]) != key_of(entries[i]));
        } else {
            assert(key_of(entries[i]) != key_of(entries[j]));
        }
    }
}

/// The last of the first `n` surfaces with the given id.
pub open spec fn last_with_id(surfaces: Seq<VideoSurfaceView>, id: Seq<char>, n: int) -> Option<VideoSurfaceView>
    decreases n,
{
    if n <= 0 {
        None
    } else if surfaces[n - 1].id == id {
        Some(surfaces[n - 1])
    } else {
        last_with_id(surfaces, id, n - 1)
    }
}

/// The surfaces after syncing a snapshot: its target's surfaces are exactly
/// those the snapshot places, each registered at the snapshot's sequence
/// number with the last placement of its id, keeping an attached frame;
/// other targets' surfaces are untouched.
pub open spec fn synced<F>(
    surfaces: Map<(RenderTargetId, Seq<char>), (RegistrationView, Option<F>)>,
    target_id: RenderTargetId,
    latest_seq: SeqNo,
    placed: Seq<VideoSurfaceView>,
) -> Map<(RenderTargetId, Seq<char>), (RegistrationView, Option<F>)> {
    Map::new(
        |key: (RenderTargetId, Seq<char>)|
            if key.0 == target_id {
                last_with_id(placed, key.1, placed.len() as int) is Some
            } else {
                surfaces.contains_key(key)
            },
        |key: (RenderTargetId, Seq<char>)|
            if key.0 == target_id {
                (
                    RegistrationView {
                        key,
                        latest_seq,
                        surface: last_with_id(placed, key.1, placed.len() as int)->0,
                    },
                    if surfaces.contains_key(key) {
                        surfaces[key].1
                    } else {
                        None
                    },
                )
            } else {
                surfaces[key]
            },
    )
}

fn copy_surface(surface: &RenderSurfaceVideoSurfaceSnapshot) -> (copy: RenderSurfaceVideoSurfaceSnapshot)
    ensures
        copy@ == surface@,
{
    RenderSurfaceVideoSurfaceSnapshot {
        id: surface.id.clone(),
        x_px: surface.x_px,
        y_px: surface.y_px,
        width_px: surface.width_px,
        height_px: surface.height_px,
    }
}

fn copy_registration(registration: &WgpuVideoSurfaceRegistration) -> (copy: WgpuVideoSurfaceRegistration)
    ensures
        copy@ == registration@,
{
    WgpuVideoSurfaceRegistration {
        key: WgpuVideoSurfaceKey { target_id: registration.key.target_id, id: registration.key.id.clone() },
        latest_seq: registration.latest_seq,
        surface: copy_surface(&registration.surface),
    }
}

impl<F> WgpuVideoSurfaceRegistry<F> {
    /// The registered surfaces by key, each with its attached frame.
    pub closed spec fn surfaces(&self) -> Map<(RenderTargetId, Seq<char>), (RegistrationView, Option<F>)> {
        entries_map(self.entries@)
    }

    pub closed spec fn well_formed(&self) -> bool {
        keys_distinct(self.entries@)
    }

    pub fn new() -> (registry: Self)
        ensures
            registry.well_formed(),
            registry.surfaces() == Map::<(RenderTargetId, Seq<char>), (RegistrationView, Option<F>)>::empty(),
    {
        let registry = WgpuVideoSurfaceRegistry { entries: Vec::new() };
        assert(registry.surfaces() =~= Map::<(RenderTargetId, Seq<char>), (RegistrationView, Option<F>)>::empty());
        registry
    }

    fn find(&self, target_id: RenderTargetId, id: &String) -> (found: Option<usize>)
        requires
            self.well_formed(),
        ensures
            match found {
                Some(i) => i < self.entries@.len() && key_of(self.entries@[i as int]) == (target_id, id@),
                None => !self.surfaces().contains_key((target_id, id@)),
            },
    {
        let mut i: usize = 0;
        while i < self.entries.len()
            invariant
                i <= self.entries@.len(),
                forall|j: int| 0 <= j < i ==> key_of(#[trigger] self.entries@[j]) != (target_id, id@),
            decreases self.entries@.len() - i,
        {
            let key = &self.entries[i].registration.key;
            if key.target_id == target_id && key.id == *id {
                return Some(i);
            }
            i = i + 1;
        }
        proof {
            if has_key(self.entries@, (target_id, id@)) {
                let j = choose|j: int| 0 <= j < self.entries@.len() && key_of(#[trigger] self.entries@[j]) == (target_id, id@);
                assert(key_of(self.entries@[j]) == (target_id, id@));
            }
        }
        None
    }

    /// Drops every surface of a target; tells whether there was one.
    pub fn remove_render_target(&mut self, target_id: RenderTargetId) -> (removed: bool)
        requires
            old(self).well_formed(),
        ensures
            final(self).well_formed(),
            removed == exists|key: (RenderTargetId, Seq<char>)|
                old(self).surfaces().contains_key(key) && key.0 == target_id,
            final(self).surfaces() == old(self).surfaces().restrict(
                Set::new(|key: (RenderTargetId, Seq<char>)| key.0 != target_id),
            ),
    {
        let mut entries: Vec<WgpuVideoSurfaceState<F>> = Vec::new();
        std::mem::swap(&mut entries, &mut self.entries);
        let (kept, removed) = retain_live(entries, target_id, None);
        self.entries = kept;
        proof {
            assert(kept_keys(target_id, None) =~= Set::new(|key: (RenderTargetId, Seq<char>)| key.0 != target_id));
            if removed {
                let key = choose|key: (RenderTargetId, Seq<char>)|
                    entries_map(old(self).entries@).contains_key(key) && !kept_key(key, target_id, None);
                assert(old(self).surfaces().contains_key(key) && key.0 == target_id);
            }
            if exists|key: (RenderTargetId, Seq<char>)| old(self).surfaces().contains_key(key) && key.0 == target_id {
                let key = choose|key: (RenderTargetId, Seq<char>)|
                    old(self).surfaces().contains_key(key) && key.0 == target_id;
                assert(entries_map(old(self).entries@).contains_key(key) && !kept_key(key, target_id, None));
            }
        }
        removed
    }
}

/// Whether a surface stays: it is of another target, or the live surfaces
/// place its id.
pub open spec fn kept_key(
    key: (RenderTargetId, Seq<char>),
    target_id: RenderTargetId,
    live: Option<Seq<VideoSurfaceView>>,
) -> bool {
    key.0 != target_id || (live matches Some(placed) && last_with_id(placed, key.1, placed.len() as int) is Some)
}

/// The keys that stay.
pub open spec fn kept_keys(target_id: RenderTargetId, live: Option<Seq<VideoSurfaceView>>) -> Set<
    (RenderTargetId, Seq<char>),
> {
    Set::new(|key: (RenderTargetId, Seq<char>)| kept_key(key, target_id, live))
}

pub open spec fn live_view_of(live: Option<&Vec<RenderSurfaceVideoSurfaceSnapshot>>) -> Option<Seq<VideoSurfaceView>> {
    match live {
        Some(l) => Some(video_surfaces_view(l@)),
        None => None,
    }
}

/// Whether the surfaces place a surface with the given id.
fn places_id(surfaces: &Vec<RenderSurfaceVideoSurfaceSnapshot>, id: &String) -> (placed: bool)
    ensures
        placed == (last_with_id(video_surfaces_view(surfaces@), id@, surfaces@.len() as int) is Some),
{
    let ghost view = video_surfaces_view(surfaces@);
    let mut found = false;
    let mut k: usize = 0;
    while k < surfaces.len()
        invariant
            k <= surfaces@.len(),
            view == video_surfaces_view(surfaces@),
            found == (last_with_id(view, id@, k as int) is Some),
        decreases surfaces@.len() - k,
    {
        if surfaces[k].id == *id {
            found = true;
        }
        assert(view[k as int].id == surfaces@[k as int].id@);
        k = k + 1;
    }
    found
}

/// Keeps the entries that stay, in order; tells whether one was dropped.
fn retain_live<F>(
    entries: Vec<WgpuVideoSurfaceState<F>>,
    target_id: RenderTargetId,
    live: Option<&Vec<RenderSurfaceVideoSurfaceSnapshot>>,
) -> (result: (Vec<WgpuVideoSurfaceState<F>>, bool))
    requires
        keys_distinct(entries@),
    ensures
        keys_distinct(result.0@),
        entries_map(result.0@) == entries_map(entries@).restrict(kept_keys(target_id, live_view_of(live))),
        result.1 == exists|key: (RenderTargetId, Seq<char>)|
            entries_map(entries@).contains_key(key) && !kept_key(key, target_id, live_view_of(live)),
{
    let ghost live_view = live_view_of(live);
    let ghost before = entries@;
    let count = entries.len();
    let mut old_entries = entries;
    let mut kept: Vec<WgpuVideoSurfaceState<F>> = Vec::new();
    let mut removed = false;
    let mut i: usize = 0;
    let ghost mut origin: Seq<int> = Seq::empty();
    let ghost mut position: Seq<int> = Seq::empty();
    while old_entries.len() > 0
        invariant
            i + old_entries@.len() == before.len(),
            count == before.len(),
            old_entries@ == before.subrange(i as int, before.len() as int),
            live_view == live_view_of(live),
            keys_distinct(before),
            keys_distinct(kept@),
            origin.len() == kept@.len(),
            position.len() == i,
            forall|j: int| 0 <= j < kept@.len() ==> kept_key(key_of(#[trigger] kept@[j]), target_id, live_view),
            forall|j: int|
                0 <= j < kept@.len() ==> 0 <= #[trigger] origin[j] < i && before[origin[j]] == kept@[j],
            forall|m: int|
                0 <= m < i && kept_key(key_of(before[m]), target_id, live_view) ==> 0 <= #[trigger] position[m]
                    < kept@.len() && kept@[position[m]] == before[m],
            removed == exists|m: int| 0 <= m < i && !kept_key(key_of(#[trigger] before[m]), target_id, live_view),
        decreases old_entries@.len(),
    {
        let entry = old_entries.remove(0);
        assert(entry == before[i as int]);
        let stays = entry.registration.key.target_id != target_id || match live {
            Some(l) => places_id(l, &entry.registration.key.id),
            None => false,
        };
        assert(stays == kept_key(key_of(entry), target_id, live_view));
        if !stays {
            removed = true;
            proof {
                position = position.push(0);
            }
        } else {
            let ghost prior = kept@;
            proof {
                assert forall|j: int| 0 <= j < prior.len() implies key_of(#[trigger] prior[j]) != key_of(entry) by {
                    assert(before[origin[j]] == prior[j]);
                    assert(key_of(before[origin[j]]) != key_of(before[i as int]));
                }
            }
            kept.push(entry);
            proof {
                origin = origin.push(i as int);
                position = position.push(prior.len() as int);
                assert forall|a: int, b: int| 0 <= a < b < kept@.len() implies key_of(#[trigger] kept@[a])
                    != key_of(#[trigger] kept@[b]) by {
                    if b < prior.len() {
                        assert(kept@[a] == prior[a] && kept@[b] == prior[b]);
                    } else {
                        assert(kept@[a] == prior[a]);
                    }
                }
            }
        }
        proof {
            if !stays {
                assert(!kept_key(key_of(before[i as int]), target_id, live_view));
            }
            assert(old_entries@ =~= before.subrange(i as int + 1, before.len() as int));
        }
        i = i + 1;
    }
    proof {
        let after = kept@;
        let expected = entries_map(before).restrict(kept_keys(target_id, live_view));
        assert forall|key: (RenderTargetId, Seq<char>)| #[trigger] entries_map(after).contains_key(key)
            == expected.contains_key(key) && (expected.contains_key(key) ==> entries_map(after)[key]
            == expected[key]) by {
            if expected.contains_key(key) {
                let m = choose|m: int| 0 <= m < before.len() && key_of(#[trigger] before[m]) == key;
                lemma_entries_map_at(before, m);
                let j = position[m];
                assert(after[j] == before[m]);
                lemma_entries_map_at(after, j);
            } else if has_key(after, key) {
                let j = choose|j: int| 0 <= j < after.len() && key_of(#[trigger] after[j]) == key;
                let m = origin[j];
                assert(before[m] == after[j]);
                assert(key_of(before[m]) == key);
                assert(has_key(before, key));
            }
        }
        assert(entries_map(after) =~= expected);
        if removed {
            let m = choose|m: int| 0 <= m < before.len() && !kept_key(key_of(#[trigger] before[m]), target_id, live_view);
            lemma_entries_map_at(before, m);
            assert(entries_map(before).contains_key(key_of(before[m])));
        }
        if exists|key: (RenderTargetId, Seq<char>)|
            entries_map(before).contains_key(key) && !kept_key(key, target_id, live_view) {
            let key = choose|key: (RenderTargetId, Seq<char>)|
                entries_map(before).contains_key(key) && !kept_key(key, target_id, live_view);
            let m = choose|m: int| 0 <= m < before.len() && key_of(#[trigger] before[m]) == key;
            assert(!kept_key(key_of(before[m]), target_id, live_view));
        }
    }
    (kept, removed)
}

/// The surfaces after registering the first `k` placements of a snapshot:
/// each placed id holds its last placement so far, keeping its frame.
pub open spec fn registered_upto<F>(
    surfaces: Map<(RenderTargetId, Seq<char>), (RegistrationView, Option<F>)>,
    target_id: RenderTargetId,
    latest_seq: SeqNo,
    placed: Seq<VideoSurfaceView>,
    k: int,
) -> Map<(RenderTargetId, Seq<char>), (RegistrationView, Option<F>)> {
    Map::new(
        |key: (RenderTargetId, Seq<char>)|
            surfaces.contains_key(key) || (key.0 == target_id && last_with_id(placed, key.1, k) is Some),
        |key: (RenderTargetId, Seq<char>)|
            if key.0 == target_id && last_with_id(placed, key.1, k) is Some {
                (
                    RegistrationView { key, latest_seq, surface: last_with_id(placed, key.1, k)->0 },
                    if surfaces.contains_key(key) {
                        surfaces[key].1
                    } else {
                        None
                    },
                )
            } else {
                surfaces[key]
            },
    )
}

impl<F> WgpuVideoSurfaceRegistry<F> {
    /// Registers a surface: replaces the registration of its key, keeping
    /// its frame, or adds it without one.
    fn register(&mut self, registration: WgpuVideoSurfaceRegistration)
        requires
            old(self).well_formed(),
        ensures
            final(self).well_formed(),
            final(self).surfaces() == old(self).surfaces().insert(
                registration.key@,
                (
                    registration@,
                    if old(self).surfaces().contains_key(registration.key@) {
                        old(self).surfaces()[registration.key@].1
                    } else {
                        None
                    },
                ),
            ),
    {
        let ghost before = self.entries@;
        let found = self.find(registration.key.target_id, &registration.key.id);
        let ghost key = registration.key@;
        match found {
            Some(i) => {
                proof {
                    lemma_entries_map_at(before, i as int);
                }
                let mut state = self.entries.remove(i);
                state.registration = registration;
                self.entries.insert(i, state);
                proof {
                    let after = self.entries@;
                    assert(after =~= before.update(i as int, after[i as int]));
                    assert forall|a: int, b: int| 0 <= a < b < after.len() implies key_of(#[trigger] after[a])
                        != key_of(#[trigger] after[b]) by {
                        assert(key_of(after[i as int]) == key_of(before[i as int]));
                        if a != i && b != i {
                            assert(after[a] == before[a] && after[b] == before[b]);
                        } else if a == i {
                            assert(after[b] == before[b]);
                        } else {
                            assert(after[a] == before[a]);
                        }
                    }
                    let expected = entries_map(before).insert(key, (after[i as int].registration@, before[i as int].frame));
                    assert forall|k: (RenderTargetId, Seq<char>)| #[trigger] entries_map(after).contains_key(k)
                        == expected.contains_key(k) && (expected.contains_key(k) ==> entries_map(after)[k]
                        == expected[k]) by {
                        if k == key {
                            lemma_entries_map_at(after, i as int);
                        } else if has_key(before, k) {
                            let m = choose|m: int| 0 <= m < before.len() && key_of(#[trigger] before[m]) == k;
                            lemma_entries_map_at(before, m);
                            assert(m != i);
                            assert(after[m] == before[m]);
                            lemma_entries_map_at(after, m);
                        } else if has_key(after, k) {
                            let m = choose|m: int| 0 <= m < after.len() && key_of(#[trigger] after[m]) == k;
                            assert(m != i);
                            assert(before[m] == after[m]);
                            assert(has_key(before, k));
                        }
                    }
                    assert(entries_map(after) =~= expected);
                }
            },
            None => {
                self.entries.push(WgpuVideoSurfaceState { registration, frame: None });
                proof {
                    let after = self.entries@;
                    let n = before.len() as int;
                    assert forall|j: int| 0 <= j < n implies key_of(#[trigger] before[j]) != key by {
                        if key_of(before[j]) == key {
                            assert(has_key(before, key));
                        }
                    }
                    assert forall|a: int, b: int| 0 <= a < b < after.len() implies key_of(#[trigger] after[a])
                        != key_of(#[trigger] after[b]) by {
                        if b < n {
                            assert(after[a] == before[a] && after[b] == before[b]);
                        } else {
                            assert(after[a] == before[a]);
                        }
                    }
                    let expected = entries_map(before).insert(key, (after[n].registration@, None));
                    assert forall|k: (RenderTargetId, Seq<char>)| #[trigger] entries_map(after).contains_key(k)
                        == expected.contains_key(k) && (expected.contains_key(k) ==> entries_map(after)[k]
                        == expected[k]) by {
                        if k == key {
                            lemma_entries_map_at(after, n);
                        } else if has_key(before, k) {
                            let m = choose|m: int| 0 <= m < before.len() && key_of(#[trigger] before[m]) == k;
                            lemma_entries_map_at(before, m);
                            assert(after[m] == before[m]);
                            lemma_entries_map_at(after, m);
                        } else if has_key(after, k) {
                            let m = choose|m: int| 0 <= m < after.len() && key_of(#[trigger] after[m]) == k;
                            assert(m < n);
                            assert(before[m] == after[m]);
                            assert(has_key(before, k));
                        }
                    }
                    assert(entries_map(after) =~= expected);
                }
            },
        }
    }

    /// Syncs the surfaces of a snapshot's target with the snapshot: registers
    /// each surface it places at its sequence number (the last placement of
    /// an id winning), keeps the frames of surfaces that stay, and drops the
    /// target's surfaces it no longer places.
    pub fn sync_snapshot(&mut self, snapshot: &RenderSurfaceSnapshot)
        requires
            old(self).well_formed(),
        ensures
            final(self).well_formed(),
            final(self).surfaces() == synced(
                old(self).surfaces(),
                snapshot.target_id,
                snapshot.latest_seq,
                snapshot@.video_surfaces,
            ),
    {
        let ghost start = self.surfaces();
        let ghost placed = snapshot@.video_surfaces;
        let mut k: usize = 0;
        assert(registered_upto(start, snapshot.target_id, snapshot.latest_seq, placed, 0) =~= start);
        while k < snapshot.video_surfaces.len()
            invariant
                k <= snapshot.video_surfaces@.len(),
                placed == snapshot@.video_surfaces,
                placed == video_surfaces_view(snapshot.video_surfaces@),
                self.well_formed(),
                self.surfaces() == registered_upto(start, snapshot.target_id, snapshot.latest_seq, placed, k as int),
            decreases snapshot.video_surfaces@.len() - k,
        {
            let surface = &snapshot.video_surfaces[k];
            let registration = WgpuVideoSurfaceRegistration {
                key: WgpuVideoSurfaceKey { target_id: snapshot.target_id, id: surface.id.clone() },
                latest_seq: snapshot.latest_seq,
                surface: copy_surface(surface),
            };
            let ghost before = self.surfaces();
            self.register(registration);
            proof {
                let next = registered_upto(start, snapshot.target_id, snapshot.latest_seq, placed, k as int + 1);
                assert(placed[k as int] == surface@);
                assert forall|key: (RenderTargetId, Seq<char>)| #[trigger] self.surfaces().contains_key(key)
                    == next.contains_key(key) && (next.contains_key(key) ==> self.surfaces()[key] == next[key]) by {
                }
                assert(self.surfaces() =~= next);
            }
            k = k + 1;
        }
        let mut entries: Vec<WgpuVideoSurfaceState<F>> = Vec::new();
        std::mem::swap(&mut entries, &mut self.entries);
        let (kept, _) = retain_live(entries, snapshot.target_id, Some(&snapshot.video_surfaces));
        self.entries = kept;
        proof {
            let registered = registered_upto(
                start,
                snapshot.target_id,
                snapshot.latest_seq,
                placed,
                placed.len() as int,
            );
            let expected = synced(start, snapshot.target_id, snapshot.latest_seq, placed);
            assert(live_view_of(Some(&snapshot.video_surfaces)) == Some(placed));
            assert(self.surfaces() =~= expected);
        }
    }
}

impl<F> WgpuVideoSurfaceRegistry<F> {
    /// Attaches `frame` (or none) to the surface at `i`, keeping its
    /// registration.
    fn set_frame(&mut self, i: usize, frame: Option<F>)
        requires
            old(self).well_formed(),
            i < old(self).entries@.len(),
        ensures
            final(self).well_formed(),
            final(self).surfaces() == old(self).surfaces().insert(
                key_of(old(self).entries@[i as int]),
                (old(self).entries@[i as int].registration@, frame),
            ),
    {
        let ghost before = self.entries@;
        let ghost key = key_of(before[i as int]);
        let mut state = self.entries.remove(i);
        state.frame = frame;
        self.entries.insert(i, state);
        proof {
            let after = self.entries@;
            assert(after =~= before.update(i as int, after[i as int]));
            assert forall|a: int, b: int| 0 <= a < b < after.len() implies key_of(#[trigger] after[a])
                != key_of(#[trigger] after[b]) by {
                if a != i && b != i {
                    assert(after[a] == before[a] && after[b] == before[b]);
                } else if a == i {
                    assert(after[b] == before[b]);
                } else {
                    assert(after[a] == before[a]);
                }
            }
            let expected = entries_map(before).insert(key, (before[i as int].registration@, frame));
            assert forall|k: (RenderTargetId, Seq<char>)| #[trigger] entries_map(after).contains_key(k)
                == expected.contains_key(k) && (expected.contains_key(k) ==> entries_map(after)[k] == expected[k]) by {
                if k == key {
                    lemma_entries_map_at(after, i as int);
                } else if has_key(before, k) {
                    let m = choose|m: int| 0 <= m < before.len() && key_of(#[trigger] before[m]) == k;
                    lemma_entries_map_at(before, m);
                    assert(after[m] == before[m]);
                    lemma_entries_map_at(after, m);
                } else if has_key(after, k) {
                    let m = choose|m: int| 0 <= m < after.len() && key_of(#[trigger] after[m]) == k;
                    assert(m != i);
                    assert(before[m] == after[m]);
                    assert(has_key(before, k));
                }
            }
            assert(entries_map(after) =~= expected);
        }
    }

    /// The registration of a surface.
    pub fn registration(&self, target_id: RenderTargetId, id: &str) -> (registration: Option<
        WgpuVideoSurfaceRegistration,
    >)
        requires
            self.well_formed(),
        ensures
            match registration {
                Some(r) => self.surfaces().contains_key((target_id, id@)) && r@ == self.surfaces()[(
                    target_id,
                    id@,
                )].0,
                None => !self.surfaces().contains_key((target_id, id@)),
            },
    {
        let id = id.to_owned();
        match self.find(target_id, &id) {
            Some(i) => {
                proof {
                    lemma_entries_map_at(self.entries@, i as int);
                }
                Some(copy_registration(&self.entries[i].registration))
            },
            None => None,
        }
    }

    /// The registrations of a target's surfaces, each once.
    pub fn registrations_for_target(&self, target_id: RenderTargetId) -> (registrations: Vec<
        WgpuVideoSurfaceRegistration,
    >)
        requires
            self.well_formed(),
        ensures
            forall|j: int|
                0 <= j < registrations@.len() ==> {
                    let r = (#[trigger] registrations@[j])@;
                    &&& r.key.0 == target_id
                    &&& self.surfaces().contains_key(r.key)
                    &&& self.surfaces()[r.key].0 == r
                },
            forall|key: (RenderTargetId, Seq<char>)|
                #[trigger] self.surfaces().contains_key(key) && key.0 == target_id ==> exists|j: int|
                    0 <= j < registrations@.len() && (#[trigger] registrations@[j])@.key == key,
            forall|a: int, b: int|
                0 <= a < b < registrations@.len() ==> (#[trigger] registrations@[a])@.key != (
                #[trigger] registrations@[b])@.key,
    {
        let ghost entries = self.entries@;
        let mut registrations: Vec<WgpuVideoSurfaceRegistration> = Vec::new();
        let ghost mut origin: Seq<int> = Seq::empty();
        let mut i: usize = 0;
        while i < self.entries.len()
            invariant
                i <= entries.len(),
                entries == self.entries@,
                keys_distinct(entries),
                origin.len() == registrations@.len(),
                forall|j: int|
                    0 <= j < registrations@.len() ==> 0 <= #[trigger] origin[j] < i && entries[origin[j]].registration@
                        == registrations@[j]@ && key_of(entries[origin[j]]).0 == target_id,
                forall|a: int, b: int| 0 <= a < b < origin.len() ==> #[trigger] origin[a] < #[trigger] origin[b],
                forall|m: int|
                    0 <= m < i && key_of(#[trigger] entries[m]).0 == target_id ==> exists|j: int|
                        0 <= j < origin.len() && origin[j] == m,
            decreases entries.len() - i,
        {
            if self.entries[i].registration.key.target_id == target_id {
                let ghost prior = origin;
                registrations.push(copy_registration(&self.entries[i].registration));
                proof {
                    origin = origin.push(i as int);
                    assert forall|m: int| 0 <= m < i + 1 && key_of(#[trigger] entries[m]).0 == target_id implies exists|j: int|
                        0 <= j < origin.len() && origin[j] == m by {
                        if m < i {
                            let j = choose|j: int| 0 <= j < prior.len() && prior[j] == m;
                            assert(origin[j] == m);
                        } else {
                            assert(origin[prior.len() as int] == m);
                        }
                    }
                }
            } else {
                proof {
                    assert forall|m: int| 0 <= m < i + 1 && key_of(#[trigger] entries[m]).0 == target_id implies exists|j: int|
                        0 <= j < origin.len() && origin[j] == m by {
                        if m < i {
                        }
                    }
                }
            }
            i = i + 1;
        }
        proof {
            assert forall|j: int| 0 <= j < registrations@.len() implies {
                let r = (#[trigger] registrations@[j])@;
                &&& r.key.0 == target_id
                &&& self.surfaces().contains_key(r.key)
                &&& self.surfaces()[r.key].0 == r
            } by {
                lemma_entries_map_at(entries, origin[j]);
            }
            assert forall|key: (RenderTargetId, Seq<char>)|
                #[trigger] self.surfaces().contains_key(key) && key.0 == target_id implies exists|j: int|
                    0 <= j < registrations@.len() && (#[trigger] registrations@[j])@.key == key by {
                let m = choose|m: int| 0 <= m < entries.len() && key_of(#[trigger] entries[m]) == key;
                let j = choose|j: int| 0 <= j < origin.len() && origin[j] == m;
                assert(registrations@[j]@.key == key);
            }
            assert forall|a: int, b: int| 0 <= a < b < registrations@.len() implies (
            #[trigger] registrations@[a])@.key != (#[trigger] registrations@[b])@.key by {
                assert(origin[a] < origin[b]);
                assert(key_of(entries[origin[a]]) != key_of(entries[origin[b]]));
            }
        }
        registrations
    }

    /// Attaches a frame to a surface; tells whether it is registered.
    pub fn replace_frame(&mut self, target_id: RenderTargetId, id: &str, frame: F) -> (replaced: bool)
        requires
            old(self).well_formed(),
        ensures
            final(self).well_formed(),
            replaced == old(self).surfaces().contains_key((target_id, id@)),
            replaced ==> final(self).surfaces() == old(self).surfaces().insert(
                (target_id, id@),
                (old(self).surfaces()[(target_id, id@)].0, Some(frame)),
            ),
            !replaced ==> final(self).surfaces() == old(self).surfaces(),
    {
        let id = id.to_owned();
        match self.find(target_id, &id) {
            Some(i) => {
                proof {
                    lemma_entries_map_at(self.entries@, i as int);
                }
                self.set_frame(i, Some(frame));
                true
            },
            None => false,
        }
    }

    /// Detaches a surface's frame; tells whether it had one.
    pub fn clear_frame(&mut self, target_id: RenderTargetId, id: &str) -> (had_frame: bool)
        requires
            old(self).well_formed(),
        ensures
            final(self).well_formed(),
            had_frame == (old(self).surfaces().contains_key((target_id, id@)) && old(self).surfaces()[(
                target_id,
                id@,
            )].1 is Some),
            old(self).surfaces().contains_key((target_id, id@)) ==> final(self).surfaces() == old(
                self,
            ).surfaces().insert((target_id, id@), (old(self).surfaces()[(target_id, id@)].0, None)),
            !old(self).surfaces().contains_key((target_id, id@)) ==> final(self).surfaces() == old(
                self,
            ).surfaces(),
    {
        let id = id.to_owned();
        match self.find(target_id, &id) {
            Some(i) => {
                proof {
                    lemma_entries_map_at(self.entries@, i as int);
                }
                let had_frame = self.entries[i].frame.is_some();
                self.set_frame(i, None);
                had_frame
            },
            None => false,
        }
    }

    /// The frame attached to a surface, if any.
    pub fn attached_frame(&self, target_id: RenderTargetId, id: &str) -> (frame: Option<&F>)
        requires
            self.well_formed(),
        ensures
            match frame {
                Some(f) => self.surfaces().contains_key((target_id, id@)) && self.surfaces()[(
                    target_id,
                    id@,
                )].1 == Some(*f),
                None => !self.surfaces().contains_key((target_id, id@)) || self.surfaces()[(
                    target_id,
                    id@,
                )].1 is None,
            },
    {
        let id = id.to_owned();
        match self.find(target_id, &id) {
            Some(i) => {
                proof {
                    lemma_entries_map_at(self.entries@, i as int);
                }
                match &self.entries[i].frame {
                    Some(f) => Some(f),
                    None => None,
                }
            },
            None => None,
        }
    }
}

impl<F> Default for WgpuVideoSurfaceRegistry<F> {
    fn default() -> (registry: Self)
        ensures
            registry.well_formed(),
            registry.surfaces() == Map::<(RenderTargetId, Seq<char>), (RegistrationView, Option<F>)>::empty(),
    {
        WgpuVideoSurfaceRegistry::new()
    }
}

/// Syncing the same snapshot twice is syncing it once.
pub proof fn lemma_sync_is_idempotent<F>(
    surfaces: Map<(RenderTargetId, Seq<char>), (RegistrationView, Option<F>)>,
    target_id: RenderTargetId,
    latest_seq: SeqNo,
    placed: Seq<VideoSurfaceView>,
)
    ensures
        synced(synced(surfaces, target_id, latest_seq, placed), target_id, latest_seq, placed) == synced(
            surfaces,
            target_id,
            latest_seq,
            placed,
        ),
{
    let once = synced(surfaces, target_id, latest_seq, placed);
    assert(synced(once, target_id, latest_seq, placed) =~= once);
}

/// Syncing a snapshot touches no other target's surfaces.
pub proof fn lemma_sync_keeps_other_targets<F>(
    surfaces: Map<(RenderTargetId, Seq<char>), (RegistrationView, Option<F>)>,
    target_id: RenderTargetId,
    latest_seq: SeqNo,
    placed: Seq<VideoSurfaceView>,
    key: (RenderTargetId, Seq<char>),
)
    requires
        key.0 != target_id,
    ensures
        synced(surfaces, target_id, latest_seq, placed).contains_key(key) == surfaces.contains_key(key),
        surfaces.contains_key(key) ==> synced(surfaces, target_id, latest_seq, placed)[key] == surfaces[key],
{
}

} // verus!
