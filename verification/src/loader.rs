//! Asset-loading readiness tracker: a fixed manifest of asset handles, each
//! cached as not-loaded / loaded / failed, polled once per tick. Progress
//! events are edge-triggered, and a one-shot debounce timer must elapse
//! before the single loading-to-initialize state transition.

use vstd::prelude::*;

use crate::registry::{Animations, CharacterAssets, MeshAssets};
use crate::state::GameState;
use crate::timer::{Timer, TimerMode, TIMER_MS_LIMIT};
use crate::types::{LoadState, LoadingUpdate};

verus! {

/// Debounce delay before the load-complete transition may fire.
pub const LOADING_DEBOUNCE_MS: u64 = 500;

/// One-shot timer that must elapse before the loading-to-initialize transition.
#[derive(Debug, Clone, Copy)]
pub struct LoadingTimer(pub Timer);

impl LoadingTimer {
    pub fn new() -> (r: LoadingTimer)
        ensures
            r.0.wf(),
            r.0.mode is Once,
            r.0.duration_ms == LOADING_DEBOUNCE_MS,
            r.0.elapsed_ms == 0,
    {
        LoadingTimer(Timer::new(LOADING_DEBOUNCE_MS, TimerMode::Once))
    }
}

/// How many entries of `s` cache state `st`.
pub open spec fn count_in(s: Seq<(u64, LoadState)>, st: LoadState) -> int
    decreases s.len(),
{
    if s.len() == 0 {
        0
    } else {
        count_in(s.drop_last(), st) + if s.last().1 == st {
            1int
        } else {
            0int
        }
    }
}

/// The cached state of handle `id`: the first entry carrying it, if any.
pub open spec fn spec_state_of(s: Seq<(u64, LoadState)>, id: u64) -> Option<LoadState>
    decreases s.len(),
{
    if s.len() == 0 {
        None
    } else if s[0].0 == id {
        Some(s[0].1)
    } else {
        spec_state_of(s.drop_first(), id)
    }
}

/// One polled observation applied to one cached state: only a not-loaded
/// entry may move, and only to loaded or failed; nothing ever moves back.
pub open spec fn apply_one(cur: LoadState, observed: Option<LoadState>) -> LoadState {
    match observed {
        Some(st) => if cur is NotLoaded && !(st is NotLoaded) {
            st
        } else {
            cur
        },
        None => cur,
    }
}

/// A whole tick's worth of observations applied entry by entry.
pub open spec fn apply_all(
    s: Seq<(u64, LoadState)>,
    observations: Seq<Option<LoadState>>,
) -> Seq<(u64, LoadState)> {
    Seq::new(s.len(), |i: int| (s[i].0, apply_one(s[i].1, observations[i])))
}

/// The only permitted per-handle transitions: staying put, or moving from
/// not-loaded to loaded or failed.
pub open spec fn monotonic_step(before: LoadState, after: LoadState) -> bool {
    after == before || (before is NotLoaded && (after is Loaded || after is Failed))
}

/// Readiness is monotonic: whatever is observed, applying it to a cached
/// state is a permitted transition, never a reversal.
pub proof fn lemma_readiness_monotonic(cur: LoadState, observed: Option<LoadState>)
    ensures
        monotonic_step(cur, apply_one(cur, observed)),
{
}

fn apply_one_exec(cur: LoadState, observed: Option<LoadState>) -> (r: LoadState)
    ensures
        r == apply_one(cur, observed),
{
    match observed {
        Some(st) => {
            if matches!(cur, LoadState::NotLoaded) && !matches!(st, LoadState::NotLoaded) {
                st
            } else {
                cur
            }
        },
        None => cur,
    }
}

/// The manifest of tracked asset handles and their cached readiness.
#[derive(Debug)]
pub struct LoadingAssets {
    pub entries: Vec<(u64, LoadState)>,
}

impl LoadingAssets {
    /// Well-formedness: no handle is tracked twice.
    pub open spec fn wf(self) -> bool {
        forall|i: int, j: int|
            0 <= i < j < self.entries@.len() ==> (#[trigger] self.entries@[i].0)
                != (#[trigger] self.entries@[j].0)
    }

    pub open spec fn spec_state(self, id: u64) -> Option<LoadState> {
        spec_state_of(self.entries@, id)
    }

    pub fn new() -> (r: LoadingAssets)
        ensures
            r.wf(),
            r.entries@.len() == 0,
            forall|x: u64| #[trigger] r.spec_state(x) is None,
    {
        LoadingAssets { entries: Vec::new() }
    }

    /// Begin tracking a handle that is not yet tracked, as not loaded.
    pub fn track(&mut self, id: u64)
        requires
            old(self).wf(),
            old(self).spec_state(id) is None,
        ensures
            final(self).wf(),
            final(self).entries@ == old(self).entries@.push((id, LoadState::NotLoaded)),
            forall|x: u64| #[trigger] final(self).spec_state(x) == if x == id {
                Some(LoadState::NotLoaded)
            } else {
                old(self).spec_state(x)
            },
    {
        proof {
            lemma_absent_id_not_in_entries(self.entries@, id);
        }
        let ghost orig = self.entries@;
        self.entries.push((id, LoadState::NotLoaded));
        proof {
            let pushed = self.entries@[self.entries@.len() - 1];
            assert(self.entries@ =~= orig.push(pushed));
            assert forall|x: u64| true implies #[trigger] spec_state_of(self.entries@, x)
                == if x == id {
                Some(LoadState::NotLoaded)
            } else {
                spec_state_of(orig, x)
            } by {
                lemma_state_after_push(orig, pushed, x);
            }
        }
    }

    /// How many tracked assets have finished loading.
    pub fn num_loaded(&self) -> (r: usize)
        ensures
            r == count_in(self.entries@, LoadState::Loaded),
    {
        self.count_state(LoadState::Loaded)
    }

    /// How many tracked assets failed to load.
    pub fn num_failed(&self) -> (r: usize)
        ensures
            r == count_in(self.entries@, LoadState::Failed),
    {
        self.count_state(LoadState::Failed)
    }

    fn count_state(&self, st: LoadState) -> (r: usize)
        ensures
            r == count_in(self.entries@, st),
    {
        let n = self.entries.len();
        let mut c: usize = 0;
        let mut i: usize = 0;
        proof {
            assert(self.entries@.take(0) =~= Seq::<(u64, LoadState)>::empty());
        }
        while i < n
            invariant
                0 <= i <= n,
                n == self.entries@.len(),
                c == count_in(self.entries@.take(i as int), st),
                c <= i,
            decreases n - i,
        {
            let entry = self.entries[i];
            proof {
                assert(self.entries@.take(i as int + 1).drop_last() =~= self.entries@.take(
                    i as int,
                ));
                assert(self.entries@.take(i as int + 1).last() == self.entries@[i as int]);
            }
            if entry.1 == st {
                c = c + 1;
            }
            i = i + 1;
        }
        proof {
            assert(self.entries@.take(n as int) =~= self.entries@);
        }
        c
    }

    /// Apply one tick's polled observations, one per tracked handle in
    /// manifest order. Every per-handle change is a monotonic step.
    pub fn apply_load_observations(&mut self, observations: &Vec<Option<LoadState>>)
        requires
            old(self).wf(),
            observations@.len() == old(self).entries@.len(),
        ensures
            final(self).wf(),
            final(self).entries@ == apply_all(old(self).entries@, observations@),
            forall|i: int|
                0 <= i < old(self).entries@.len() ==> monotonic_step(
                    old(self).entries@[i].1,
                    #[trigger] final(self).entries@[i].1,
                ),
    {
        let ghost orig = self.entries@;
        let n = self.entries.len();
        let mut i: usize = 0;
        while i < n
            invariant
                0 <= i <= n,
                n == self.entries@.len(),
                orig.len() == n,
                observations@.len() == n,
                forall|j: int|
                    0 <= j < i ==> #[trigger] self.entries@[j] == (
                    orig[j].0,
                    apply_one(orig[j].1, observations@[j]),
                ),
                forall|j: int| i <= j < n ==> #[trigger] self.entries@[j] == orig[j],
            decreases n - i,
        {
            let cur = self.entries[i];
            let ob = observations[i];
            self.entries[i] = (cur.0, apply_one_exec(cur.1, ob));
            i = i + 1;
        }
        proof {
            assert(self.entries@ =~= apply_all(orig, observations@));
        }
    }
}

/// If a handle resolves to no cached state, no entry carries it.
proof fn lemma_absent_id_not_in_entries(s: Seq<(u64, LoadState)>, id: u64)
    requires
        spec_state_of(s, id) is None,
    ensures
        forall|i: int| 0 <= i < s.len() ==> (#[trigger] s[i].0) != id,
    decreases s.len(),
{
    if s.len() > 0 {
        lemma_absent_id_not_in_entries(s.drop_first(), id);
        assert forall|i: int| 0 <= i < s.len() implies (#[trigger] s[i].0) != id by {
            if i > 0 {
                assert(s.drop_first()[i - 1] == s[i]);
            }
        }
    }
}

/// Appending an entry leaves every earlier resolution unchanged and lets
/// a previously untracked handle resolve to the new entry.
proof fn lemma_state_after_push(s: Seq<(u64, LoadState)>, entry: (u64, LoadState), id: u64)
    ensures
        spec_state_of(s.push(entry), id) == if spec_state_of(s, id) is Some {
            spec_state_of(s, id)
        } else if id == entry.0 {
            Some(entry.1)
        } else {
            None::<LoadState>
        },
    decreases s.len(),
{
    let pushed = s.push(entry);
    assert(pushed.len() == s.len() + 1);
    if s.len() == 0 {
        assert(pushed[0] == entry);
        assert(pushed.drop_first() =~= Seq::<(u64, LoadState)>::empty());
        assert(spec_state_of(pushed.drop_first(), id) is None);
        if id == entry.0 {
            assert(spec_state_of(pushed, id) == Some(entry.1));
        } else {
            assert(spec_state_of(pushed, id) is None);
        }
    } else {
        assert(pushed[0] == s[0]);
        lemma_state_after_push(s.drop_first(), entry, id);
        assert(pushed.drop_first() =~= s.drop_first().push(entry));
        if id == s[0].0 {
            assert(spec_state_of(pushed, id) == Some(s[0].1));
            assert(spec_state_of(s, id) == Some(s[0].1));
        } else {
            assert(spec_state_of(pushed, id) == spec_state_of(
                s.drop_first().push(entry),
                id,
            ));
            assert(spec_state_of(s, id) == spec_state_of(s.drop_first(), id));
        }
    }
}

/// Handles the asset server assigned for one animated character: its mesh
/// and one clip per animation kind.
#[derive(Debug, Clone, Copy)]
pub struct CharacterHandles {
    pub mesh: u64,
    pub idle: u64,
    pub walk: u64,
    pub run: u64,
    pub take_hit: u64,
    pub die: u64,
}

/// Every handle the session will ever need, as assigned by the asset
/// server at startup.
#[derive(Debug, Clone, Copy)]
pub struct ManifestHandles {
    pub player: CharacterHandles,
    pub enemy: CharacterHandles,
    pub projectile_mesh: u64,
    pub destructible_mesh: u64,
}

/// The handles of a manifest in the fixed order they are tracked.
pub open spec fn tracked_ids(h: ManifestHandles) -> Seq<u64> {
    seq![
        h.player.idle,
        h.player.walk,
        h.player.run,
        h.player.take_hit,
        h.player.die,
        h.player.mesh,
        h.enemy.idle,
        h.enemy.walk,
        h.enemy.run,
        h.enemy.take_hit,
        h.enemy.die,
        h.enemy.mesh,
        h.projectile_mesh,
        h.destructible_mesh,
    ]
}

/// No two handles of the manifest coincide.
pub open spec fn distinct_handles(h: ManifestHandles) -> bool {
    forall|i: int, j: int|
        0 <= i < j < tracked_ids(h).len() ==> #[trigger] tracked_ids(h)[i]
            != #[trigger] tracked_ids(h)[j]
}

/// The registry record for an animated character: its mesh and a complete
/// clip set.
pub open spec fn character_record(c: CharacterHandles) -> CharacterAssets {
    CharacterAssets {
        mesh: c.mesh,
        animations: Some(
            Animations {
                idle: Some(c.idle),
                walk: Some(c.walk),
                run: Some(c.run),
                take_hit: Some(c.take_hit),
                die: Some(c.die),
            },
        ),
    }
}

/// The registry record for an inert prop: a mesh and no animations.
pub open spec fn static_record(mesh: u64) -> CharacterAssets {
    CharacterAssets { mesh, animations: None }
}

/// Populate the registry with the four character records and begin
/// tracking every one of their handles as not loaded. Runs once, at
/// startup, on an empty registry and an empty manifest.
pub fn load_meshes(
    assets: &mut MeshAssets,
    loading: &mut LoadingAssets,
    handles: &ManifestHandles,
)
    requires
        old(assets).wf(),
        old(assets).entries@.len() == 0,
        old(loading).wf(),
        old(loading).entries@.len() == 0,
        distinct_handles(*handles),
    ensures
        final(assets).wf(),
        final(assets).entries@.len() == 4,
        final(assets).spec_get("player"@) == Some(character_record(handles.player)),
        final(assets).spec_get("enemy"@) == Some(character_record(handles.enemy)),
        final(assets).spec_get("projectile"@) == Some(
            static_record(handles.projectile_mesh),
        ),
        final(assets).spec_get("destructible"@) == Some(
            static_record(handles.destructible_mesh),
        ),
        final(loading).wf(),
        final(loading).entries@.len() == 14,
        forall|i: int|
            0 <= i < 14 ==> #[trigger] final(loading).entries@[i] == (
            tracked_ids(*handles)[i],
            LoadState::NotLoaded,
        ),
{
    proof {
        let tids = tracked_ids(*handles);
        assert(tids[0] == handles.player.idle);
        assert(tids[1] == handles.player.walk);
        assert(tids[2] == handles.player.run);
        assert(tids[3] == handles.player.take_hit);
        assert(tids[4] == handles.player.die);
        assert(tids[5] == handles.player.mesh);
        assert(tids[6] == handles.enemy.idle);
        assert(tids[7] == handles.enemy.walk);
        assert(tids[8] == handles.enemy.run);
        assert(tids[9] == handles.enemy.take_hit);
        assert(tids[10] == handles.enemy.die);
        assert(tids[11] == handles.enemy.mesh);
        assert(tids[12] == handles.projectile_mesh);
        assert(tids[13] == handles.destructible_mesh);
        assert forall|x: u64| #[trigger] loading.spec_state(x) is None by {}
    }
    loading.track(handles.player.idle);
    loading.track(handles.player.walk);
    loading.track(handles.player.run);
    loading.track(handles.player.take_hit);
    loading.track(handles.player.die);
    loading.track(handles.player.mesh);
    loading.track(handles.enemy.idle);
    loading.track(handles.enemy.walk);
    loading.track(handles.enemy.run);
    loading.track(handles.enemy.take_hit);
    loading.track(handles.enemy.die);
    loading.track(handles.enemy.mesh);
    loading.track(handles.projectile_mesh);
    loading.track(handles.destructible_mesh);

    proof {
        reveal_strlit("player");
        reveal_strlit("enemy");
        reveal_strlit("projectile");
        reveal_strlit("destructible");
        assert("player"@.len() == 6);
        assert("enemy"@.len() == 5);
        assert("projectile"@.len() == 10);
        assert("destructible"@.len() == 12);
    }
    let player_animations = Animations::complete(
        handles.player.idle,
        handles.player.walk,
        handles.player.run,
        handles.player.take_hit,
        handles.player.die,
    );
    assets.register(
        "player".to_owned(),
        CharacterAssets { mesh: handles.player.mesh, animations: Some(player_animations) },
    );
    let enemy_animations = Animations::complete(
        handles.enemy.idle,
        handles.enemy.walk,
        handles.enemy.run,
        handles.enemy.take_hit,
        handles.enemy.die,
    );
    assets.register(
        "enemy".to_owned(),
        CharacterAssets { mesh: handles.enemy.mesh, animations: Some(enemy_animations) },
    );
    assets.register(
        "projectile".to_owned(),
        CharacterAssets { mesh: handles.projectile_mesh, animations: None },
    );
    assets.register(
        "destructible".to_owned(),
        CharacterAssets { mesh: handles.destructible_mesh, animations: None },
    );
}

/// One tick of the loading phase. Applies the polled observations to the
/// cached manifest, reports progress if and only if the loaded count
/// changed since the previous tick, advances the debounce timer, and asks
/// for the one-shot transition to initialization once the debounce has
/// elapsed and every tracked asset is loaded. A failed asset never blocks
/// a tick, but keeps the loaded count short of the total, so the
/// transition then simply never happens.
pub fn update_loading_progress(
    loading: &mut LoadingAssets,
    timer: &mut LoadingTimer,
    curr_loaded: &mut usize,
    observations: &Vec<Option<LoadState>>,
    delta_ms: u64,
) -> (r: (Option<LoadingUpdate>, Option<GameState>))
    requires
        old(loading).wf(),
        observations@.len() == old(loading).entries@.len(),
        old(timer).0.wf(),
        old(timer).0.mode is Once,
        delta_ms <= TIMER_MS_LIMIT,
    ensures
        final(loading).wf(),
        final(loading).entries@ == apply_all(old(loading).entries@, observations@),
        forall|i: int|
            0 <= i < old(loading).entries@.len() ==> monotonic_step(
                old(loading).entries@[i].1,
                #[trigger] final(loading).entries@[i].1,
            ),
        *final(curr_loaded) == count_in(final(loading).entries@, LoadState::Loaded),
        r.0 == if count_in(final(loading).entries@, LoadState::Loaded)
            != *old(curr_loaded) {
            Some(
                LoadingUpdate(
                    count_in(final(loading).entries@, LoadState::Loaded) as usize,
                    final(loading).entries@.len() as usize,
                ),
            )
        } else {
            None::<LoadingUpdate>
        },
        final(timer).0.wf(),
        final(timer).0.mode is Once,
        final(timer).0.duration_ms == old(timer).0.duration_ms,
        final(timer).0.spec_finished() == (old(timer).0.elapsed_ms + delta_ms
            >= old(timer).0.duration_ms),
        r.1 == if (old(timer).0.elapsed_ms + delta_ms >= old(timer).0.duration_ms)
            && count_in(final(loading).entries@, LoadState::Loaded)
            == final(loading).entries@.len() {
            Some(GameState::Initialize)
        } else {
            None::<GameState>
        },
{
    loading.apply_load_observations(observations);

    let num_loaded = loading.num_loaded();
    let total_loading = loading.entries.len();
    let event = if num_loaded != *curr_loaded {
        Some(LoadingUpdate(num_loaded, total_loading))
    } else {
        None
    };
    *curr_loaded = num_loaded;

    timer.0.tick(delta_ms);
    if !timer.0.finished() {
        return (event, None);
    }

    if num_loaded == total_loading {
        (event, Some(GameState::Initialize))
    } else {
        (event, None)
    }
}

} // verus!
