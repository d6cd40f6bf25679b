//! The asset registry: a static-for-the-session mapping from symbolic asset
//! keys to mesh and animation-clip handles. Handles are the plain `u64`
//! identifiers the host's asset server assigned when loading began.

use vstd::prelude::*;

use crate::types::AnimationType;

verus! {

/// Animation-clip handles for one character, one slot per animation kind.
/// A slot may be empty: resolving an empty slot for a triggered kind is a
/// fatal configuration error, reported (not panicked) by the dispatcher.
#[derive(Debug, Clone, Copy)]
pub struct Animations {
    pub idle: Option<u64>,
    pub walk: Option<u64>,
    pub run: Option<u64>,
    pub take_hit: Option<u64>,
    pub die: Option<u64>,
}

impl Animations {
    pub open spec fn spec_get(self, t: AnimationType) -> Option<u64> {
        match t {
            AnimationType::Idle => self.idle,
            AnimationType::Walk => self.walk,
            AnimationType::Run => self.run,
            AnimationType::TakeHit => self.take_hit,
            AnimationType::Die => self.die,
        }
    }

    /// Every animation kind has a clip registered.
    pub open spec fn is_complete(self) -> bool {
        forall|t: AnimationType| (#[trigger] self.spec_get(t)) is Some
    }

    /// The clip handle registered for kind `t`, if any.
    pub fn get(&self, t: AnimationType) -> (r: Option<u64>)
        ensures
            r == self.spec_get(t),
    {
        match t {
            AnimationType::Idle => self.idle,
            AnimationType::Walk => self.walk,
            AnimationType::Run => self.run,
            AnimationType::TakeHit => self.take_hit,
            AnimationType::Die => self.die,
        }
    }

    /// Register the clip handle for kind `t`, replacing any earlier one.
    pub fn insert(&mut self, t: AnimationType, clip: u64)
        ensures
            forall|u: AnimationType| #[trigger] final(self).spec_get(u) == if u == t {
                Some(clip)
            } else {
                old(self).spec_get(u)
            },
    {
        match t {
            AnimationType::Idle => self.idle = Some(clip),
            AnimationType::Walk => self.walk = Some(clip),
            AnimationType::Run => self.run = Some(clip),
            AnimationType::TakeHit => self.take_hit = Some(clip),
            AnimationType::Die => self.die = Some(clip),
        }
    }

    /// A full clip set, one handle per animation kind.
    pub fn complete(idle: u64, walk: u64, run: u64, take_hit: u64, die: u64) -> (r:
        Animations)
        ensures
            r.spec_get(AnimationType::Idle) == Some(idle),
            r.spec_get(AnimationType::Walk) == Some(walk),
            r.spec_get(AnimationType::Run) == Some(run),
            r.spec_get(AnimationType::TakeHit) == Some(take_hit),
            r.spec_get(AnimationType::Die) == Some(die),
            r.is_complete(),
    {
        let r = Animations {
            idle: Some(idle),
            walk: Some(walk),
            run: Some(run),
            take_hit: Some(take_hit),
            die: Some(die),
        };
        proof {
            assert forall|t: AnimationType| (#[trigger] r.spec_get(t)) is Some by {
                match t {
                    AnimationType::Idle => {},
                    AnimationType::Walk => {},
                    AnimationType::Run => {},
                    AnimationType::TakeHit => {},
                    AnimationType::Die => {},
                }
            }
        }
        r
    }
}

/// Mesh handle plus, for animated characters, their animation-clip set.
#[derive(Debug, Clone, Copy)]
pub struct CharacterAssets {
    pub mesh: u64,
    pub animations: Option<Animations>,
}

/// What a key resolves to in a sequence of registry entries: the first
/// entry whose key text matches, if any.
pub open spec fn spec_get_entry(
    entries: Seq<(String, CharacterAssets)>,
    key: Seq<char>,
) -> Option<CharacterAssets>
    decreases entries.len(),
{
    if entries.len() == 0 {
        None
    } else if entries[0].0@ == key {
        Some(entries[0].1)
    } else {
        spec_get_entry(entries.drop_first(), key)
    }
}

/// The registry of character assets, keyed by asset-key text.
#[derive(Debug)]
pub struct MeshAssets {
    pub entries: Vec<(String, CharacterAssets)>,
}

impl MeshAssets {
    /// Well-formedness: no key occurs twice.
    pub open spec fn wf(self) -> bool {
        forall|i: int, j: int|
            0 <= i < j < self.entries@.len() ==> (#[trigger] self.entries@[i].0@)
                != (#[trigger] self.entries@[j].0@)
    }

    pub open spec fn spec_get(self, key: Seq<char>) -> Option<CharacterAssets> {
        spec_get_entry(self.entries@, key)
    }

    pub fn new() -> (r: MeshAssets)
        ensures
            r.wf(),
            r.entries@.len() == 0,
            forall|k: Seq<char>| #[trigger] r.spec_get(k) is None,
    {
        MeshAssets { entries: Vec::new() }
    }

    /// Look up the assets registered under `key`.
    pub fn get(&self, key: &String) -> (r: Option<CharacterAssets>)
        ensures
            r == self.spec_get(key@),
    {
        let n = self.entries.len();
        let mut i: usize = 0;
        proof {
            assert(self.entries@.skip(0) =~= self.entries@);
        }
        while i < n
            invariant
                0 <= i <= n,
                n == self.entries@.len(),
                spec_get_entry(self.entries@, key@) == spec_get_entry(
                    self.entries@.skip(i as int),
                    key@,
                ),
            decreases n - i,
        {
            let entry = &self.entries[i];
            proof {
                assert(self.entries@.skip(i as int)[0] == self.entries@[i as int]);
            }
            if entry.0 == *key {
                return Some(entry.1);
            }
            proof {
                assert(self.entries@.skip(i as int).drop_first() =~= self.entries@.skip(
                    i as int + 1,
                ));
            }
            i = i + 1;
        }
        proof {
            assert(self.entries@.skip(n as int) =~= Seq::<(String, CharacterAssets)>::empty());
        }
        None
    }

    /// Register `assets` under a key not yet present.
    pub fn register(&mut self, key: String, assets: CharacterAssets)
        requires
            old(self).wf(),
            old(self).spec_get(key@) is None,
        ensures
            final(self).wf(),
            final(self).entries@.len() == old(self).entries@.len() + 1,
            forall|k: Seq<char>| #[trigger] final(self).spec_get(k) == if k == key@ {
                Some(assets)
            } else {
                old(self).spec_get(k)
            },
    {
        proof {
            lemma_absent_key_not_in_entries(self.entries@, key@);
        }
        let ghost old_entries = self.entries@;
        let ghost gkey = key@;
        self.entries.push((key, assets));
        proof {
            let pushed = self.entries@[self.entries@.len() - 1];
            assert(self.entries@ =~= old_entries.push(pushed));
            assert(pushed.0@ == gkey);
            assert forall|k: Seq<char>| true implies #[trigger] spec_get_entry(
                self.entries@,
                k,
            ) == if k == gkey {
                Some(assets)
            } else {
                spec_get_entry(old_entries, k)
            } by {
                lemma_get_after_push(old_entries, pushed, k);
            }
        }
    }
}

/// If a key resolves to nothing, no entry carries it.
proof fn lemma_absent_key_not_in_entries(
    entries: Seq<(String, CharacterAssets)>,
    key: Seq<char>,
)
    requires
        spec_get_entry(entries, key) is None,
    ensures
        forall|i: int| 0 <= i < entries.len() ==> (#[trigger] entries[i].0@) != key,
    decreases entries.len(),
{
    if entries.len() > 0 {
        lemma_absent_key_not_in_entries(entries.drop_first(), key);
        assert forall|i: int| 0 <= i < entries.len() implies (#[trigger] entries[i].0@)
            != key by {
            if i > 0 {
                assert(entries.drop_first()[i - 1] == entries[i]);
            }
        }
    }
}

/// Appending an entry leaves every earlier resolution unchanged and lets
/// a previously unresolved key resolve to the new entry.
proof fn lemma_get_after_push(
    entries: Seq<(String, CharacterAssets)>,
    entry: (String, CharacterAssets),
    key: Seq<char>,
)
    ensures
        spec_get_entry(entries.push(entry), key) == if spec_get_entry(entries, key)
            is Some {
            spec_get_entry(entries, key)
        } else if key == entry.0@ {
            Some(entry.1)
        } else {
            None::<CharacterAssets>
        },
    decreases entries.len(),
{
    let pushed = entries.push(entry);
    assert(pushed.len() == entries.len() + 1);
    if entries.len() == 0 {
        assert(pushed[0] == entry);
        assert(pushed.drop_first() =~= Seq::<(String, CharacterAssets)>::empty());
        assert(spec_get_entry(pushed.drop_first(), key) is None);
        if key == entry.0@ {
            assert(spec_get_entry(pushed, key) == Some(entry.1));
        } else {
            assert(spec_get_entry(pushed, key) is None);
        }
    } else {
        assert(pushed[0] == entries[0]);
        lemma_get_after_push(entries.drop_first(), entry, key);
        assert(pushed.drop_first() =~= entries.drop_first().push(entry));
        if key == entries[0].0@ {
            assert(spec_get_entry(pushed, key) == Some(entries[0].1));
            assert(spec_get_entry(entries, key) == Some(entries[0].1));
        } else {
            assert(spec_get_entry(pushed, key) == spec_get_entry(
                entries.drop_first().push(entry),
                key,
            ));
            assert(spec_get_entry(entries, key) == spec_get_entry(
                entries.drop_first(),
                key,
            ));
        }
    }
}

} // verus!
