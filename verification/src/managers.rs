//! The player/level registry: per-level membership sets and per-player
//! mutable state, keyed by stable account identity.
//!
//! Every operation takes the registry exclusively, so each observes and
//! leaves a consistent state, and operations on one level never disturb
//! another (each level's membership is its own entry). Iteration over a
//! level works on the membership as of the call: the visitor reads player
//! records and threads its own state; membership cannot change under it.
use vstd::prelude::*;

use std::collections::HashMap;

use crate::data::types::PlayerData;

verus! {

broadcast use vstd::std_specs::hash::group_hash_axioms;

/// No account appears twice.
pub open spec fn no_dups(s: Seq<i32>) -> bool {
    forall|i: int, j: int| 0 <= i < j < s.len() ==> s[i] != s[j]
}

/// Tracks which players occupy which levels, and each player's current
/// gameplay state.
pub struct PlayerManager {
    players: HashMap<i32, PlayerData>,
    levels: HashMap<i32, Vec<i32>>,
}

impl PlayerManager {
    /// All player records, keyed by account identity.
    pub closed spec fn players_map(&self) -> Map<i32, PlayerData> {
        self.players@
    }

    /// Whether the level has ever been joined (its membership entry
    /// exists, possibly empty).
    pub closed spec fn has_level(&self, level_id: i32) -> bool {
        self.levels@.contains_key(level_id)
    }

    /// The level's current membership, in insertion order; empty for an
    /// unknown level.
    pub closed spec fn members(&self, level_id: i32) -> Seq<i32> {
        if self.levels@.contains_key(level_id) {
            self.levels@[level_id]@
        } else {
            Seq::<i32>::empty()
        }
    }

    pub open spec fn has_player(&self, account_id: i32) -> bool {
        self.players_map().contains_key(account_id)
    }

    pub open spec fn player(&self, account_id: i32) -> PlayerData {
        self.players_map()[account_id]
    }

    pub open spec fn is_member(&self, level_id: i32, account_id: i32) -> bool {
        self.members(level_id).contains(account_id)
    }

    /// Membership sets hold no duplicates, and every member has a player
    /// record.
    pub closed spec fn wf(&self) -> bool {
        &&& forall|l: i32|
            self.levels@.contains_key(l) ==> no_dups(#[trigger] self.levels@[l]@)
        &&& forall|l: i32, i: int|
            self.levels@.contains_key(l) && 0 <= i < self.levels@[l]@.len()
                ==> self.players@.contains_key(#[trigger] self.levels@[l]@[i])
    }

    /// An empty registry: no players, no levels.
    pub fn new() -> (m: PlayerManager)
        ensures
            m.wf(),
            forall|l: i32| m.members(l) == Seq::<i32>::empty(),
            forall|l: i32| !m.has_level(l),
            forall|a: i32| !m.has_player(a),
    {
        PlayerManager { players: HashMap::new(), levels: HashMap::new() }
    }

    /// Adds the player to the level's membership; adding a member again
    /// has no effect. A default player record is created if the player has
    /// none yet, so a member always has a record. Other levels and other
    /// players' records are untouched.
    pub fn add_to_level(&mut self, level_id: i32, account_id: i32)
        requires
            old(self).wf(),
        ensures
            final(self).wf(),
            final(self).is_member(level_id, account_id),
            old(self).is_member(level_id, account_id) ==> final(self).members(level_id)
                == old(self).members(level_id),
            !old(self).is_member(level_id, account_id) ==> final(self).members(level_id)
                == old(self).members(level_id).push(account_id),
            final(self).has_level(level_id),
            forall|l: i32|
                l != level_id ==> final(self).members(l) == old(self).members(l)
                    && final(self).has_level(l) == old(self).has_level(l),
            old(self).has_player(account_id) ==> final(self).players_map()
                == old(self).players_map(),
            !old(self).has_player(account_id) ==> final(self).players_map()
                == old(self).players_map().insert(
                account_id,
                (PlayerData { percentage: 0, attempts: 0 }),
            ),
    {
        if !self.players.contains_key(&account_id) {
            self.players.insert(account_id, PlayerData { percentage: 0, attempts: 0 });
        }
        let existing = self.levels.remove(&level_id);
        match existing {
            Some(mut v) => {
                let ghost old_v = v@;
                if !vec_contains(&v, account_id) {
                    v.push(account_id);
                    proof {
                        assert(v@[v@.len() - 1] == account_id);
                        assert(v@.contains(account_id));
                        assert(no_dups(v@)) by {
                            assert(forall|k: int| 0 <= k < old_v.len() ==> v@[k] == old_v[k]);
                        }
                    }
                }
                self.levels.insert(level_id, v);
                proof {
                    assert(self.members(level_id) == v@);
                }
            },
            None => {
                let mut v: Vec<i32> = Vec::new();
                v.push(account_id);
                self.levels.insert(level_id, v);
                proof {
                    assert(v@[0] == account_id);
                    assert(v@.contains(account_id));
                    assert(self.members(level_id) == v@);
                }
            },
        }
    }

    /// Removes the player from the level's membership, keeping the order
    /// of the others; removing a non-member is a no-op, not an error.
    /// Other levels and all player records are untouched.
    pub fn remove_from_level(&mut self, level_id: i32, account_id: i32)
        requires
            old(self).wf(),
        ensures
            final(self).wf(),
            !final(self).is_member(level_id, account_id),
            final(self).members(level_id) == old(self).members(level_id).remove_value(account_id),
            final(self).has_level(level_id) == old(self).has_level(level_id),
            forall|l: i32|
                l != level_id ==> final(self).members(l) == old(self).members(l)
                    && final(self).has_level(l) == old(self).has_level(l),
            final(self).players_map() == old(self).players_map(),
    {
        let existing = self.levels.remove(&level_id);
        match existing {
            Some(mut v) => {
                let ghost old_v = v@;
                match vec_find(&v, account_id) {
                    Some(i) => {
                        v.remove(i);
                        proof {
                            old_v.index_of_first_ensures(account_id);
                            assert(old_v.index_of_first(account_id) == Some(i as int)) by {
                                let f = old_v.index_of_first(account_id)->Some_0;
                                if f < i as int {
                                    assert(old_v[f] != account_id);
                                } else if f > i as int {
                                    assert(old_v[i as int] != account_id);
                                }
                            }
                            assert(!v@.contains(account_id)) by {
                                assert(forall|k: int|
                                    0 <= k < v@.len() ==> v@[k] == (if k < i as int {
                                        old_v[k]
                                    } else {
                                        old_v[k + 1]
                                    }));
                            }
                            assert(no_dups(v@));
                        }
                    },
                    None => {
                        proof {
                            old_v.index_of_first_ensures(account_id);
                        }
                    },
                }
                self.levels.insert(level_id, v);
            },
            None => {
                proof {
                    Seq::<i32>::empty().index_of_first_ensures(account_id);
                }
            },
        }
    }

    /// Creates or overwrites the player's record; level membership is not
    /// implied and not touched.
    pub fn set_player_data(&mut self, account_id: i32, data: &PlayerData)
        requires
            old(self).wf(),
        ensures
            final(self).wf(),
            final(self).players_map() == old(self).players_map().insert(account_id, *data),
            forall|l: i32|
                final(self).members(l) == old(self).members(l) && final(self).has_level(l)
                    == old(self).has_level(l),
    {
        self.players.insert(account_id, *data);
    }

    /// Deletes the player's record. The caller must already have removed
    /// the player from every level, so that no membership entry is left
    /// dangling; that is this registry's documented precondition rather
    /// than an implicit cascade.
    pub fn remove_player(&mut self, account_id: i32)
        requires
            old(self).wf(),
            forall|l: i32| !old(self).is_member(l, account_id),
        ensures
            final(self).wf(),
            final(self).players_map() == old(self).players_map().remove(account_id),
            forall|l: i32|
                final(self).members(l) == old(self).members(l) && final(self).has_level(l)
                    == old(self).has_level(l),
    {
        self.players.remove(&account_id);
        proof {
            assert forall|l: i32, i: int|
                self.levels@.contains_key(l) && 0 <= i < self.levels@[l]@.len() implies self
                .players@.contains_key(#[trigger] self.levels@[l]@[i]) by {
                let m = self.levels@[l]@[i];
                assert(old(self).members(l).contains(m));
                assert(!old(self).is_member(l, account_id));
                assert(m != account_id);
                assert(old(self).players@.contains_key(m));
            }
        }
    }

    /// The number of players on the level: `None` only for a level never
    /// joined, whose membership is empty.
    pub fn get_player_count_on_level(&self, level_id: i32) -> (r: Option<usize>)
        requires
            self.wf(),
        ensures
            r is Some <==> self.has_level(level_id),
            r is Some ==> r->Some_0 == self.members(level_id).len(),
            r is None ==> self.members(level_id).len() == 0,
    {
        match self.levels.get(&level_id) {
            Some(v) => Some(v.len()),
            None => None,
        }
    }

    /// The player's current record, if one exists.
    pub fn get_player_data(&self, account_id: i32) -> (r: Option<PlayerData>)
        requires
            self.wf(),
        ensures
            r is Some <==> self.has_player(account_id),
            r is Some ==> r->Some_0 == self.player(account_id),
    {
        match self.players.get(&account_id) {
            Some(d) => Some(*d),
            None => None,
        }
    }

    /// Visits the level's members in order, handing each account, its
    /// record, and the threaded state to the visitor; the visitor returns
    /// a continuation flag and the next state. Returns how many members
    /// were visited (all of them, unless the visitor stopped early) and
    /// the final state.
    pub fn for_each_player_on_level<S, F: Fn(i32, PlayerData, S) -> (bool, S)>(
        &self,
        level_id: i32,
        visitor: F,
        state: S,
    ) -> (r: (usize, S))
        requires
            self.wf(),
            forall|a: i32, d: PlayerData, s: S| call_requires(visitor, (a, d, s)),
        ensures
            r.0 <= self.members(level_id).len(),
            (forall|args: (i32, PlayerData, S), out: (bool, S)|
                call_ensures(visitor, args, out) ==> out.0) ==> r.0 == self.members(
                level_id,
            ).len(),
    {
        let v = match self.levels.get(&level_id) {
            Some(v) => v,
            None => {
                return (0, state);
            },
        };
        let n = v.len();
        let mut i: usize = 0;
        let mut stopped: bool = false;
        let mut st = state;
        while i < n && !stopped
            invariant
                i <= n,
                n == v@.len(),
                v@ == self.members(level_id),
                self.wf(),
                forall|a: i32, d: PlayerData, s: S| call_requires(visitor, (a, d, s)),
                (forall|args: (i32, PlayerData, S), out: (bool, S)|
                    call_ensures(visitor, args, out) ==> out.0) ==> !stopped,
                forall|l: i32, k: int|
                    self.levels@.contains_key(l) && 0 <= k < self.levels@[l]@.len()
                        ==> self.players@.contains_key(#[trigger] self.levels@[l]@[k]),
            decreases n - i,
        {
            let a = *vstd::slice::slice_index_get(v.as_slice(), i);
            let d = match self.players.get(&a) {
                Some(d) => *d,
                None => {
                    proof {
                        assert(self.players@.contains_key(a));
                        assert(false);
                    }
                    PlayerData { percentage: 0, attempts: 0 }
                },
            };
            let out = visitor(a, d, st);
            st = out.1;
            i = i + 1;
            if !out.0 {
                stopped = true;
            }
        }
        (i, st)
    }
}

/// Whether the vector holds the account.
fn vec_contains(v: &Vec<i32>, x: i32) -> (r: bool)
    ensures
        r == v@.contains(x),
{
    let found = vec_find(v, x).is_some();
    proof {
        if found {
            assert(v@.contains(x));
        }
    }
    found
}

/// The index of the account's first occurrence in the vector, if any.
fn vec_find(v: &Vec<i32>, x: i32) -> (r: Option<usize>)
    ensures
        match r {
            Some(i) => i < v@.len() && v@[i as int] == x && forall|k: int|
                0 <= k < i ==> v@[k] != x,
            None => !v@.contains(x),
        },
{
    let n = v.len();
    let mut i: usize = 0;
    while i < n
        invariant
            i <= n,
            n == v@.len(),
            forall|k: int| 0 <= k < i ==> v@[k] != x,
        decreases n - i,
    {
        if *vstd::slice::slice_index_get(v.as_slice(), i) == x {
            return Some(i);
        }
        i = i + 1;
    }
    None
}

} // verus!
