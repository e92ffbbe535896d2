//! The roster: the ordered player list of one match and its turn index,
//! together with selector resolution against that turn index.
use vstd::prelude::*;
use crate::deck::Selector;
use crate::id::UserId;
use crate::rng::rand_below;
use vstd::pervasive::VecAdditionalExecFns;

verus! {

/// One roster member.
pub struct Player {
    pub username: String,
    pub id: UserId,
    pub is_host: bool,
}

impl Player {
    pub fn new(id: UserId, username: String, is_host: bool) -> (r: Self)
        ensures
            r == (Player { id, username, is_host }),
    {
        Player { id, username, is_host }
    }
}

impl Clone for Player {
    fn clone(&self) -> (r: Self)
        ensures
            r == *self,
    {
        Player { username: self.username.clone(), id: self.id, is_host: self.is_host }
    }
}

/// The roster predicate that keeps every member but the given id's.
pub open spec fn keeps_player(id: UserId) -> spec_fn(Player) -> bool {
    |p: Player| p.id != id
}

/// The ordered roster plus the turn index. The turn index always points at a
/// valid element while the roster is non-empty, and is zero while it is empty.
pub struct Players {
    pub players: Vec<Player>,
    pub idx: usize,
}

impl Players {
    /// The turn-index invariant every operation preserves.
    pub open spec fn wf(self) -> bool {
        if self.players@.len() == 0 {
            self.idx == 0
        } else {
            self.idx < self.players@.len()
        }
    }

    /// Which roster positions a selector may resolve to: the deterministic
    /// selectors pin one position, `Random` admits any of them.
    pub open spec fn picks(self, selector: Selector, i: int) -> bool {
        let n = self.players@.len() as int;
        match selector {
            Selector::Current => i == self.idx,
            Selector::Next => i == (self.idx + 1) % n,
            Selector::Previous => i == if self.idx == 0 {
                n - 1
            } else {
                self.idx - 1
            },
            Selector::Random => 0 <= i < n,
            Selector::NoPlayer => i == 0,
        }
    }

    pub fn new() -> (r: Self)
        ensures
            r.players@ == Seq::<Player>::empty(),
            r.idx == 0,
            r.wf(),
    {
        Players { players: Vec::new(), idx: 0 }
    }

    /// Appends a player and then shuffles the roster, so the join order does
    /// not determine the seating order. The turn index is left alone.
    pub fn add_player(&mut self, player: Player)
        requires
            old(self).wf(),
        ensures
            final(self).wf(),
            final(self).players@.len() == old(self).players@.len() + 1,
            final(self).players@.to_multiset() == old(self).players@.to_multiset().insert(player),
            final(self).idx == old(self).idx,
    {
        proof {
            vstd::seq_lib::to_multiset_build(self.players@, player);
        }
        self.players.push(player);
        shuffle(&mut self.players);
    }

    /// Drops every roster entry with the given id. If the turn index falls
    /// off the shortened roster it is reset to the front.
    pub fn remove_player(&mut self, id: UserId)
        requires
            old(self).wf(),
        ensures
            final(self).wf(),
            final(self).players@ == old(self).players@.filter(keeps_player(id)),
            final(self).idx == if final(self).players@.len() == 0 {
                0int
            } else if old(self).idx < final(self).players@.len() {
                old(self).idx as int
            } else {
                0int
            },
    {
        let mut kept: Vec<Player> = Vec::new();
        let n = self.players.len();
        let mut i: usize = 0;
        proof {
            assert(self.players@.take(0int).filter(keeps_player(id)) =~= Seq::<
                Player,
            >::empty());
        }
        while i < n
            invariant
                n == self.players@.len(),
                0 <= i <= n,
                kept@ == self.players@.take(i as int).filter(keeps_player(id)),
            decreases n - i,
        {
            let ghost prefix = self.players@.take(i as int);
            let p = &self.players[i];
            proof {
                assert(self.players@.take(i + 1int).drop_last() =~= prefix);
                assert(self.players@.take(i + 1int).last() == self.players@[i as int]);
                reveal(Seq::filter);
            }
            if p.id != id {
                kept.push(p.clone());
            }
            i = i + 1;
        }
        proof {
            assert(self.players@.take(n as int) =~= self.players@);
        }
        self.players = kept;
        if self.players.len() == 0 {
            self.idx = 0;
        } else if self.idx >= self.players.len() {
            self.idx = 0;
        }
    }

    /// The usernames in roster order.
    pub fn get_players(&self) -> (r: Vec<String>)
        ensures
            r@.len() == self.players@.len(),
            forall|i: int| 0 <= i < r@.len() ==> #[trigger] r@[i] == self.players@[i].username,
    {
        let mut out: Vec<String> = Vec::new();
        let n = self.players.len();
        let mut i: usize = 0;
        while i < n
            invariant
                n == self.players@.len(),
                0 <= i <= n,
                out@.len() == i,
                forall|j: int| 0 <= j < i ==> #[trigger] out@[j] == self.players@[j].username,
            decreases n - i,
        {
            out.push(self.players[i].username.clone());
            i = i + 1;
        }
        out
    }

    /// Advances the turn to the next roster position, wrapping at the end.
    pub fn consume(&mut self)
        requires
            old(self).wf(),
        ensures
            final(self).players == old(self).players,
            final(self).wf(),
            final(self).idx == if old(self).players@.len() == 0 {
                0int
            } else {
                (old(self).idx + 1) % (old(self).players@.len() as int)
            },
    {
        if self.players.len() == 0 {
            self.idx = 0;
        } else {
            self.idx = (self.idx + 1) % self.players.len();
        }
    }

    /// Resolves a selector to a roster member; `None` exactly when the
    /// roster is empty.
    pub fn get_player(&self, selector: Selector) -> (r: Option<&Player>)
        requires
            self.wf(),
        ensures
            r is Some <==> self.players@.len() > 0,
            r matches Some(p) ==> exists|i: int|
                #[trigger] self.picks(selector, i) && 0 <= i < self.players@.len() && *p
                    == self.players@[i],
    {
        if self.players.len() == 0 {
            return None;
        }
        let i: usize = match selector {
            Selector::Current => self.idx,
            Selector::Next => (self.idx + 1) % self.players.len(),
            Selector::Previous => {
                if self.idx == 0 {
                    self.players.len() - 1
                } else {
                    self.idx - 1
                }
            },
            Selector::Random => rand_below(self.players.len()),
            Selector::NoPlayer => 0,
        };
        proof {
            assert(self.picks(selector, i as int));
        }
        Some(&self.players[i])
    }

    /// As `get_player`, returning an owned copy of the member.
    pub fn clone_player(&self, selector: Selector) -> (r: Option<Player>)
        requires
            self.wf(),
        ensures
            r is Some <==> self.players@.len() > 0,
            r matches Some(p) ==> exists|i: int|
                #[trigger] self.picks(selector, i) && 0 <= i < self.players@.len() && p
                    == self.players@[i],
    {
        match self.get_player(selector) {
            Some(p) => Some(p.clone()),
            None => None,
        }
    }
}

/// Uniformly permutes the vector in place; only the multiset of elements is
/// promised to survive.
fn shuffle(v: &mut Vec<Player>)
    ensures
        final(v)@.len() == old(v)@.len(),
        final(v)@.to_multiset() == old(v)@.to_multiset(),
{
    let n = v.len();
    if n == 0 {
        return ;
    }
    let mut i: usize = n - 1;
    while i > 0
        invariant
            n == v@.len(),
            0 <= i < n,
            v@.to_multiset() == old(v)@.to_multiset(),
        decreases i,
    {
        let j = rand_below(i + 1);
        let ghost pre = v@;
        let mut a = v[i].clone();
        v.set_and_swap(j, &mut a);
        v.set(i, a);
        proof {
            broadcast use vstd::seq_lib::group_to_multiset_ensures;
            broadcast use vstd::multiset::group_multiset_axioms;
            broadcast use vstd::multiset::group_multiset_properties;

            let s1 = pre.update(j as int, pre[i as int]);
            let s2 = s1.update(i as int, pre[j as int]);
            assert(v@ == s2);
            if i == j {
                assert(s2 =~= pre);
            } else {
                assert(s1[i as int] == pre[i as int]);
                assert(s2.to_multiset() == s1.to_multiset().insert(pre[j as int]).remove(
                    pre[i as int],
                ));
                assert(s1.to_multiset() == pre.to_multiset().insert(pre[i as int]).remove(
                    pre[j as int],
                ));
                assert(s2.to_multiset() =~= pre.to_multiset());
            }
        }
        i = i - 1;
    }
}

} // verus!
