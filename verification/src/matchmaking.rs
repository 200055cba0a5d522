//! The matchmaker: the players that wait for a match, and the pairing of
//! players whose ratings lie within a window that widens while they wait.

use crate::catalog::{GameMap, GameMapView, MapCatalog};
use crate::chance::random_below;
use crate::clock::unix_millis;
use crate::grid::gap;
use crate::seqs::lemma_insert;
use std::collections::HashMap;
use vstd::prelude::*;
use vstd::std_specs::hash::spec_keys_iter;
use vstd::std_specs::iter::IteratorSpec;

verus! {

broadcast use {
    vstd::std_specs::hash::group_hash_axioms,
    vstd::seq_lib::group_seq_properties,
    vstd::seq::group_seq_axioms,
};

/// The rating window of a player that has just joined.
pub const BASE_WINDOW: i32 = 100;

/// The widest rating window.
pub const MAX_WINDOW: i32 = 500;

/// Milliseconds of waiting that widen the window by one point.
pub const WIDENING_MILLIS: i64 = 60;

/// The skill rating of a player. The matchmaker pairs by the mean alone.
#[derive(Clone, Copy, Debug, PartialEq, Eq, Structural)]
pub struct Rating {
    pub mean: i32,
    /// The deviation of the rating, in thousandths of a point.
    pub deviation: i64,
}

/// A player in the queue.
#[derive(Clone, Copy, Debug, PartialEq, Eq, Structural)]
pub struct Player {
    pub rating: Rating,
    /// When the player joined, in milliseconds since the Unix epoch.
    pub join_time: i64,
}

/// What a `Match` is.
pub struct MatchView {
    pub player1: i32,
    pub player2: i32,
    pub player1_ready: bool,
    pub player2_ready: bool,
    pub map: GameMapView,
}

/// Two players paired for a match on a map of the catalog. The first player
/// sees the board in the canonical frame, the second one upside down.
#[derive(Debug)]
pub struct Match {
    player1: i32,
    player1_ready: bool,
    player2: i32,
    player2_ready: bool,
    map: GameMap,
}

impl View for Match {
    type V = MatchView;

    closed spec fn view(&self) -> MatchView {
        MatchView {
            player1: self.player1,
            player2: self.player2,
            player1_ready: self.player1_ready,
            player2_ready: self.player2_ready,
            map: self.map@,
        }
    }
}

impl Match {
    #[verifier::type_invariant]
    spec fn inv(self) -> bool {
        self.player1 != self.player2
    }

    /// Pairs two players, neither of them ready yet. A player is not paired
    /// with itself.
    pub fn new(player1: i32, player2: i32, map: GameMap) -> (r: Option<Match>)
        ensures
            r is Some <==> player1 != player2,
            r matches Some(m) ==> m@ == (MatchView {
                player1,
                player2,
                player1_ready: false,
                player2_ready: false,
                map: map@,
            }),
    {
        if player1 == player2 {
            None
        } else {
            Some(Match { player1, player1_ready: false, player2, player2_ready: false, map })
        }
    }

    /// The first player. It is never the second one.
    pub fn player1(&self) -> (r: i32)
        ensures
            r == self@.player1,
            r != self@.player2,
    {
        proof {
            use_type_invariant(self);
        }
        self.player1
    }

    pub fn player2(&self) -> (r: i32)
        ensures
            r == self@.player2,
            r != self@.player1,
    {
        proof {
            use_type_invariant(self);
        }
        self.player2
    }

    pub fn player1_ready(&self) -> (r: bool)
        ensures
            r == self@.player1_ready,
    {
        self.player1_ready
    }

    pub fn player2_ready(&self) -> (r: bool)
        ensures
            r == self@.player2_ready,
    {
        self.player2_ready
    }

    pub fn map(&self) -> (r: &GameMap)
        ensures
            r@ == self@.map,
    {
        &self.map
    }

    /// Whether the player is one of the two.
    pub fn involves(&self, player: i32) -> (r: bool)
        ensures
            r == (player == self@.player1 || player == self@.player2),
    {
        player == self.player1 || player == self.player2
    }

    /// A copy of the match.
    pub fn duplicate(&self) -> (m: Match)
        ensures
            m@ == self@,
    {
        proof {
            use_type_invariant(self);
        }
        Match {
            player1: self.player1,
            player1_ready: self.player1_ready,
            player2: self.player2,
            player2_ready: self.player2_ready,
            map: self.map.duplicate(),
        }
    }
}

/// What the matchmaker is told, and what it tells.
#[derive(Debug)]
pub enum MatchmakerMessage {
    JoinMatchmaking { id: i32, rating: Rating },
    LeaveMatchmaking { id: i32 },
    MatchFound(Match),
}

/// How long a player has waited at `now`, in milliseconds: nothing where the
/// clock stands before the time it joined.
pub open spec fn waited(join_time: i64, now: i64) -> int {
    if now > join_time {
        now - join_time
    } else {
        0
    }
}

/// The widest rating gap that a player who joined at `join_time` accepts at
/// `now`: a hundred points, one more for every sixty milliseconds waited,
/// and never more than five hundred.
pub open spec fn window(join_time: i64, now: i64) -> int {
    let widened = BASE_WINDOW + waited(join_time, now) / (WIDENING_MILLIS as int);
    if widened > MAX_WINDOW {
        MAX_WINDOW as int
    } else {
        widened
    }
}

/// At `now`, the rating of `q` lies within the window of `p`.
pub open spec fn within(p: Player, q: Player, now: i64) -> bool {
    gap(p.rating.mean as int, q.rating.mean as int) <= window(p.join_time, now)
}

/// At `now`, the waiting player `id` can be paired with `other`: another
/// waiting player whose rating lies within the window of `id`.
pub open spec fn eligible(queue: Map<i32, Player>, id: i32, other: i32, now: i64) -> bool {
    &&& queue.contains_key(id)
    &&& queue.contains_key(other)
    &&& other != id
    &&& within(queue[id], queue[other], now)
}

/// The queue after a message to the matchmaker that arrives at `now`.
pub open spec fn told(queue: Map<i32, Player>, msg: MatchmakerMessage, now: i64) -> Map<
    i32,
    Player,
> {
    match msg {
        MatchmakerMessage::JoinMatchmaking { id, rating } => queue.insert(
            id,
            Player { rating, join_time: now },
        ),
        MatchmakerMessage::LeaveMatchmaking { id } => queue.remove(id),
        MatchmakerMessage::MatchFound(_) => queue,
    }
}

/// The widest rating gap that a player who joined at `join_time` accepts at
/// `now`.
pub fn window_at(join_time: i64, now: i64) -> (w: i32)
    ensures
        w == window(join_time, now),
        BASE_WINDOW <= w <= MAX_WINDOW,
{
    if now <= join_time {
        BASE_WINDOW
    } else {
        let waited: i128 = now as i128 - join_time as i128;
        let steps: i128 = waited / (WIDENING_MILLIS as i128);
        if steps > (MAX_WINDOW - BASE_WINDOW) as i128 {
            MAX_WINDOW
        } else {
            BASE_WINDOW + steps as i32
        }
    }
}

/// Whether, at `now`, the rating of `q` lies within the window of `p`.
pub fn is_within(p: &Player, q: &Player, now: i64) -> (r: bool)
    ensures
        r == within(*p, *q, now),
{
    let a: i64 = p.rating.mean as i64;
    let b: i64 = q.rating.mean as i64;
    let apart: i64 = if a >= b {
        a - b
    } else {
        b - a
    };
    apart <= window_at(p.join_time, now) as i64
}

/// The pairs of a tick are sound: each pairs two players that were waiting,
/// the second within the window of the first, on a map of the catalog, and
/// neither is waiting any more.
pub open spec fn pairs_sound(
    before: Map<i32, Player>,
    after: Map<i32, Player>,
    found: Seq<Match>,
    maps: Seq<GameMap>,
    now: i64,
) -> bool {
    forall|i: int|
        0 <= i < found.len() ==> {
            let m = (#[trigger] found[i])@;
            &&& eligible(before, m.player1, m.player2, now)
            &&& !after.contains_key(m.player1)
            &&& !after.contains_key(m.player2)
            &&& !m.player1_ready
            &&& !m.player2_ready
            &&& exists|k: int| 0 <= k < maps.len() && m.map == (#[trigger] maps[k])@
        }
}

/// In every pair, the first player joined the queue no later than the
/// second: a player is paired by the turn of the one that waited longer.
pub open spec fn pairs_by_elder(before: Map<i32, Player>, found: Seq<Match>) -> bool {
    forall|i: int|
        0 <= i < found.len() ==> before[(#[trigger] found[i])@.player1].join_time <= before[found[i]@.player2].join_time
}

/// The window of a player is at least as wide as the window of any player
/// that joined later.
pub proof fn lemma_window_widens(earlier: i64, later: i64, now: i64)
    requires
        earlier <= later,
    ensures
        window(earlier, now) >= window(later, now),
{
    vstd::arithmetic::div_mod::lemma_div_is_ordered(
        waited(later, now),
        waited(earlier, now),
        WIDENING_MILLIS as int,
    );
}

/// No player is in two pairs.
pub open spec fn pairs_exclusive(found: Seq<Match>) -> bool {
    forall|i: int, j: int|
        0 <= i < j < found.len() ==> {
            let a = (#[trigger] found[i])@;
            let b = (#[trigger] found[j])@;
            a.player1 != b.player1 && a.player1 != b.player2 && a.player2 != b.player1
                && a.player2 != b.player2
        }
}

/// The player is in one of the pairs.
pub open spec fn paired(found: Seq<Match>, id: i32) -> bool {
    exists|i: int|
        0 <= i < found.len() && ((#[trigger] found[i])@.player1 == id || found[i]@.player2 == id)
}

/// At `now`, the player `id` can be paired with nobody of the queue.
pub open spec fn lonely(queue: Map<i32, Player>, id: i32, now: i64) -> bool {
    forall|other: i32| !#[trigger] eligible(queue, id, other, now)
}

/// No two players of the queue can be paired at `now`.
pub open spec fn settled(queue: Map<i32, Player>, now: i64) -> bool {
    forall|id: i32| #[trigger] lonely(queue, id, now)
}

/// The ids stand in the order in which the players joined the queue, those
/// that joined first in front.
pub open spec fn by_join_time(queue: Map<i32, Player>, ids: Seq<i32>) -> bool {
    forall|a: int, b: int|
        0 <= a < b < ids.len() ==> queue[#[trigger] ids[a]].join_time <= queue[
        #[trigger] ids[b]].join_time
}

/// `after` and `found` are what a round of pairing at `now` can leave behind
/// of the queue `before`, with the maps of the catalog: nobody joins; every
/// pair is sound; no player is in two pairs; every pair is made by its elder
/// player; whoever left the queue is in a pair; and no two players that are
/// left can be paired.
pub open spec fn paired_off(
    before: Map<i32, Player>,
    after: Map<i32, Player>,
    found: Seq<Match>,
    maps: Seq<GameMap>,
    now: i64,
) -> bool {
    &&& after.submap_of(before)
    &&& pairs_sound(before, after, found, maps, now)
    &&& pairs_exclusive(found)
    &&& pairs_by_elder(before, found)
    &&& forall|id: i32| before.contains_key(id) && !after.contains_key(id) ==> paired(found, id)
    &&& settled(after, now)
}

/// The players that wait for a match.
pub struct Matchmaker {
    players: HashMap<i32, Player>,
}

impl View for Matchmaker {
    type V = Map<i32, Player>;

    closed spec fn view(&self) -> Map<i32, Player> {
        self.players@
    }
}

impl Matchmaker {
    /// A matchmaker with nobody waiting.
    pub fn new() -> (m: Matchmaker)
        ensures
            m@ == Map::<i32, Player>::empty(),
    {
        Matchmaker { players: HashMap::new() }
    }

    /// How many players wait.
    pub fn len(&self) -> (n: usize)
        ensures
            n == self@.len(),
    {
        self.players.len()
    }

    /// Whether the player waits.
    pub fn is_waiting(&self, id: i32) -> (r: bool)
        ensures
            r == self@.contains_key(id),
    {
        self.players.contains_key(&id)
    }

    /// The player as it waits, if it does.
    pub fn get(&self, id: i32) -> (r: Option<Player>)
        ensures
            r == if self@.contains_key(id) {
                Some(self@[id])
            } else {
                None
            },
    {
        match self.players.get(&id) {
            Some(p) => Some(*p),
            None => None,
        }
    }

    /// A player joins at `now`. A player that waits already starts anew,
    /// with the new rating.
    pub fn add_player_at(&mut self, id: i32, rating: Rating, now: i64)
        ensures
            final(self)@ == old(self)@.insert(id, Player { rating, join_time: now }),
    {
        self.players.insert(id, Player { rating, join_time: now });
    }

    /// A player joins at the time the clock shows.
    pub fn add_player(&mut self, id: i32, rating: Rating)
        ensures
            final(self)@.contains_key(id),
            final(self)@[id].rating == rating,
            final(self)@[id].join_time >= 0,
            final(self)@ == old(self)@.insert(id, final(self)@[id]),
    {
        let now = unix_millis();
        self.add_player_at(id, rating, now);
    }

    /// A player leaves. Nothing happens where it does not wait.
    pub fn remove_player(&mut self, id: i32)
        ensures
            final(self)@ == old(self)@.remove(id),
    {
        self.players.remove(&id);
    }

    /// The matchmaker is told a message that arrives at `now`: a player
    /// joins or leaves. Anything else is not for it.
    pub fn handle(&mut self, msg: &MatchmakerMessage, now: i64)
        ensures
            final(self)@ == told(old(self)@, *msg, now),
    {
        match msg {
            MatchmakerMessage::JoinMatchmaking { id, rating } => self.add_player_at(
                *id,
                *rating,
                now,
            ),
            MatchmakerMessage::LeaveMatchmaking { id } => self.remove_player(*id),
            MatchmakerMessage::MatchFound(_) => {},
        }
    }

    /// The waiting players, each once, in no particular order.
    pub fn waiting_ids(&self) -> (ids: Vec<i32>)
        ensures
            ids@.no_duplicates(),
            forall|id: i32| ids@.contains(id) <==> self@.contains_key(id),
    {
        let mut ids: Vec<i32> = Vec::new();
        let ghost all = spec_keys_iter(&self.players).remaining();
        let ghost mut seen: int = 0;
        for k in it: self.players.keys()
            invariant
                seen == it.index(),
                ids@ == all.take(seen).unref(),
                it.seq() == all,
        {
            ids.push(*k);
            proof {
                seen = seen + 1;
            }
        }
        ids
    }

    /// When the waiting player joined.
    fn join_time_of(&self, id: i32) -> (t: i64)
        requires
            self@.contains_key(id),
        ensures
            t == self@[id].join_time,
    {
        match self.players.get(&id) {
            Some(p) => p.join_time,
            None => 0,
        }
    }

    /// The waiting players, each once, those that joined first in front.
    pub fn get_all_ids(&self) -> (ids: Vec<i32>)
        ensures
            ids@.no_duplicates(),
            forall|id: i32| ids@.contains(id) <==> self@.contains_key(id),
            by_join_time(self@, ids@),
    {
        let keys = self.waiting_ids();
        let n = keys.len();
        let mut ids: Vec<i32> = Vec::new();
        let mut i: usize = 0;
        while i < n
            invariant
                n == keys.len(),
                i <= n,
                keys@.no_duplicates(),
                forall|id: i32| keys@.contains(id) <==> self@.contains_key(id),
                ids@.no_duplicates(),
                forall|id: i32| ids@.contains(id) <==> keys@.take(i as int).contains(id),
                by_join_time(self@, ids@),
            decreases n - i,
        {
            let id = keys[i];
            let ghost prev = keys@.take(i as int);
            let ghost next = keys@.take(i + 1);
            proof {
                assert(keys@.contains(id));
                assert forall|other: i32| prev.contains(other) implies keys@.contains(other)
                    && other != id by {
                }
            }
            let joined = self.join_time_of(id);
            let mut at: usize = 0;
            let mut searching = true;
            while searching && at < ids.len()
                invariant
                    at <= ids.len(),
                    forall|other: i32| ids@.contains(other) ==> self@.contains_key(other),
                    forall|a: int| 0 <= a < at ==> self@[#[trigger] ids[a]].join_time <= joined,
                    !searching ==> at < ids.len() && self@[ids[at as int]].join_time > joined,
                decreases
                        ids.len() - at + if searching {
                            1int
                        } else {
                            0int
                        },
            {
                assert(ids@.contains(ids[at as int]));
                if self.join_time_of(ids[at]) > joined {
                    searching = false;
                } else {
                    at += 1;
                }
            }
            let ghost before = ids@;
            ids.insert(at, id);
            proof {
                lemma_insert(before, at as int, id);
                assert forall|other: i32| ids@.contains(other) <==> next.contains(other) by {
                    assert(before.contains(other) <==> prev.contains(other));
                }
            }
            i += 1;
        }
        ids
    }

    /// The players that the waiting player `id` can be paired with at `now`,
    /// each once, in no particular order.
    pub fn candidates(&self, id: i32, now: i64) -> (found: Vec<i32>)
        ensures
            found@.no_duplicates(),
            forall|other: i32| found@.contains(other) <==> eligible(self@, id, other, now),
    {
        let mut found: Vec<i32> = Vec::new();
        let player = match self.players.get(&id) {
            Some(p) => *p,
            None => {
                return found;
            },
        };
        let keys = self.waiting_ids();
        let n = keys.len();
        let mut i: usize = 0;
        while i < n
            invariant
                n == keys.len(),
                i <= n,
                self@.contains_key(id),
                player == self@[id],
                keys@.no_duplicates(),
                forall|other: i32| keys@.contains(other) <==> self@.contains_key(other),
                found@.no_duplicates(),
                forall|other: i32|
                    found@.contains(other) <==> keys@.take(i as int).contains(other) && eligible(
                        self@,
                        id,
                        other,
                        now,
                    ),
            decreases n - i,
        {
            let other = keys[i];
            let ghost before = found@;
            let waits = match self.players.get(&other) {
                Some(q) => other != id && is_within(&player, q, now),
                None => false,
            };
            if waits {
                found.push(other);
            }
            proof {
                assert(found@.no_duplicates()) by {
                    if waits {
                        assert forall|a: int, b: int|
                            0 <= a < found@.len() && 0 <= b < found@.len() && a
                                != b implies found@[a] != found@[b] by {
                            if a < before.len() {
                                assert(before.contains(before[a]));
                            }
                            if b < before.len() {
                                assert(before.contains(before[b]));
                            }
                        }
                    }
                }
            }
            i += 1;
        }
        found
    }

    /// Pairs the player `player_id` at `now` with one of the players it can
    /// be paired with, drawn at random, on a map drawn at random from the
    /// catalog. There is no pair where the player does not wait, or can be
    /// paired with nobody. The queue stays as it is.
    pub fn find_match(&self, player_id: i32, now: i64, maps: &MapCatalog) -> (r: Option<Match>)
        ensures
            r is None <==> lonely(self@, player_id, now),
            r matches Some(m) ==> {
                &&& m@.player1 == player_id
                &&& eligible(self@, player_id, m@.player2, now)
                &&& !m@.player1_ready
                &&& !m@.player2_ready
                &&& exists|k: int| 0 <= k < maps.maps().len() && m@.map == (#[trigger] maps.maps()[k])@
            },
    {
        let found = self.candidates(player_id, now);
        if found.len() == 0 {
            assert forall|other: i32| !eligible(self@, player_id, other, now) by {
                if eligible(self@, player_id, other, now) {
                    assert(found@.contains(other));
                }
            }
            return None;
        }
        let opponent = found[random_below(found.len())];
        assert(found@.contains(opponent));
        let map = maps.draw().duplicate();
        Match::new(player_id, opponent, map)
    }

    /// One round of pairing at `now`. The waiting players are taken in the
    /// order in which they joined; each one that still waits is paired, if
    /// it can be, with a player drawn at random from those within its
    /// window, and both leave the queue.
    pub fn tick_at(&mut self, now: i64, maps: &MapCatalog) -> (found: Vec<Match>)
        ensures
            paired_off(old(self)@, final(self)@, found@, maps.maps(), now),
    {
        let ids = self.get_all_ids();
        let n = ids.len();
        let mut found: Vec<Match> = Vec::new();
        let mut i: usize = 0;
        while i < n
            invariant
                n == ids.len(),
                i <= n,
                forall|id: i32| ids@.contains(id) <==> old(self)@.contains_key(id),
                by_join_time(old(self)@, ids@),
                self@.submap_of(old(self)@),
                pairs_sound(old(self)@, self@, found@, maps.maps(), now),
                pairs_exclusive(found@),
                pairs_by_elder(old(self)@, found@),
                forall|id: i32|
                    old(self)@.contains_key(id) && !self@.contains_key(id) ==> paired(found@, id),
                forall|a: int| 0 <= a < i ==> lonely(self@, #[trigger] ids[a], now),
            decreases n - i,
        {
            let id = ids[i];
            let ghost queue = self@;
            let ghost pairs = found@;
            match self.find_match(id, now, maps) {
                Some(m) => {
                    let first = m.player1();
                    let second = m.player2();
                    self.remove_player(first);
                    self.remove_player(second);
                    found.push(m);
                    proof {
                        assert(queue.contains_key(first) && old(self)@.contains_key(first));
                        assert(queue[first].join_time <= queue[second].join_time) by {
                            if queue[second].join_time < queue[first].join_time {
                                assert(ids@.contains(second));
                                lemma_window_widens(
                                    queue[second].join_time,
                                    queue[first].join_time,
                                    now,
                                );
                                assert(eligible(queue, second, first, now));
                            }
                        }
                        assert forall|gone: i32|
                            old(self)@.contains_key(gone) && !self@.contains_key(
                                gone,
                            ) implies paired(found@, gone) by {
                            if queue.contains_key(gone) {
                                assert(found@[pairs.len() as int]@.player1 == gone
                                    || found@[pairs.len() as int]@.player2 == gone);
                            } else {
                                assert(paired(pairs, gone));
                                let w = choose|k: int|
                                    0 <= k < pairs.len() && ((#[trigger] pairs[k])@.player1
                                        == gone || pairs[k]@.player2 == gone);
                                assert(found@[w] == pairs[w]);
                            }
                        }
                        assert forall|a: int| 0 <= a < i + 1 implies lonely(
                            self@,
                            #[trigger] ids[a],
                            now,
                        ) by {
                            assert forall|other: i32| !#[trigger] eligible(
                                self@,
                                ids[a],
                                other,
                                now,
                            ) by {
                                if a < i && eligible(self@, ids[a], other, now) {
                                    assert(eligible(queue, ids[a], other, now));
                                }
                            }
                        }
                    }
                },
                None => {},
            }
            i += 1;
        }
        proof {
            assert forall|p: i32| #[trigger] lonely(self@, p, now) by {
                if self@.contains_key(p) {
                    assert(ids@.contains(p));
                }
            }
        }
        found
    }

    /// One round of pairing at the time the clock shows.
    pub fn tick(&mut self, maps: &MapCatalog) -> (found: Vec<Match>)
        ensures
            exists|now: i64|
                now >= 0 && #[trigger] paired_off(
                    old(self)@,
                    final(self)@,
                    found@,
                    maps.maps(),
                    now,
                ),
    {
        let now = unix_millis();
        self.tick_at(now, maps)
    }
}

impl Default for Matchmaker {
    fn default() -> (m: Matchmaker)
        ensures
            m@ == Map::<i32, Player>::empty(),
    {
        Matchmaker::new()
    }
}

} // verus!
