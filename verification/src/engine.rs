//! The battle engine: every running match, and the routing of commands and
//! clock ticks to them.

use crate::catalog::{AnimalCatalog, AnimalStat};
use crate::clock::unix_seconds;
use crate::matchmaking::{Match, MatchView};
use crate::protocol::{
    refusal, replies, Action, BattleError, Command, DamageAnimal, Event, MoveAnimal, Phase,
    PickAnimal, PlaceAnimals, Reply, Response, UseAnimal,
};
use crate::state::{timely, Outcome, WorldState};
use crate::world::{lemma_replies_append, World};
use std::collections::HashMap;
use vstd::prelude::*;

verus! {

broadcast use vstd::std_specs::hash::group_hash_axioms;

/// What the engine is told, and what it tells.
#[allow(inconsistent_fields)]
#[derive(Debug)]
pub enum BattleMessage {
    /// A pair of the matchmaker: the engine trusts it.
    CreateBattle(Match),
    Pick { player_id: i32, cmd: PickAnimal },
    Ready { player_id: i32 },
    PlacePlayerAnimals { player_id: i32, animals: PlaceAnimals },
    MovePlayerAnimal { player_id: i32, animal: MoveAnimal },
    UsePlayerAnimal { player_id: i32, animal: UseAnimal },
    EndTurn { player_id: i32 },
    DamagePlayerAnimal { player_id: i32, animal: DamageAnimal },
    /// What the engine tells the players named as receivers.
    Response { receivers: Vec<i32>, res: Result<Command, BattleError> },
}

/// The command of a player that the message carries, if it carries one.
pub open spec fn event_of(msg: BattleMessage) -> Option<Event> {
    match msg {
        BattleMessage::Pick { player_id, cmd } => Some(
            Event { player_id, action: Action::Pick(cmd) },
        ),
        BattleMessage::Ready { player_id } => Some(Event { player_id, action: Action::Ready }),
        BattleMessage::PlacePlayerAnimals { player_id, animals } => Some(
            Event { player_id, action: Action::Place(animals) },
        ),
        BattleMessage::MovePlayerAnimal { player_id, animal } => Some(
            Event { player_id, action: Action::Move(animal) },
        ),
        BattleMessage::UsePlayerAnimal { player_id, animal } => Some(
            Event { player_id, action: Action::Use(animal) },
        ),
        BattleMessage::EndTurn { player_id } => Some(Event { player_id, action: Action::EndTurn }),
        BattleMessage::DamagePlayerAnimal { player_id, animal } => Some(
            Event { player_id, action: Action::Damage(animal) },
        ),
        BattleMessage::CreateBattle(_) => None,
        BattleMessage::Response { .. } => None,
    }
}

impl BattleMessage {
    /// The command of a player that the message carries, if it carries one.
    pub fn into_event(self) -> (r: Option<Event>)
        ensures
            r == event_of(self),
    {
        match self {
            BattleMessage::Pick { player_id, cmd } => Some(
                Event { player_id, action: Action::Pick(cmd) },
            ),
            BattleMessage::Ready { player_id } => Some(Event { player_id, action: Action::Ready }),
            BattleMessage::PlacePlayerAnimals { player_id, animals } => Some(
                Event { player_id, action: Action::Place(animals) },
            ),
            BattleMessage::MovePlayerAnimal { player_id, animal } => Some(
                Event { player_id, action: Action::Move(animal) },
            ),
            BattleMessage::UsePlayerAnimal { player_id, animal } => Some(
                Event { player_id, action: Action::Use(animal) },
            ),
            BattleMessage::EndTurn { player_id } => Some(
                Event { player_id, action: Action::EndTurn },
            ),
            BattleMessage::DamagePlayerAnimal { player_id, animal } => Some(
                Event { player_id, action: Action::Damage(animal) },
            ),
            BattleMessage::CreateBattle(_) => None,
            BattleMessage::Response { .. } => None,
        }
    }
}

/// The matches that are not over.
pub open spec fn running() -> spec_fn(WorldState) -> bool {
    |w: WorldState| w.phase != Phase::Terminal
}

/// The matches of the list that are not over, in their order.
pub open spec fn live(worlds: Seq<WorldState>) -> Seq<WorldState> {
    worlds.filter(running())
}

/// The place of the match that the commands of the player go to: the last
/// one that the player takes part in.
pub open spec fn route(worlds: Seq<WorldState>, player: i32) -> Option<int>
    decreases worlds.len(),
{
    if worlds.len() == 0 {
        None
    } else if worlds.last().plays(player) {
        Some(worlds.len() - 1)
    } else {
        route(worlds.drop_last(), player)
    }
}

/// Every match of the list is well-formed and not over.
pub open spec fn worlds_ok(worlds: Seq<WorldState>) -> bool {
    forall|i: int|
        0 <= i < worlds.len() ==> (#[trigger] worlds[i]).wf() && worlds[i].phase
            != Phase::Terminal
}

/// The states that the outcomes end in.
pub open spec fn worlds_of(outcomes: Seq<Outcome>) -> Seq<WorldState> {
    Seq::new(outcomes.len(), |i: int| outcomes[i].world)
}

/// The responses of the outcomes, one outcome after the other.
pub open spec fn told_by(outcomes: Seq<Outcome>) -> Seq<Reply>
    decreases outcomes.len(),
{
    if outcomes.len() == 0 {
        seq![]
    } else {
        told_by(outcomes.drop_last()) + outcomes.last().responses
    }
}

/// `after` and `out` are what a command that arrives at `now` can leave
/// behind. A command of a player that takes part in no match is refused.
/// Any other runs the pipeline of the match that the player is routed to,
/// and of no other; a match that is over after the run leaves the engine.
pub open spec fn delivered(
    before: Seq<WorldState>,
    event: Event,
    now: i64,
    after: Seq<WorldState>,
    out: Seq<Reply>,
) -> bool {
    match route(before, event.player_id) {
        None => after == before && out == seq![
            refusal(event.player_id, BattleError::PlayerNotPlaying),
        ],
        Some(i) => exists|ran: Outcome|
            {
                &&& #[trigger] before[i].runs(Some(event), now, ran)
                &&& out == ran.responses
                &&& after == live(before.update(i, ran.world))
            },
    }
}

/// `after` and `out` are what a tick of the clock at `now` can leave
/// behind: the pipeline runs once in every match, without a command, and
/// the matches that are over after their run leave the engine.
pub open spec fn ticked(
    before: Seq<WorldState>,
    now: i64,
    after: Seq<WorldState>,
    out: Seq<Reply>,
) -> bool {
    exists|ran: Seq<Outcome>|
        {
            &&& ran.len() == before.len()
            &&& forall|i: int|
                0 <= i < before.len() ==> (#[trigger] before[i]).runs(None, now, ran[i])
            &&& after == #[trigger] live(worlds_of(ran))
            &&& out == told_by(ran)
        }
}

/// `after` is what the creation of a match for the pair `m` at `now` can
/// leave behind: one match more, in the pick phase, with one of the two
/// players to pick first.
pub open spec fn created(
    before: Seq<WorldState>,
    catalog: Seq<AnimalStat>,
    m: MatchView,
    now: i64,
    after: Seq<WorldState>,
) -> bool {
    after == before.push(WorldState::start(m, catalog, m.player1, now)) || after == before.push(
        WorldState::start(m, catalog, m.player2, now),
    )
}

/// `after` and `out` are what a message that arrives at `now` can leave
/// behind.
pub open spec fn handled(
    before: Seq<WorldState>,
    catalog: Seq<AnimalStat>,
    msg: BattleMessage,
    now: i64,
    after: Seq<WorldState>,
    out: Seq<Reply>,
) -> bool {
    match msg {
        BattleMessage::CreateBattle(m) => created(before, catalog, m@, now, after) && out
            == Seq::<Reply>::empty(),
        BattleMessage::Response { .. } => after == before && out == Seq::<Reply>::empty(),
        _ => delivered(before, event_of(msg)->0, now, after, out),
    }
}

/// The place that a player is routed to is the place of a match that the
/// player takes part in.
pub proof fn lemma_route_bounds(worlds: Seq<WorldState>, player: i32)
    ensures
        route(worlds, player) matches Some(i) ==> 0 <= i < worlds.len() && worlds[i].plays(player),
        route(worlds, player) is None ==> forall|i: int|
            0 <= i < worlds.len() ==> !(#[trigger] worlds[i]).plays(player),
    decreases worlds.len(),
{
    if worlds.len() > 0 {
        lemma_route_bounds(worlds.drop_last(), player);
        if !worlds.last().plays(player) {
            assert forall|i: int| 0 <= i < worlds.len() && route(
                worlds,
                player,
            ) is None implies !(#[trigger] worlds[i]).plays(player) by {
                if i < worlds.len() - 1 {
                    assert(worlds.drop_last()[i] == worlds[i]);
                }
            }
        }
    }
}

/// A new match takes over the routes of its players, and of nobody else.
pub proof fn lemma_route_push(worlds: Seq<WorldState>, w: WorldState, player: i32)
    ensures
        route(worlds.push(w), player) == if w.plays(player) {
            Some(worlds.len() as int)
        } else {
            route(worlds, player)
        },
{
    assert(worlds.push(w).drop_last() =~= worlds);
}

/// The routes depend on the players of the matches alone.
pub proof fn lemma_route_same(a: Seq<WorldState>, b: Seq<WorldState>, player: i32)
    requires
        a.len() == b.len(),
        forall|i: int| 0 <= i < a.len() ==> (#[trigger] a[i]).same_match(b[i]),
    ensures
        route(a, player) == route(b, player),
    decreases a.len(),
{
    if a.len() > 0 {
        lemma_route_same(a.drop_last(), b.drop_last(), player);
    }
}

/// Where every match of a list runs, the matches that are not over are the
/// whole list.
pub proof fn lemma_live_all(worlds: Seq<WorldState>)
    requires
        forall|i: int| 0 <= i < worlds.len() ==> (#[trigger] worlds[i]).phase != Phase::Terminal,
    ensures
        live(worlds) == worlds,
    decreases worlds.len(),
{
    reveal(Seq::filter);
    if worlds.len() > 0 {
        lemma_live_all(worlds.drop_last());
    }
}

/// The battle engine: the running matches, and for each player the match
/// that its commands go to.
pub struct BattleEngine {
    worlds: Vec<World>,
    index: HashMap<i32, usize>,
    animals: AnimalCatalog,
}

impl View for BattleEngine {
    type V = Seq<WorldState>;

    closed spec fn view(&self) -> Seq<WorldState> {
        Seq::new(self.worlds.len() as nat, |i: int| self.worlds[i]@)
    }
}

impl BattleEngine {
    /// The animals that the players of every match pick from.
    pub closed spec fn catalog(&self) -> Seq<AnimalStat> {
        self.animals@
    }

    /// The index holds, for each player, the place that the player is
    /// routed to.
    pub closed spec fn indexed(&self) -> bool {
        forall|player: i32|
            {
                &&& #[trigger] self.index@.contains_key(player) <==> route(self@, player) is Some
                &&& self.index@.contains_key(player) ==> self.index@[player] as int == route(
                    self@,
                    player,
                )->0
            }
    }

    /// The engine is in a state that its operations can leave it in: every
    /// match is well-formed and not over, and every player that the index
    /// knows is routed to a match of the engine that it takes part in.
    pub open spec fn wf(&self) -> bool {
        worlds_ok(self@) && self.indexed()
    }

    /// An engine without matches.
    pub fn new(animals: AnimalCatalog) -> (e: BattleEngine)
        ensures
            e.wf(),
            e@ == Seq::<WorldState>::empty(),
            e.catalog() == animals@,
    {
        let e = BattleEngine { worlds: Vec::new(), index: HashMap::new(), animals };
        e
    }

    /// How many matches run.
    pub fn len(&self) -> (n: usize)
        ensures
            n == self@.len(),
    {
        self.worlds.len()
    }

    /// The match at a place.
    pub fn world(&self, i: usize) -> (w: &World)
        requires
            i < self@.len(),
        ensures
            w@ == self@[i as int],
    {
        &self.worlds[i]
    }

    /// The place of the match that the commands of the player go to.
    pub fn world_of(&self, player: i32) -> (r: Option<usize>)
        requires
            self.wf(),
        ensures
            match r {
                Some(i) => route(self@, player) == Some(i as int) && i < self@.len(),
                None => route(self@, player) is None,
            },
    {
        proof {
            lemma_route_bounds(self@, player);
        }
        match self.index.get(&player) {
            Some(i) => Some(*i),
            None => None,
        }
    }

    /// Builds the index anew from the matches.
    fn rebuild_index(&mut self)
        ensures
            final(self)@ == old(self)@,
            final(self).catalog() == old(self).catalog(),
            final(self).indexed(),
    {
        self.index = HashMap::new();
        let n = self.worlds.len();
        let mut j: usize = 0;
        while j < n
            invariant
                n == self.worlds.len(),
                j <= n,
                self@ == old(self)@,
                self.catalog() == old(self).catalog(),
                forall|player: i32|
                    {
                        &&& #[trigger] self.index@.contains_key(player) <==> route(
                            self@.take(j as int),
                            player,
                        ) is Some
                        &&& self.index@.contains_key(player) ==> self.index@[player] as int
                            == route(self@.take(j as int), player)->0
                    },
            decreases n - j,
        {
            let first = self.worlds[j].player1();
            let second = self.worlds[j].player2();
            let ghost before = self.index@;
            self.index.insert(first, j);
            self.index.insert(second, j);
            proof {
                assert(self@.take(j + 1) =~= self@.take(j as int).push(self@[j as int]));
                assert forall|player: i32|
                    {
                        &&& #[trigger] self.index@.contains_key(player) <==> route(
                            self@.take(j + 1),
                            player,
                        ) is Some
                        &&& self.index@.contains_key(player) ==> self.index@[player] as int
                            == route(self@.take(j + 1), player)->0
                    } by {
                    lemma_route_push(self@.take(j as int), self@[j as int], player);
                }
            }
            j += 1;
        }
        assert(self@.take(n as int) =~= self@);
    }

    /// A match for the pair begins at `now`, with the first or the second
    /// player of the pair to pick first. From now on the commands of both
    /// players go to this match.
    pub fn create_battle_with(&mut self, m: &Match, first: bool, now: i64)
        requires
            old(self).wf(),
        ensures
            final(self).wf(),
            final(self).catalog() == old(self).catalog(),
            final(self)@ == old(self)@.push(
                WorldState::start(
                    m@,
                    old(self).catalog(),
                    if first {
                        m@.player1
                    } else {
                        m@.player2
                    },
                    now,
                ),
            ),
    {
        let w = World::starting_with(m, self.animals.duplicate(), first, now);
        let ghost born = w@;
        let ghost before = self@;
        self.worlds.push(w);
        assert(self@ =~= before.push(born));
        self.rebuild_index();
    }

    /// A match for the pair begins at `now`. Which player picks first is
    /// drawn at random.
    pub fn create_battle(&mut self, m: &Match, now: i64)
        requires
            old(self).wf(),
        ensures
            final(self).wf(),
            final(self).catalog() == old(self).catalog(),
            created(old(self)@, old(self).catalog(), m@, now, final(self)@),
    {
        let w = World::new(m, self.animals.duplicate(), now);
        let ghost born = w@;
        let ghost before = self@;
        self.worlds.push(w);
        assert(self@ =~= before.push(born));
        self.rebuild_index();
    }

    /// The command of a player arrives at `now`.
    pub fn deliver(&mut self, event: &Event, now: i64) -> (out: Vec<Response>)
        requires
            old(self).wf(),
            timely(now),
        ensures
            final(self).wf(),
            final(self).catalog() == old(self).catalog(),
            delivered(old(self)@, *event, now, final(self)@, replies(out@)),
    {
        let ghost before = self@;
        proof {
            lemma_route_bounds(before, event.player_id);
        }
        let at = match self.index.get(&event.player_id) {
            Some(i) => *i,
            None => {
                let mut out: Vec<Response> = Vec::new();
                out.push(Response::refuse(event.player_id, BattleError::PlayerNotPlaying));
                assert(replies(out@) =~= seq![
                    refusal(event.player_id, BattleError::PlayerNotPlaying),
                ]);
                return out;
            },
        };
        let out = self.worlds[at].step(Some(event), now);
        let ghost ran = Outcome { world: self.worlds[at as int]@, responses: replies(out@) };
        assert(self@ =~= before.update(at as int, ran.world));
        if self.worlds[at].phase() == Phase::Terminal {
            self.worlds.remove(at);
            proof {
                let updated = before.update(at as int, ran.world);
                assert(self@ =~= updated.remove(at as int));
                lemma_live_one_out(updated, at as int);
            }
            self.rebuild_index();
        } else {
            proof {
                lemma_live_all(self@);
                assert forall|player: i32|
                    {
                        &&& #[trigger] self.index@.contains_key(player) <==> route(
                            self@,
                            player,
                        ) is Some
                        &&& self.index@.contains_key(player) ==> self.index@[player] as int
                            == route(self@, player)->0
                    } by {
                    lemma_route_same(self@, before, player);
                }
            }
        }
        out
    }

    /// The clock ticks at `now`: the pipeline runs once in every match.
    pub fn tick_at(&mut self, now: i64) -> (out: Vec<Response>)
        requires
            old(self).wf(),
            timely(now),
        ensures
            final(self).wf(),
            final(self).catalog() == old(self).catalog(),
            ticked(old(self)@, now, final(self)@, replies(out@)),
    {
        let ghost before = self@;
        let ghost mut ran: Seq<Outcome> = Seq::empty();
        let mut out: Vec<Response> = Vec::new();
        let mut i: usize = 0;
        while i < self.worlds.len()
            invariant
                i <= self.worlds.len(),
                self.catalog() == old(self).catalog(),
                worlds_ok(before),
                ran.len() + self.worlds.len() - i == before.len(),
                forall|k: int| 0 <= k < ran.len() ==> (#[trigger] before[k]).runs(None, now, ran[k]),
                self@.take(i as int) == live(worlds_of(ran)),
                self@.skip(i as int) == before.skip(ran.len() as int),
                worlds_ok(self@),
                replies(out@) == told_by(ran),
                timely(now),
            decreases self.worlds.len() - i,
        {
            let ghost here = self@;
            let ghost started = before[ran.len() as int];
            assert(started == here.skip(i as int)[0]);
            let mut more = self.worlds[i].step(None, now);
            let ghost done = Outcome { world: self.worlds[i as int]@, responses: replies(more@) };
            proof {
                lemma_replies_append(out@, more@);
            }
            out.append(&mut more);
            let ghost next = ran.push(done);
            proof {
                assert(next.drop_last() =~= ran);
                assert(worlds_of(next) =~= worlds_of(ran).push(done.world));
                worlds_of(ran).lemma_filter_push(done.world, running());
            }
            if self.worlds[i].phase() == Phase::Terminal {
                self.worlds.remove(i);
                proof {
                    assert(self@.skip(i as int) =~= before.skip(next.len() as int)) by {
                        assert forall|k: int| 0 <= k < self@.len() - i implies self@.skip(
                            i as int,
                        )[k] == before.skip(next.len() as int)[k] by {
                            assert(here.skip(i as int)[k + 1] == before.skip(ran.len() as int)[k
                                + 1]);
                        }
                    }
                    assert forall|k: int| 0 <= k < self@.len() implies (#[trigger] self@[k]).wf()
                        && self@[k].phase != Phase::Terminal by {
                        if k < i {
                            assert(self@[k] == here[k]);
                        } else {
                            assert(self@[k] == here[k + 1]);
                        }
                    }
                }
            } else {
                proof {
                    assert(self@.skip(i + 1) =~= before.skip(next.len() as int)) by {
                        assert forall|k: int| 0 <= k < self@.len() - i - 1 implies self@.skip(
                            i + 1,
                        )[k] == before.skip(next.len() as int)[k] by {
                            assert(here.skip(i as int)[k + 1] == before.skip(ran.len() as int)[k
                                + 1]);
                        }
                    }
                    assert forall|k: int| 0 <= k < self@.len() implies (#[trigger] self@[k]).wf()
                        && self@[k].phase != Phase::Terminal by {
                        if k != i {
                            assert(self@[k] == here[k]);
                        }
                    }
                }
                i += 1;
            }
            proof {
                ran = next;
            }
        }
        assert(self@.take(i as int) =~= self@);
        self.rebuild_index();
        out
    }

    /// A message arrives at `now`: a match is created, or the command of a
    /// player is delivered. A response is no message for the engine.
    pub fn handle_at(&mut self, msg: BattleMessage, now: i64) -> (out: Vec<Response>)
        requires
            old(self).wf(),
            timely(now),
        ensures
            final(self).wf(),
            final(self).catalog() == old(self).catalog(),
            handled(old(self)@, old(self).catalog(), msg, now, final(self)@, replies(out@)),
    {
        match msg {
            BattleMessage::CreateBattle(m) => {
                self.create_battle(&m, now);
                let out: Vec<Response> = Vec::new();
                assert(replies(out@) =~= Seq::<Reply>::empty());
                out
            },
            BattleMessage::Response { receivers, res } => {
                let out: Vec<Response> = Vec::new();
                assert(replies(out@) =~= Seq::<Reply>::empty());
                out
            },
            other => {
                match other.into_event() {
                    Some(event) => self.deliver(&event, now),
                    None => Vec::new(),
                }
            },
        }
    }

    /// A message arrives at the time the clock shows.
    pub fn handle(&mut self, msg: BattleMessage) -> (out: Vec<Response>)
        requires
            old(self).wf(),
        ensures
            final(self).wf(),
            final(self).catalog() == old(self).catalog(),
            exists|now: i64|
                timely(now) && #[trigger] handled(
                    old(self)@,
                    old(self).catalog(),
                    msg,
                    now,
                    final(self)@,
                    replies(out@),
                ),
    {
        let now = unix_seconds();
        self.handle_at(msg, now)
    }

    /// The clock ticks, at the time it shows.
    pub fn tick(&mut self) -> (out: Vec<Response>)
        requires
            old(self).wf(),
        ensures
            final(self).wf(),
            final(self).catalog() == old(self).catalog(),
            exists|now: i64|
                timely(now) && #[trigger] ticked(old(self)@, now, final(self)@, replies(out@)),
    {
        let now = unix_seconds();
        self.tick_at(now)
    }
}

/// Where one match of a list is over and every other runs, the matches that
/// are not over are the list without that one.
pub proof fn lemma_live_one_out(worlds: Seq<WorldState>, at: int)
    requires
        0 <= at < worlds.len(),
        worlds[at].phase == Phase::Terminal,
        forall|i: int|
            0 <= i < worlds.len() && i != at ==> (#[trigger] worlds[i]).phase != Phase::Terminal,
    ensures
        live(worlds) == worlds.remove(at),
    decreases worlds.len(),
{
    reveal(Seq::filter);
    let rest = worlds.drop_last();
    if at == worlds.len() - 1 {
        lemma_live_all(rest);
    } else {
        lemma_live_one_out(rest, at);
    }
}

} // verus!
