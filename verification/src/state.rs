//! The state of one match as a mathematical value, and what each handler of
//! the phase pipeline does to it.

use crate::catalog::{cells_of, first_with_id, lists_animal, stats_valid, AnimalStat};
use crate::chance::drawn_from;
use crate::grid::{adjacent, canonical_row, gap, Position};
use crate::matchmaking::MatchView;
use crate::protocol::{
    refusal, to_both, to_one, Action, AnimalPlaced, BattleError, CommandView, Event, Phase,
    PlaceAnimal, Reply,
};
use vstd::prelude::*;

verus! {

/// Seconds a player has for one pick.
pub const PICK_TIME: i64 = 30;

/// Seconds both players have to place their animals.
pub const PLACE_TIME: i64 = 60;

/// Seconds a player has for one turn of the game.
pub const TURN_TIME: i64 = 60;

/// Animals picked in a match, both players together.
pub const PICK_COUNT: usize = 6;

/// Animals of one player.
pub const TEAM_SIZE: usize = 3;

/// An instant that every deadline can still be counted from.
pub open spec fn timely(now: i64) -> bool {
    &&& now + PICK_TIME <= i64::MAX
    &&& now + PLACE_TIME <= i64::MAX
    &&& now + TURN_TIME <= i64::MAX
}

/// One animal of a match: the stat block it was picked with, and what
/// changes during the match.
#[derive(Clone, Copy, Debug, PartialEq, Eq)]
pub struct Animal {
    pub owner: i32,
    pub stat: AnimalStat,
    pub hp: i32,
    pub mobility_remaining: i32,
    pub position: Option<Position>,
    /// The animal is the one its owner acts with this turn.
    pub used: bool,
    /// The animal has struck this turn.
    pub hit: bool,
}

impl Animal {
    /// The animal loses the health that a strike of `amount` takes from it:
    /// `amount`, or all the health it has where that is less. What it lost
    /// is handed back.
    pub fn take_damage(&mut self, amount: i32) -> (taken: i32)
        requires
            amount >= 0,
            old(self).hp >= 0,
        ensures
            taken == if old(self).hp < amount {
                old(self).hp
            } else {
                amount
            },
            *final(self) == (Animal { hp: (old(self).hp - taken) as i32, ..*old(self) }),
    {
        if self.hp < amount {
            let taken = self.hp;
            self.hp = 0;
            taken
        } else {
            self.hp = self.hp - amount;
            amount
        }
    }
}

/// The animal as it is picked: at full health, unplaced and at rest.
pub open spec fn fresh(owner: i32, stat: AnimalStat) -> Animal {
    Animal {
        owner,
        stat,
        hp: stat.hp,
        mobility_remaining: stat.mobility,
        position: None,
        used: false,
        hit: false,
    }
}

/// The animal at rest again, as it starts a turn.
pub open spec fn rested(a: Animal) -> Animal {
    if a.used {
        Animal { used: false, hit: false, mobility_remaining: a.stat.mobility, ..a }
    } else {
        a
    }
}

/// What a strike of strength `attack` takes from a target that absorbs
/// `resistance` percent of it.
pub open spec fn damage_dealt(attack: int, resistance: int) -> int {
    attack * (100 - resistance) / 100
}

/// The animals that belong to the player.
pub open spec fn owned_by(player: i32) -> spec_fn(Animal) -> bool {
    |a: Animal| a.owner == player
}

/// The animals of the player that are not on the board yet.
pub open spec fn waiting_of(player: i32) -> spec_fn(Animal) -> bool {
    |a: Animal| a.owner == player && a.position is None
}

/// The animals that have health left.
pub open spec fn alive() -> spec_fn(Animal) -> bool {
    |a: Animal| a.hp > 0
}

/// The animals that have no health left.
pub open spec fn fallen() -> spec_fn(Animal) -> bool {
    |a: Animal| a.hp <= 0
}

/// `k` is the place of the first entry that names the animal.
pub open spec fn first_entry(entries: Seq<PlaceAnimal>, id: i32, k: int) -> bool {
    &&& 0 <= k < entries.len()
    &&& entries[k].animal_id == id
    &&& forall|l: int| 0 <= l < k ==> (#[trigger] entries[l]).animal_id != id
}

/// The place of the first entry that names the animal, if one does.
pub open spec fn entry_for(entries: Seq<PlaceAnimal>, id: i32) -> Option<int> {
    if exists|k: int| first_entry(entries, id, k) {
        Some(choose|k: int| first_entry(entries, id, k))
    } else {
        None
    }
}

/// `i` is the place of the first animal that meets `f`.
pub open spec fn is_first(animals: Seq<Animal>, f: spec_fn(Animal) -> bool, i: int) -> bool {
    &&& 0 <= i < animals.len()
    &&& f(animals[i])
    &&& forall|k: int| 0 <= k < i ==> !f(#[trigger] animals[k])
}

/// The place of the first animal that meets `f`, if one does.
pub open spec fn first_where(animals: Seq<Animal>, f: spec_fn(Animal) -> bool) -> Option<int> {
    if exists|i: int| is_first(animals, f, i) {
        Some(choose|i: int| is_first(animals, f, i))
    } else {
        None
    }
}

/// The animals that the player acts with.
pub open spec fn acting_of(player: i32) -> spec_fn(Animal) -> bool {
    |a: Animal| a.used && a.owner == player
}

/// The animals that the player can take into use under the id: its own, on
/// the board and at rest.
pub open spec fn usable_as(player: i32, id: i32) -> spec_fn(Animal) -> bool {
    |a: Animal| a.owner == player && a.stat.id == id && a.position is Some && !a.used
}

/// The animals of the player's enemy on the cell `(x, y)`.
pub open spec fn foe_on(player: i32, x: int, y: int) -> spec_fn(Animal) -> bool {
    |a: Animal|
        a.owner != player && a.position is Some && a.position->0.x == x && a.position->0.y == y
}

/// The cell `c` lies on the straight way from `from` to `to`, which share a
/// row or a column: after `from`, and up to `to`.
pub open spec fn on_way(from: Position, to: Position, c: Position) -> bool {
    ||| c.x == from.x && from.x == to.x && (from.y < c.y <= to.y || to.y <= c.y < from.y)
    ||| c.y == from.y && from.y == to.y && (from.x < c.x <= to.x || to.x <= c.x < from.x)
}

/// The cell `c` comes before the cell `(x, y)` where the board is walked
/// column by column, each column upwards.
pub open spec fn scanned(c: Position, x: int, y: int) -> bool {
    c.x < x || (c.x == x && c.y < y)
}

/// The report of one placed animal.
pub open spec fn placed_report(a: Animal) -> AnimalPlaced {
    AnimalPlaced { player_id: a.owner, animal_id: a.stat.id, position: a.position->0 }
}

/// The animals that stand on the board.
pub open spec fn on_board() -> spec_fn(Animal) -> bool {
    |a: Animal| a.position is Some
}

/// The reports of the animals that stand on the board, in their order.
pub open spec fn placed_reports(animals: Seq<Animal>) -> Seq<AnimalPlaced> {
    animals.filter(on_board()).map_values(|a: Animal| placed_report(a))
}

/// The state of one match.
#[verifier::ext_equal]
pub struct WorldState {
    pub phase: Phase,
    pub current_turn: i32,
    pub deadline: i64,
    pub player1: i32,
    pub player2: i32,
    pub player1_ready: bool,
    pub player2_ready: bool,
    pub obstacles: Seq<Position>,
    pub animals: Seq<Animal>,
    pub catalog: Seq<AnimalStat>,
}

/// What a handler leaves behind: the state after it, and the responses it
/// emitted, in their order.
#[verifier::ext_equal]
pub struct Outcome {
    pub world: WorldState,
    pub responses: Seq<Reply>,
}

impl WorldState {
    /// The handler did nothing.
    pub open spec fn idle(self) -> Outcome {
        Outcome { world: self, responses: seq![] }
    }

    /// The handler refused the command: the state is as before, and only the
    /// offender is told.
    pub open spec fn refuse(self, player: i32, error: BattleError) -> Outcome {
        Outcome { world: self, responses: seq![refusal(player, error)] }
    }

    /// A response for both players.
    pub open spec fn announce(self, command: CommandView) -> Reply {
        to_both(self.player1, self.player2, command)
    }

    pub open spec fn plays(self, player: i32) -> bool {
        player == self.player1 || player == self.player2
    }

    /// Whether the player sees the board upside down.
    pub open spec fn is_second(self, player: i32) -> bool {
        player == self.player2
    }

    /// The player whose turn comes after `player`'s.
    pub open spec fn opponent(self, player: i32) -> i32 {
        if player == self.player1 {
            self.player2
        } else {
            self.player1
        }
    }

    pub open spec fn all_ready(self) -> bool {
        self.player1_ready && self.player2_ready
    }

    pub open spec fn expired(self, now: i64) -> bool {
        self.deadline <= now
    }

    pub open spec fn owned(self, player: i32) -> nat {
        self.animals.filter(owned_by(player)).len()
    }

    pub open spec fn waiting(self, player: i32) -> nat {
        self.animals.filter(waiting_of(player)).len()
    }

    /// An animal with the id has been picked.
    pub open spec fn picked(self, id: i32) -> bool {
        exists|i: int| 0 <= i < self.animals.len() && (#[trigger] self.animals[i]).stat.id == id
    }

    /// An obstacle stands on the cell.
    pub open spec fn obstacle_at(self, c: Position) -> bool {
        self.obstacles.contains(c)
    }

    /// An animal stands on the cell.
    pub open spec fn animal_at(self, c: Position) -> bool {
        exists|i: int|
            0 <= i < self.animals.len() && (#[trigger] self.animals[i]).position == Some(c)
    }

    /// Nothing stands on the cell.
    pub open spec fn empty_at(self, c: Position) -> bool {
        !self.obstacle_at(c) && !self.animal_at(c)
    }

    /// The cell is an empty cell of the half of the first (`second ==
    /// false`) or of the second player.
    pub open spec fn free_at(self, second: bool, c: Position) -> bool {
        c.in_half(second) && self.empty_at(c)
    }

    /// Some animal is still to be placed.
    pub open spec fn placing(self) -> bool {
        exists|i: int| 0 <= i < self.animals.len() && (#[trigger] self.animals[i]).position is None
    }

    // ---------------------------------------------------------------
    // Well-formedness

    /// What holds of each animal by itself.
    pub open spec fn animal_ok(self, a: Animal) -> bool {
        &&& self.plays(a.owner)
        &&& a.stat.valid()
        &&& self.catalog.contains(a.stat)
        &&& 0 <= a.hp
        &&& 0 <= a.mobility_remaining <= a.stat.mobility
        &&& (a.hit ==> a.used)
        &&& (a.used ==> a.position is Some && a.owner == self.current_turn && (self.phase
            == Phase::Game || self.phase == Phase::Terminal))
        &&& (!a.used ==> a.mobility_remaining == a.stat.mobility)
        &&& (a.position matches Some(c) ==> c.in_bounds() && !self.obstacle_at(c))
    }

    /// What holds of each two animals.
    pub open spec fn apart(a: Animal, b: Animal) -> bool {
        &&& a.stat.id != b.stat.id
        &&& (a.position is Some && b.position is Some ==> a.position != b.position)
        &&& !(a.used && b.used)
    }

    /// What holds of a match between any two runs of the pipeline.
    pub open spec fn wf(self) -> bool {
        &&& self.player1 != self.player2
        &&& self.plays(self.current_turn)
        &&& stats_valid(self.catalog)
        &&& self.animals.len() <= PICK_COUNT
        &&& forall|i: int| 0 <= i < self.animals.len() ==> self.animal_ok(#[trigger] self.animals[i])
        &&& forall|i: int, j: int|
            0 <= i < j < self.animals.len() ==> Self::apart(
                #[trigger] self.animals[i],
                #[trigger] self.animals[j],
            )
        &&& (self.phase == Phase::Pick ==> {
            &&& self.animals.len() < PICK_COUNT
            &&& self.owned(self.current_turn) == self.animals.len() / 2
            &&& forall|i: int|
                0 <= i < self.animals.len() ==> (#[trigger] self.animals[i]).position is None
        })
        &&& (self.phase == Phase::Placement ==> {
            &&& self.animals.len() == PICK_COUNT
            &&& self.owned(self.player1) == TEAM_SIZE
            &&& self.owned(self.player2) == TEAM_SIZE
        })
        &&& (self.phase == Phase::Game || self.phase == Phase::Terminal ==> forall|i: int|
            0 <= i < self.animals.len() ==> (#[trigger] self.animals[i]).position is Some)
    }

    // ---------------------------------------------------------------
    // Pick phase

    /// A player reports ready. The report that makes both players ready
    /// sets the deadline of the first pick and tells both whose pick it is;
    /// any other report, a repeated one too, tells nobody and leaves the
    /// deadline alone.
    pub open spec fn ready(self, player: i32, now: i64) -> Outcome {
        if self.phase != Phase::Pick {
            self.idle()
        } else {
            let marked = WorldState {
                player1_ready: self.player1_ready || player == self.player1,
                player2_ready: self.player2_ready || player == self.player2,
                ..self
            };
            if marked.all_ready() && !self.all_ready() {
                let deadline = (now + PICK_TIME) as i64;
                Outcome {
                    world: WorldState { deadline, ..marked },
                    responses: seq![
                        self.announce(
                            CommandView::TurnToPick {
                                player_id: Some(self.current_turn),
                                deadline,
                            },
                        ),
                    ],
                }
            } else {
                Outcome { world: marked, responses: seq![] }
            }
        }
    }

    /// The player whose turn it is gets the animal. The turn passes on after
    /// the first pick and then after every second one; the last pick opens
    /// the placement.
    pub open spec fn take(self, stat: AnimalStat, now: i64) -> Outcome {
        let picker = self.current_turn;
        let before = self.animals.len();
        let next = if before % 2 == 0 {
            self.opponent(picker)
        } else {
            picker
        };
        let animals = self.animals.push(fresh(picker, stat));
        let picked = self.announce(CommandView::Picked { animal_id: stat.id, player_id: picker });
        if before + 1 == PICK_COUNT {
            let deadline = (now + PLACE_TIME) as i64;
            Outcome {
                world: WorldState {
                    phase: Phase::Placement,
                    current_turn: next,
                    deadline,
                    animals,
                    ..self
                },
                responses: seq![
                    picked,
                    self.announce(CommandView::SetState { state: Phase::Placement }),
                    self.announce(CommandView::TurnToPick { player_id: None, deadline }),
                ],
            }
        } else {
            let deadline = (now + PICK_TIME) as i64;
            Outcome {
                world: WorldState { current_turn: next, deadline, animals, ..self },
                responses: seq![
                    picked,
                    self.announce(CommandView::TurnToPick { player_id: Some(next), deadline }),
                ],
            }
        }
    }

    /// The stat block that a pick of the id gets: the first of the catalog
    /// with that id.
    pub open spec fn stat_of(self, id: i32) -> AnimalStat {
        self.catalog[choose|i: int| first_with_id(self.catalog, id, i)]
    }

    /// The pick is in order: it is the player's turn, the catalog lists the
    /// animal, nobody has it yet, and picks are left.
    pub open spec fn may_pick(self, player: i32, id: i32) -> bool {
        &&& player == self.current_turn
        &&& lists_animal(self.catalog, id)
        &&& !self.picked(id)
        &&& self.animals.len() < PICK_COUNT
    }

    /// A player picks an animal.
    pub open spec fn pick(self, player: i32, id: i32, now: i64) -> Outcome {
        if self.phase != Phase::Pick {
            self.idle()
        } else if self.may_pick(player, id) {
            self.take(self.stat_of(id), now)
        } else {
            self.refuse(player, BattleError::AnimalUnavailable)
        }
    }

    /// The pick is overdue: both players are ready, the deadline has passed
    /// and picks are left.
    pub open spec fn pick_due(self, now: i64) -> bool {
        &&& self.phase == Phase::Pick
        &&& self.all_ready()
        &&& self.expired(now)
        &&& self.animals.len() < PICK_COUNT
    }

    /// The stat block is one that a pick can still get.
    pub open spec fn on_offer(self, stat: AnimalStat) -> bool {
        self.catalog.contains(stat) && !self.picked(stat.id)
    }

    /// `after` is what an overdue pick can leave behind: the engine picks
    /// for the player, some animal that is still on offer. Where the pick is
    /// not overdue, or nothing is on offer, nothing happens.
    pub open spec fn pick_timeout(self, now: i64, after: Outcome) -> bool {
        if self.pick_due(now) && exists|stat: AnimalStat| self.on_offer(stat) {
            exists|stat: AnimalStat| self.on_offer(stat) && after == #[trigger] self.take(stat, now)
        } else {
            after == self.idle()
        }
    }

    // ---------------------------------------------------------------
    // Placement phase

    /// The cell of the canonical frame that entry `k` of a placement by
    /// `player` means.
    pub open spec fn target_of(self, player: i32, entries: Seq<PlaceAnimal>, k: int) -> Position {
        entries[k].position->0.canonical(self.is_second(player))
    }

    /// The player has a waiting animal with the id.
    pub open spec fn waits(self, player: i32, id: i32) -> bool {
        exists|i: int|
            0 <= i < self.animals.len() && (#[trigger] self.animals[i]).owner == player
                && self.animals[i].position is None && self.animals[i].stat.id == id
    }

    /// The entry of a placement by `player` is in order: it names a waiting
    /// animal of the player, and a cell of the board on which nothing
    /// stands.
    pub open spec fn entry_ok(self, player: i32, e: PlaceAnimal) -> bool {
        &&& self.waits(player, e.animal_id)
        &&& e.position is Some
        &&& e.position->0.in_bounds()
        &&& self.empty_at(e.position->0.canonical(self.is_second(player)))
    }

    /// The placement is in order: the player has a whole team waiting, and
    /// names each animal once, each on a cell of its own.
    pub open spec fn may_place(self, player: i32, entries: Seq<PlaceAnimal>) -> bool {
        &&& self.waiting(player) == TEAM_SIZE
        &&& entries.len() == TEAM_SIZE
        &&& forall|k: int| 0 <= k < entries.len() ==> self.entry_ok(player, #[trigger] entries[k])
        &&& forall|k: int, l: int|
            0 <= k < l < entries.len() ==> (#[trigger] entries[k]).animal_id != (
            #[trigger] entries[l]).animal_id && entries[k].position != entries[l].position
    }

    /// The animal after the placement: on its cell, if it is one of the
    /// player's waiting animals and an entry names it.
    pub open spec fn settled(self, a: Animal, player: i32, entries: Seq<PlaceAnimal>) -> Animal {
        if a.owner == player && a.position is None {
            match entry_for(entries, a.stat.id) {
                Some(k) => Animal { position: Some(self.target_of(player, entries, k)), ..a },
                None => a,
            }
        } else {
            a
        }
    }

    /// The game begins: the phase is announced, and the first turn is due.
    pub open spec fn begin_game(self, now: i64) -> Outcome {
        let deadline = (now + TURN_TIME) as i64;
        Outcome {
            world: WorldState { phase: Phase::Game, deadline, ..self },
            responses: seq![
                self.announce(CommandView::Placed { animals: placed_reports(self.animals) }),
                self.announce(CommandView::SetState { state: Phase::Game }),
                self.announce(
                    CommandView::TurnToPick { player_id: Some(self.current_turn), deadline },
                ),
            ],
        }
    }

    /// A player places its animals. When the last animal of the match is
    /// placed, the game begins.
    pub open spec fn place(self, player: i32, entries: Seq<PlaceAnimal>, now: i64) -> Outcome {
        if self.phase != Phase::Placement {
            self.idle()
        } else if self.may_place(player, entries) {
            let placed = WorldState {
                animals: Seq::new(
                    self.animals.len(),
                    |i: int| self.settled(self.animals[i], player, entries),
                ),
                ..self
            };
            if placed.placing() {
                placed.idle()
            } else {
                placed.begin_game(now)
            }
        } else {
            self.refuse(player, BattleError::BadPlacement)
        }
    }

    /// How many animals of the player wait before place `i`.
    pub open spec fn rank(self, player: i32, i: int) -> nat {
        self.animals.take(i).filter(waiting_of(player)).len()
    }

    /// The cells can be handed to animals of the player: they are distinct,
    /// empty, and lie in the player's half.
    pub open spec fn cells_fit(self, player: i32, cells: Seq<Position>) -> bool {
        &&& cells.no_duplicates()
        &&& forall|k: int|
            0 <= k < cells.len() ==> self.free_at(self.is_second(player), #[trigger] cells[k])
    }

    /// The animal at place `i` after the waiting animals of the player have
    /// taken the cells: on the cell of its rank, if it waited and the cells
    /// go that far.
    pub open spec fn seated(self, player: i32, cells: Seq<Position>, i: int) -> Animal {
        let a = self.animals[i];
        if a.owner == player && a.position is None && self.rank(player, i) < cells.len() {
            Animal { position: Some(cells[self.rank(player, i) as int]), ..a }
        } else {
            a
        }
    }

    /// The waiting animals of the player take the cells, one each, in their
    /// order, as far as the cells go.
    pub open spec fn seat(self, player: i32, cells: Seq<Position>) -> WorldState {
        WorldState {
            animals: Seq::new(self.animals.len(), |i: int| self.seated(player, cells, i)),
            ..self
        }
    }

    /// `free` lists the empty cells of the player's half, each once.
    pub open spec fn lists_free(self, player: i32, free: Seq<Position>) -> bool {
        &&& free.no_duplicates()
        &&& forall|c: Position|
            #![trigger free.contains(c)]
            #![trigger self.free_at(self.is_second(player), c)]
            free.contains(c) <==> self.free_at(self.is_second(player), c)
    }

    /// The cells are a draw for the player: empty cells of its half, no
    /// cell twice, as many as a team has animals, or all the empty cells
    /// where they are fewer. A player with no waiting animal draws nothing.
    pub open spec fn drawn(self, player: i32, cells: Seq<Position>) -> bool {
        if self.waiting(player) == 0 {
            cells.len() == 0
        } else {
            exists|free: Seq<Position>|
                {
                    &&& #[trigger] self.lists_free(player, free)
                    &&& drawn_from(free, cells)
                    &&& cells.len() == if free.len() < TEAM_SIZE {
                        free.len()
                    } else {
                        TEAM_SIZE as nat
                    }
                }
        }
    }

    /// The placement is overdue.
    pub open spec fn place_due(self, now: i64) -> bool {
        self.phase == Phase::Placement && self.expired(now)
    }

    /// What the overdue placement leaves behind when the first player draws
    /// `first` and the second player then draws `second`: the game begins
    /// only when every animal stands on the board.
    pub open spec fn place_with(self, first: Seq<Position>, second: Seq<Position>, now: i64)
        -> Outcome {
        let seated = self.seat(self.player1, first).seat(self.player2, second);
        if seated.placing() {
            seated.idle()
        } else {
            seated.begin_game(now)
        }
    }

    /// `after` is what an overdue placement can leave behind: the engine
    /// seats the waiting animals of each player on cells drawn from the
    /// empty cells of the player's half, and the game begins if no animal
    /// waits any more. Where a half has no room for all, the animals that
    /// found none go on waiting, and the match stays in the placement.
    pub open spec fn place_timeout(self, now: i64, after: Outcome) -> bool {
        if self.place_due(now) {
            exists|first: Seq<Position>, second: Seq<Position>|
                {
                    &&& self.drawn(self.player1, first)
                    &&& self.seat(self.player1, first).drawn(self.player2, second)
                    &&& after == #[trigger] self.place_with(first, second, now)
                }
        } else {
            after == self.idle()
        }
    }

    // ---------------------------------------------------------------
    // Game phase

    /// The place of the animal that the player acts with this turn.
    pub open spec fn active(self, player: i32) -> Option<int> {
        first_where(self.animals, acting_of(player))
    }

    /// The place of the animal that the player can take into use under the
    /// id.
    pub open spec fn usable(self, player: i32, id: i32) -> Option<int> {
        first_where(self.animals, usable_as(player, id))
    }

    /// A player takes an animal into use. Nobody is told.
    pub open spec fn use_animal(self, player: i32, id: i32) -> Outcome {
        if self.phase != Phase::Game {
            self.idle()
        } else if player != self.current_turn {
            self.refuse(player, BattleError::NotYourTurn)
        } else if self.active(player) is Some {
            self.refuse(player, BattleError::AnimalInUse)
        } else {
            match self.usable(player, id) {
                Some(i) => Outcome {
                    world: WorldState {
                        animals: self.animals.update(i, Animal { used: true, ..self.animals[i] }),
                        ..self
                    },
                    responses: seq![],
                },
                None => self.refuse(player, BattleError::AnimalNotFound),
            }
        }
    }

    /// Every cell on the straight way from `from` to `to` is empty, the
    /// first cell left aside and the last one counted in.
    pub open spec fn way_clear(self, from: Position, to: Position) -> bool {
        forall|c: Position| on_way(from, to, c) ==> #[trigger] self.empty_at(c)
    }

    /// The cells that a straight move from `from` to `to` crosses.
    pub open spec fn squares(from: Position, to: Position) -> int {
        gap(from.x as int, to.x as int) + gap(from.y as int, to.y as int)
    }

    /// What each player is told of a move: the mover also learns its cost.
    pub open spec fn moved(self, player: i32, id: i32, to: Position, squares: i32) -> Seq<Reply> {
        seq![
            to_one(
                self.player1,
                CommandView::Moved {
                    player_id: player,
                    animal_id: id,
                    position: to,
                    squares: if self.player1 == player {
                        Some(squares)
                    } else {
                        None
                    },
                },
            ),
            to_one(
                self.player2,
                CommandView::Moved {
                    player_id: player,
                    animal_id: id,
                    position: to,
                    squares: if self.player2 == player {
                        Some(squares)
                    } else {
                        None
                    },
                },
            ),
        ]
    }

    /// A player moves the animal it acts with, along a row or a column, to a
    /// cell given in its own frame.
    pub open spec fn move_animal(self, player: i32, target: Option<Position>) -> Outcome {
        if self.phase != Phase::Game || target is None {
            self.idle()
        } else if player != self.current_turn {
            self.refuse(player, BattleError::NotYourTurn)
        } else if self.active(player) is None {
            self.refuse(player, BattleError::NoActiveAnimal)
        } else if !target->0.in_bounds() {
            self.refuse(player, BattleError::CannotMoveHere)
        } else {
            let i = self.active(player)->0;
            let a = self.animals[i];
            let from = a.position->0;
            let to = target->0.canonical(self.is_second(player));
            if from.x != to.x && from.y != to.y {
                self.refuse(player, BattleError::NotEnoughSquares)
            } else if !self.way_clear(from, to) {
                self.refuse(player, BattleError::CannotMoveHere)
            } else if a.mobility_remaining < Self::squares(from, to) {
                self.refuse(player, BattleError::NotEnoughSquares)
            } else {
                let cost = Self::squares(from, to) as i32;
                Outcome {
                    world: WorldState {
                        animals: self.animals.update(
                            i,
                            Animal {
                                position: Some(to),
                                mobility_remaining: (a.mobility_remaining - cost) as i32,
                                ..a
                            },
                        ),
                        ..self
                    },
                    responses: self.moved(player, a.stat.id, to, cost),
                }
            }
        }
    }

    /// The place of the animal that the player can strike with: the one it
    /// acts with, unless that one has struck already.
    pub open spec fn striker(self, player: i32) -> Option<int> {
        match self.active(player) {
            Some(i) => if self.animals[i].hit {
                None
            } else {
                Some(i)
            },
            None => None,
        }
    }

    /// The place of the enemy animal on the cell `(x, y)`.
    pub open spec fn victim(self, player: i32, x: int, y: int) -> Option<int> {
        first_where(self.animals, foe_on(player, x, y))
    }

    /// A player strikes a cell, given in its own frame, with the animal it
    /// acts with.
    pub open spec fn damage(self, player: i32, target: Option<Position>) -> Outcome {
        if self.phase != Phase::Game || target is None {
            self.idle()
        } else if player != self.current_turn {
            self.refuse(player, BattleError::NotYourTurn)
        } else if self.striker(player) is None {
            self.refuse(player, BattleError::NoActiveAnimal)
        } else {
            let i = self.striker(player)->0;
            let a = self.animals[i];
            let from = a.position->0;
            let x = target->0.x as int;
            let y = canonical_row(target->0.y as int, self.is_second(player));
            if !adjacent(from.x as int, from.y as int, x, y) {
                self.refuse(player, BattleError::CannotHitThere)
            } else if self.victim(player, x, y) is None {
                self.refuse(player, BattleError::NobodyToHit)
            } else {
                let j = self.victim(player, x, y)->0;
                let v = self.animals[j];
                let dealt = damage_dealt(a.stat.damage as int, v.stat.resistance_pct as int);
                let taken = if v.hp < dealt {
                    v.hp
                } else {
                    dealt as i32
                };
                Outcome {
                    world: WorldState {
                        animals: self.animals.update(i, Animal { hit: true, ..a }).update(
                            j,
                            Animal { hp: (v.hp - taken) as i32, ..v },
                        ),
                        ..self
                    },
                    responses: seq![
                        self.announce(
                            CommandView::Damaged {
                                player_id: player,
                                damager_animal_id: a.stat.id,
                                damaged_animal_id: v.stat.id,
                                damage: taken,
                            },
                        ),
                    ],
                }
            }
        }
    }

    /// The turn passes on: the animals that acted are at rest again, and the
    /// other player's turn is due.
    pub open spec fn pass_turn(self, now: i64) -> Outcome {
        let next = self.opponent(self.current_turn);
        let deadline = (now + TURN_TIME) as i64;
        Outcome {
            world: WorldState {
                current_turn: next,
                deadline,
                animals: Seq::new(self.animals.len(), |i: int| rested(self.animals[i])),
                ..self
            },
            responses: seq![
                self.announce(CommandView::TurnToPick { player_id: Some(next), deadline }),
            ],
        }
    }

    /// A player ends its turn.
    pub open spec fn end_turn(self, player: i32, now: i64) -> Outcome {
        if self.phase != Phase::Game {
            self.idle()
        } else if player != self.current_turn {
            self.refuse(player, BattleError::NotYourTurn)
        } else {
            self.pass_turn(now)
        }
    }

    /// The turn ends by itself once its deadline has passed.
    pub open spec fn turn_timeout(self, now: i64) -> Outcome {
        if self.phase == Phase::Game && self.expired(now) {
            self.pass_turn(now)
        } else {
            self.idle()
        }
    }

    /// The player that is left with animals when the other has none.
    pub open spec fn winner(self) -> Option<i32> {
        if self.owned(self.player1) > 0 {
            Some(self.player1)
        } else if self.owned(self.player2) > 0 {
            Some(self.player2)
        } else {
            None
        }
    }

    /// The match is decided: a player has no animal left.
    pub open spec fn decided(self) -> bool {
        self.owned(self.player1) == 0 || self.owned(self.player2) == 0
    }

    /// What both players are told of the animals without health, in the
    /// order of the animals.
    pub open spec fn obituaries(self, animals: Seq<Animal>) -> Seq<Reply> {
        let dead = animals.filter(fallen());
        Seq::new(
            dead.len(),
            |k: int| self.announce(CommandView::Dead { animal_id: dead[k].stat.id }),
        )
    }

    /// The sweep at the end of a run: the animals without health leave the
    /// match, each with a `Dead` response. A match in which a player has no
    /// animal left is over: it becomes terminal and the winner is announced.
    pub open spec fn death(self) -> Outcome {
        if self.phase != Phase::Game {
            self.idle()
        } else {
            let swept = WorldState { animals: self.animals.filter(alive()), ..self };
            let dead = self.obituaries(self.animals);
            if swept.decided() {
                Outcome {
                    world: WorldState { phase: Phase::Terminal, ..swept },
                    responses: dead.push(
                        self.announce(CommandView::GameOver { winner: swept.winner() }),
                    ),
                }
            } else {
                Outcome { world: swept, responses: dead }
            }
        }
    }

    // ---------------------------------------------------------------
    // The pipeline

    /// The match as it is created at `now`: in the pick phase, nobody
    /// ready, nothing picked, the cells of the map's objects as obstacles,
    /// and `first` to pick first.
    pub open spec fn start(m: MatchView, catalog: Seq<AnimalStat>, first: i32, now: i64)
        -> WorldState {
        WorldState {
            phase: Phase::Pick,
            current_turn: first,
            deadline: now,
            player1: m.player1,
            player2: m.player2,
            player1_ready: m.player1_ready,
            player2_ready: m.player2_ready,
            obstacles: cells_of(m.map.objects),
            animals: Seq::empty(),
            catalog,
        }
    }

    /// What the handlers of the preparations that wait for a command do
    /// with the command of a run: `ready`, `pick` or `place`.
    pub open spec fn prepare(self, event: Option<Event>, now: i64) -> Outcome {
        match event {
            Some(Event { player_id, action: Action::Ready }) => self.ready(player_id, now),
            Some(Event { player_id, action: Action::Pick(cmd) }) => self.pick(
                player_id,
                cmd.animal_id,
                now,
            ),
            Some(Event { player_id, action: Action::Place(cmd) }) => self.place(
                player_id,
                cmd.animals@,
                now,
            ),
            _ => self.idle(),
        }
    }

    /// What the handlers of the gameplay that wait for a command do with
    /// the command of a run: `use_animal`, `move_animal`, `damage` or
    /// `end_turn`.
    pub open spec fn play(self, event: Option<Event>, now: i64) -> Outcome {
        match event {
            Some(Event { player_id, action: Action::Use(cmd) }) => self.use_animal(
                player_id,
                cmd.animal_id,
            ),
            Some(Event { player_id, action: Action::Move(cmd) }) => self.move_animal(
                player_id,
                cmd.position,
            ),
            Some(Event { player_id, action: Action::Damage(cmd) }) => self.damage(
                player_id,
                cmd.position,
            ),
            Some(Event { player_id, action: Action::EndTurn }) => self.end_turn(player_id, now),
            _ => self.idle(),
        }
    }

    /// `after` is what the preparations can leave behind: the overdue pick,
    /// then the command, then the overdue placement.
    pub open spec fn preparations(self, event: Option<Event>, now: i64, after: Outcome) -> bool {
        exists|a: Outcome, c: Outcome|
            {
                &&& #[trigger] self.pick_timeout(now, a)
                &&& #[trigger] a.world.prepare(event, now).world.place_timeout(now, c)
                &&& after == a.followed_by(a.world.prepare(event, now)).followed_by(c)
            }
    }

    /// What the gameplay leaves behind: the command, then the overdue turn.
    pub open spec fn gameplay(self, event: Option<Event>, now: i64) -> Outcome {
        let a = self.play(event, now);
        a.followed_by(a.world.turn_timeout(now))
    }

    /// What a stage of the pipeline can leave behind.
    pub open spec fn stage(self, stage: Stage, event: Option<Event>, now: i64, after: Outcome)
        -> bool {
        match stage {
            Stage::FlushEvents => after == self.idle(),
            Stage::Preparations => self.preparations(event, now, after),
            Stage::Gameplay => after == self.gameplay(event, now),
            Stage::EndTurn => after == self.death(),
        }
    }

    /// `after` is what one run of the pipeline at `now` can leave behind,
    /// with the command `event` if there is one: the preparations, then the
    /// gameplay, then the sweep.
    pub open spec fn runs(self, event: Option<Event>, now: i64, after: Outcome) -> bool {
        exists|p: Outcome|
            {
                &&& #[trigger] self.preparations(event, now, p)
                &&& after == p.followed_by(p.world.gameplay(event, now)).followed_by(
                    p.world.gameplay(event, now).world.death(),
                )
            }
    }

    /// The two states belong to one match: they have the players, the
    /// obstacles and the catalog in common.
    pub open spec fn same_match(self, other: WorldState) -> bool {
        &&& self.player1 == other.player1
        &&& self.player2 == other.player2
        &&& self.obstacles == other.obstacles
        &&& self.catalog == other.catalog
    }
}

impl Outcome {
    /// The outcome of this handler and of the handler `next` that ran after
    /// it.
    pub open spec fn followed_by(self, next: Outcome) -> Outcome {
        Outcome { world: next.world, responses: self.responses + next.responses }
    }
}

/// The stages of the pipeline, in the order in which a run takes them.
#[derive(Clone, Copy, Debug, PartialEq, Eq, Hash, Structural)]
pub enum Stage {
    /// The command of the run is handed to the handlers.
    FlushEvents,
    /// The handlers of the pick and placement phases.
    Preparations,
    /// The handlers of the game phase.
    Gameplay,
    /// The sweep of the animals without health.
    EndTurn,
}

} // verus!
