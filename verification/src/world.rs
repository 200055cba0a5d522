//! One match as the engine holds it, and the handlers of its phase pipeline.

use crate::catalog::{AnimalCatalog, AnimalStat};
use crate::chance::{pick_one, pick_several, random_below};
use crate::grid::{Position, GRID_HEIGHT, GRID_WIDTH, HALF_HEIGHT};
use crate::invariants::{
    lemma_begin_wf, lemma_damage_bounds, lemma_damage_wf, lemma_death_wf, lemma_drawn_fits,
    lemma_move_wf, lemma_pass_wf, lemma_place_wf, lemma_ready_wf, lemma_runs_wf, lemma_seat_wf,
    lemma_start_wf, lemma_stat_of, lemma_take_wf, lemma_use_wf,
};
use crate::matchmaking::Match;
use crate::protocol::{
    replies, Action, AnimalPlaced, BattleError, Command, Event, Phase, PlaceAnimal, Response,
};
use crate::seqs::lemma_filter_next;
use crate::state::{
    acting_of, alive, entry_for, fallen, first_entry, foe_on, is_first, on_board, on_way, owned_by,
    placed_reports, rested, scanned, timely, usable_as, waiting_of, Animal, Outcome, Stage,
    WorldState, PICK_COUNT, PICK_TIME, PLACE_TIME, TEAM_SIZE, TURN_TIME,
};
use vstd::prelude::*;

verus! {

/// One match: its phase, whose turn it is and until when, the obstacles of
/// its map and the animals picked so far.
#[derive(Debug)]
pub struct World {
    phase: Phase,
    current_turn: i32,
    deadline: i64,
    player1: i32,
    player2: i32,
    player1_ready: bool,
    player2_ready: bool,
    obstacles: Vec<Position>,
    animals: Vec<Animal>,
    catalog: AnimalCatalog,
}

impl View for World {
    type V = WorldState;

    closed spec fn view(&self) -> WorldState {
        WorldState {
            phase: self.phase,
            current_turn: self.current_turn,
            deadline: self.deadline,
            player1: self.player1,
            player2: self.player2,
            player1_ready: self.player1_ready,
            player2_ready: self.player2_ready,
            obstacles: self.obstacles@,
            animals: self.animals@,
            catalog: self.catalog@,
        }
    }
}

/// The place of the first entry that names the animal.
pub fn find_entry(entries: &Vec<PlaceAnimal>, id: i32) -> (r: Option<usize>)
    ensures
        match r {
            Some(k) => entry_for(entries@, id) == Some(k as int) && first_entry(
                entries@,
                id,
                k as int,
            ),
            None => entry_for(entries@, id) is None,
        },
{
    let n = entries.len();
    let mut k: usize = 0;
    while k < n
        invariant
            n == entries.len(),
            k <= n,
            forall|l: int| 0 <= l < k ==> (#[trigger] entries[l]).animal_id != id,
        decreases n - k,
    {
        if entries[k].animal_id == id {
            assert(first_entry(entries@, id, k as int));
            return Some(k);
        }
        k += 1;
    }
    None
}

impl World {
    /// The match is in a state that the pipeline can leave it in.
    pub open spec fn wf(&self) -> bool {
        self@.wf()
    }

    pub fn phase(&self) -> (r: Phase)
        ensures
            r == self@.phase,
    {
        self.phase
    }

    pub fn current_turn(&self) -> (r: i32)
        ensures
            r == self@.current_turn,
    {
        self.current_turn
    }

    pub fn deadline(&self) -> (r: i64)
        ensures
            r == self@.deadline,
    {
        self.deadline
    }

    pub fn player1(&self) -> (r: i32)
        ensures
            r == self@.player1,
    {
        self.player1
    }

    pub fn player2(&self) -> (r: i32)
        ensures
            r == self@.player2,
    {
        self.player2
    }

    pub fn animals(&self) -> (r: &Vec<Animal>)
        ensures
            r@ == self@.animals,
    {
        &self.animals
    }

    pub fn obstacles(&self) -> (r: &Vec<Position>)
        ensures
            r@ == self@.obstacles,
    {
        &self.obstacles
    }

    pub fn has_player(&self, player: i32) -> (r: bool)
        ensures
            r == self@.plays(player),
    {
        player == self.player1 || player == self.player2
    }

    pub fn all_ready(&self) -> (r: bool)
        ensures
            r == self@.all_ready(),
    {
        self.player1_ready && self.player2_ready
    }

    /// A response for both players.
    fn announce(&self, command: Command) -> (r: Response)
        ensures
            r@ == self@.announce(command@),
    {
        Response::both(self.player1, self.player2, command)
    }

    /// Whether an obstacle stands on the cell.
    pub fn is_obstacle(&self, c: Position) -> (r: bool)
        ensures
            r == self@.obstacle_at(c),
    {
        let n = self.obstacles.len();
        let mut i: usize = 0;
        while i < n
            invariant
                n == self.obstacles.len(),
                i <= n,
                forall|k: int| 0 <= k < i ==> self.obstacles[k] != c,
            decreases n - i,
        {
            if self.obstacles[i] == c {
                return true;
            }
            i += 1;
        }
        false
    }

    /// Whether an animal stands on the cell.
    pub fn is_occupied(&self, c: Position) -> (r: bool)
        ensures
            r == self@.animal_at(c),
    {
        let n = self.animals.len();
        let mut i: usize = 0;
        while i < n
            invariant
                n == self.animals.len(),
                i <= n,
                forall|k: int| 0 <= k < i ==> (#[trigger] self.animals[k]).position != Some(c),
            decreases n - i,
        {
            match self.animals[i].position {
                Some(p) => {
                    if p == c {
                        return true;
                    }
                },
                None => {},
            }
            i += 1;
        }
        false
    }

    /// Whether nothing stands on the cell.
    pub fn is_empty(&self, c: Position) -> (r: bool)
        ensures
            r == self@.empty_at(c),
    {
        !self.is_obstacle(c) && !self.is_occupied(c)
    }

    /// How many animals the player owns.
    pub fn count_owned(&self, player: i32) -> (r: usize)
        ensures
            r == self@.owned(player),
    {
        let n = self.animals.len();
        let mut count: usize = 0;
        let mut i: usize = 0;
        while i < n
            invariant
                n == self.animals.len(),
                i <= n,
                count <= i,
                count == self.animals@.take(i as int).filter(owned_by(player)).len(),
            decreases n - i,
        {
            proof {
                lemma_filter_next(self.animals@, owned_by(player), i as int);
            }
            if self.animals[i].owner == player {
                count += 1;
            }
            i += 1;
        }
        assert(self.animals@.take(n as int) =~= self.animals@);
        count
    }

    /// How many animals of the player are not on the board yet.
    pub fn count_waiting(&self, player: i32) -> (r: usize)
        ensures
            r == self@.waiting(player),
    {
        let n = self.animals.len();
        let mut count: usize = 0;
        let mut i: usize = 0;
        while i < n
            invariant
                n == self.animals.len(),
                i <= n,
                count <= i,
                count == self.animals@.take(i as int).filter(waiting_of(player)).len(),
            decreases n - i,
        {
            proof {
                lemma_filter_next(self.animals@, waiting_of(player), i as int);
            }
            if self.animals[i].owner == player && self.animals[i].position.is_none() {
                count += 1;
            }
            i += 1;
        }
        assert(self.animals@.take(n as int) =~= self.animals@);
        count
    }

    /// Whether some animal is still to be placed.
    pub fn is_placing(&self) -> (r: bool)
        ensures
            r == self@.placing(),
    {
        let n = self.animals.len();
        let mut i: usize = 0;
        while i < n
            invariant
                n == self.animals.len(),
                i <= n,
                forall|k: int| 0 <= k < i ==> (#[trigger] self.animals[k]).position is Some,
            decreases n - i,
        {
            if self.animals[i].position.is_none() {
                return true;
            }
            i += 1;
        }
        false
    }

    /// The reports of the animals on the board, in their order.
    pub fn placed(&self) -> (r: Vec<AnimalPlaced>)
        ensures
            r@ == placed_reports(self@.animals),
    {
        let n = self.animals.len();
        let mut reports: Vec<AnimalPlaced> = Vec::new();
        let mut i: usize = 0;
        while i < n
            invariant
                n == self.animals.len(),
                i <= n,
                reports@ == placed_reports(self.animals@.take(i as int)),
            decreases n - i,
        {
            let a = self.animals[i];
            proof {
                lemma_filter_next(self.animals@, on_board(), i as int);
            }
            match a.position {
                Some(position) => {
                    reports.push(
                        AnimalPlaced { player_id: a.owner, animal_id: a.stat.id, position },
                    );
                },
                None => {},
            }
            i += 1;
        }
        assert(self.animals@.take(n as int) =~= self.animals@);
        reports
    }

    /// Whether the player has a waiting animal with the id.
    pub fn has_waiting(&self, player: i32, id: i32) -> (r: bool)
        ensures
            r == self@.waits(player, id),
    {
        let n = self.animals.len();
        let mut i: usize = 0;
        while i < n
            invariant
                n == self.animals.len(),
                i <= n,
                forall|k: int|
                    0 <= k < i ==> !((#[trigger] self.animals[k]).owner == player
                        && self.animals[k].position is None && self.animals[k].stat.id == id),
            decreases n - i,
        {
            let a = self.animals[i];
            if a.owner == player && a.position.is_none() && a.stat.id == id {
                return true;
            }
            i += 1;
        }
        false
    }

    /// Whether one entry of a placement by the player is in order.
    pub fn entry_in_order(&self, player: i32, e: &PlaceAnimal) -> (r: bool)
        ensures
            r == self@.entry_ok(player, *e),
    {
        match e.position {
            Some(p) => {
                self.has_waiting(player, e.animal_id) && p.is_in_bounds() && self.is_empty(
                    p.to_canonical(player == self.player2),
                )
            },
            None => false,
        }
    }

    /// Whether a placement by the player is in order.
    pub fn can_place(&self, player: i32, entries: &Vec<PlaceAnimal>) -> (r: bool)
        ensures
            r == self@.may_place(player, entries@),
    {
        if self.count_waiting(player) != TEAM_SIZE || entries.len() != TEAM_SIZE {
            return false;
        }
        let n = entries.len();
        let mut k: usize = 0;
        while k < n
            invariant
                n == entries.len(),
                k <= n,
                forall|a: int| 0 <= a < k ==> self@.entry_ok(player, #[trigger] entries[a]),
                forall|a: int, b: int|
                    0 <= a < b < k ==> (#[trigger] entries[a]).animal_id != (
                    #[trigger] entries[b]).animal_id && entries[a].position
                        != entries[b].position,
            decreases n - k,
        {
            if !self.entry_in_order(player, &entries[k]) {
                return false;
            }
            let mut l: usize = 0;
            while l < k
                invariant
                    n == entries.len(),
                    k < n,
                    l <= k,
                    forall|a: int|
                        0 <= a < l ==> (#[trigger] entries[a]).animal_id != entries[k as int].animal_id
                            && entries[a].position != entries[k as int].position,
                decreases k - l,
            {
                if entries[l].animal_id == entries[k].animal_id || entries[l].position
                    == entries[k].position {
                    return false;
                }
                l += 1;
            }
            k += 1;
        }
        true
    }

    /// The game begins.
    fn begin_game(&mut self, now: i64) -> (out: Vec<Response>)
        requires
            timely(now),
        ensures
            final(self)@ == old(self)@.begin_game(now).world,
            replies(out@) == old(self)@.begin_game(now).responses,
    {
        let deadline = now + TURN_TIME;
        let mut out: Vec<Response> = Vec::new();
        out.push(self.announce(Command::Placed { animals: self.placed() }));
        out.push(self.announce(Command::SetState { state: Phase::Game }));
        out.push(
            self.announce(
                Command::TurnToPick { player_id: Some(self.current_turn), deadline },
            ),
        );
        self.phase = Phase::Game;
        self.deadline = deadline;
        out
    }

    /// A player places its animals, each on a cell given in the player's
    /// own frame. A placement that is not in order is refused and changes
    /// nothing. When the last animal of the match is placed, the game
    /// begins.
    pub fn place(&mut self, player: i32, entries: &Vec<PlaceAnimal>, now: i64) -> (out: Vec<
        Response,
    >)
        requires
            old(self).wf(),
            timely(now),
        ensures
            final(self).wf(),
            final(self)@ == old(self)@.place(player, entries@, now).world,
            replies(out@) == old(self)@.place(player, entries@, now).responses,
    {
        proof {
            lemma_place_wf(self@, player, entries@, now);
        }
        let mut out: Vec<Response> = Vec::new();
        if self.phase != Phase::Placement {
            return out;
        }
        if !self.can_place(player, entries) {
            out.push(Response::refuse(player, BattleError::BadPlacement));
            return out;
        }
        let second = player == self.player2;
        let n = self.animals.len();
        let mut i: usize = 0;
        while i < n
            invariant
                n == self.animals.len(),
                n == old(self).animals.len(),
                i <= n,
                second == old(self)@.is_second(player),
                old(self)@.may_place(player, entries@),
                self@ == (WorldState { animals: self@.animals, ..old(self)@ }),
                forall|j: int|
                    0 <= j < i ==> self.animals[j] == old(self)@.settled(
                        #[trigger] old(self).animals[j],
                        player,
                        entries@,
                    ),
                forall|j: int| i <= j < n ==> self.animals[j] == old(self).animals[j],
            decreases n - i,
        {
            let a = self.animals[i];
            if a.owner == player && a.position.is_none() {
                match find_entry(entries, a.stat.id) {
                    Some(k) => {
                        match entries[k].position {
                            Some(p) => {
                                let mut b = a;
                                b.position = Some(p.to_canonical(second));
                                self.animals.set(i, b);
                            },
                            None => {},
                        }
                    },
                    None => {},
                }
            }
            i += 1;
        }
        proof {
            let placed = WorldState {
                animals: Seq::new(
                    old(self).animals.len() as nat,
                    |i: int| old(self)@.settled(old(self).animals[i], player, entries@),
                ),
                ..old(self)@
            };
            assert(self@ =~~= placed);
        }
        if self.is_placing() {
            out
        } else {
            self.begin_game(now)
        }
    }

    /// Whether an animal with the id has been picked.
    pub fn is_picked(&self, id: i32) -> (r: bool)
        ensures
            r == self@.picked(id),
    {
        let n = self.animals.len();
        let mut i: usize = 0;
        while i < n
            invariant
                n == self.animals.len(),
                i <= n,
                forall|k: int| 0 <= k < i ==> (#[trigger] self.animals[k]).stat.id != id,
            decreases n - i,
        {
            if self.animals[i].stat.id == id {
                return true;
            }
            i += 1;
        }
        false
    }

    /// The stat blocks that a pick can still get, in the order of the
    /// catalog.
    pub fn offer(&self) -> (r: Vec<AnimalStat>)
        ensures
            forall|stat: AnimalStat| r@.contains(stat) <==> self@.on_offer(stat),
    {
        let stats = self.catalog.stats();
        let n = stats.len();
        let mut offer: Vec<AnimalStat> = Vec::new();
        let mut i: usize = 0;
        while i < n
            invariant
                n == stats.len(),
                stats@ == self@.catalog,
                i <= n,
                forall|stat: AnimalStat|
                    offer@.contains(stat) <==> stats@.take(i as int).contains(stat)
                        && !self@.picked(stat.id),
            decreases n - i,
        {
            let stat = stats[i];
            let ghost before = offer@;
            let ghost prev = stats@.take(i as int);
            let ghost next = stats@.take(i + 1);
            let fits = !self.is_picked(stat.id);
            if fits {
                offer.push(stat);
            }
            proof {
                assert forall|other: AnimalStat|
                    offer@.contains(other) <==> next.contains(other) && !self@.picked(
                        other.id,
                    ) by {
                    assert(next.contains(other) <==> prev.contains(other) || other == stat) by {
                        if prev.contains(other) {
                            let w = choose|k: int| 0 <= k < prev.len() && prev[k] == other;
                        }
                        if other == stat {
                            assert(next[i as int] == other);
                        }
                        if next.contains(other) {
                            let w = choose|k: int| 0 <= k < next.len() && next[k] == other;
                        }
                    }
                    if offer@.contains(other) {
                        let w = choose|k: int| 0 <= k < offer@.len() && offer@[k] == other;
                    }
                    if before.contains(other) {
                        let w = choose|k: int| 0 <= k < before.len() && before[k] == other;
                        assert(offer@[w] == other);
                    }
                    if fits && other == stat {
                        assert(offer@[offer@.len() - 1] == other);
                    }
                }
            }
            i += 1;
        }
        assert(stats@.take(n as int) =~= stats@);
        offer
    }

    /// A player reports ready. With the report that makes both players
    /// ready, the first pick is due within `PICK_TIME`, and both are told
    /// whose it is. Any other report, a repeated one too, tells nobody and
    /// leaves the deadline alone.
    pub fn ready(&mut self, player: i32, now: i64) -> (out: Vec<Response>)
        requires
            old(self).wf(),
            timely(now),
        ensures
            final(self).wf(),
            final(self)@ == old(self)@.ready(player, now).world,
            replies(out@) == old(self)@.ready(player, now).responses,
    {
        proof {
            lemma_ready_wf(self@, player, now);
        }
        let mut out: Vec<Response> = Vec::new();
        if self.phase != Phase::Pick {
            return out;
        }
        let were_ready = self.all_ready();
        if player == self.player1 {
            self.player1_ready = true;
        }
        if player == self.player2 {
            self.player2_ready = true;
        }
        if self.all_ready() && !were_ready {
            let deadline = now + PICK_TIME;
            out.push(
                self.announce(
                    Command::TurnToPick { player_id: Some(self.current_turn), deadline },
                ),
            );
            self.deadline = deadline;
        }
        out
    }

    /// The player whose turn it is gets the animal.
    pub fn take(&mut self, stat: AnimalStat, now: i64) -> (out: Vec<Response>)
        requires
            old(self).wf(),
            old(self)@.phase == Phase::Pick,
            old(self)@.on_offer(stat),
            timely(now),
        ensures
            final(self).wf(),
            final(self)@ == old(self)@.take(stat, now).world,
            replies(out@) == old(self)@.take(stat, now).responses,
    {
        proof {
            lemma_take_wf(self@, stat, now);
        }
        let picker = self.current_turn;
        let before = self.animals.len();
        let next = if before % 2 == 0 {
            self.next_turn(picker)
        } else {
            picker
        };
        let mut out: Vec<Response> = Vec::new();
        out.push(self.announce(Command::Picked { animal_id: stat.id, player_id: picker }));
        self.animals.push(
            Animal {
                owner: picker,
                stat,
                hp: stat.hp,
                mobility_remaining: stat.mobility,
                position: None,
                used: false,
                hit: false,
            },
        );
        self.current_turn = next;
        if before + 1 == PICK_COUNT {
            let deadline = now + PLACE_TIME;
            out.push(self.announce(Command::SetState { state: Phase::Placement }));
            out.push(self.announce(Command::TurnToPick { player_id: None, deadline }));
            self.phase = Phase::Placement;
            self.deadline = deadline;
        } else {
            let deadline = now + PICK_TIME;
            out.push(self.announce(Command::TurnToPick { player_id: Some(next), deadline }));
            self.deadline = deadline;
        }
        out
    }

    /// A player picks an animal of the catalog. The pick is refused, and
    /// changes nothing, unless it is the player's turn, the catalog lists
    /// the animal and nobody has picked it yet.
    pub fn pick(&mut self, player: i32, id: i32, now: i64) -> (out: Vec<Response>)
        requires
            old(self).wf(),
            timely(now),
        ensures
            final(self).wf(),
            final(self)@ == old(self)@.pick(player, id, now).world,
            replies(out@) == old(self)@.pick(player, id, now).responses,
    {
        let mut out: Vec<Response> = Vec::new();
        if self.phase != Phase::Pick {
            return out;
        }
        if player == self.current_turn && !self.is_picked(id) && self.animals.len() < PICK_COUNT {
            match self.catalog.find(id) {
                Some(stat) => {
                    proof {
                        lemma_stat_of(self@, id);
                    }
                    return self.take(stat, now);
                },
                None => {},
            }
        }
        out.push(Response::refuse(player, BattleError::AnimalUnavailable));
        out
    }

    /// The engine picks for the player whose pick is overdue: an animal
    /// drawn from those still on offer.
    pub fn pick_timeout(&mut self, now: i64) -> (out: Vec<Response>)
        requires
            old(self).wf(),
            timely(now),
        ensures
            final(self).wf(),
            old(self)@.pick_timeout(now, Outcome { world: final(self)@, responses: replies(out@) }),
    {
        let mut out: Vec<Response> = Vec::new();
        if self.phase == Phase::Pick && self.all_ready() && self.deadline <= now
            && self.animals.len() < PICK_COUNT {
            let offer = self.offer();
            match pick_one(&offer) {
                Some(stat) => {
                    out = self.take(*stat, now);
                    return out;
                },
                None => {
                },
            }
        }
        assert(Outcome { world: self@, responses: replies(out@) } =~~= old(self)@.idle());
        out
    }

    /// The empty cells of the half of the first (`second == false`) or of
    /// the second player, each once.
    pub fn free_cells(&self, second: bool) -> (free: Vec<Position>)
        ensures
            free@.no_duplicates(),
            forall|c: Position|
                #![trigger free@.contains(c)]
                #![trigger self@.free_at(second, c)]
                free@.contains(c) <==> self@.free_at(second, c),
    {
        let low: i32 = if second {
            HALF_HEIGHT
        } else {
            0
        };
        let high: i32 = low + HALF_HEIGHT;
        let mut free: Vec<Position> = Vec::new();
        let mut x: i32 = 0;
        while x < GRID_WIDTH
            invariant
                0 <= x <= GRID_WIDTH,
                low == (if second {
                    HALF_HEIGHT
                } else {
                    0i32
                }),
                high == low + HALF_HEIGHT,
                free@.no_duplicates(),
                forall|c: Position|
                    #![trigger free@.contains(c)]
                    #![trigger self@.free_at(second, c)]
                    free@.contains(c) <==> self@.free_at(second, c) && scanned(
                        c,
                        x as int,
                        low as int,
                    ),
            decreases GRID_WIDTH - x,
        {
            let mut y: i32 = low;
            while y < high
                invariant
                    0 <= x < GRID_WIDTH,
                    low <= y <= high,
                    low == (if second {
                        HALF_HEIGHT
                    } else {
                        0i32
                    }),
                    high == low + HALF_HEIGHT,
                    free@.no_duplicates(),
                    forall|c: Position|
                        #![trigger free@.contains(c)]
                        #![trigger self@.free_at(second, c)]
                        free@.contains(c) <==> self@.free_at(second, c) && scanned(
                            c,
                            x as int,
                            y as int,
                        ),
                decreases high - y,
            {
                let c = Position { x, y };
                let ghost before = free@;
                if self.is_empty(c) {
                    free.push(c);
                }
                assert forall|d: Position|
                    #![trigger free@.contains(d)]
                    #![trigger self@.free_at(second, d)]
                    free@.contains(d) <==> self@.free_at(second, d) && scanned(
                        d,
                        x as int,
                        y + 1,
                    ) by {
                    if free@.contains(d) {
                        let w = choose|k: int| 0 <= k < free@.len() && free@[k] == d;
                    }
                    if self@.free_at(second, d) && scanned(d, x as int, y + 1) {
                        if d == c {
                            assert(free@[free@.len() - 1] == d);
                        } else {
                            let w = choose|k: int| 0 <= k < before.len() && before[k] == d;
                            assert(free@[w] == d);
                        }
                    }
                }
                assert(free@.no_duplicates()) by {
                    if free@.len() > before.len() {
                        assert(!before.contains(c));
                    }
                }
                y += 1;
            }
            x += 1;
        }
        free
    }

    /// The waiting animals of the player take the cells, one each, in their
    /// order, as far as the cells go.
    pub fn seat(&mut self, player: i32, cells: &Vec<Position>)
        requires
            old(self).wf(),
            old(self)@.phase == Phase::Placement,
            old(self)@.cells_fit(player, cells@),
        ensures
            final(self).wf(),
            final(self)@ == old(self)@.seat(player, cells@),
    {
        proof {
            lemma_seat_wf(self@, player, cells@);
        }
        let n = self.animals.len();
        let mut taken: usize = 0;
        let mut i: usize = 0;
        while i < n
            invariant
                n == self.animals.len(),
                n == old(self).animals.len(),
                i <= n,
                taken <= i,
                taken == old(self)@.rank(player, i as int),
                self@ == (WorldState { animals: self@.animals, ..old(self)@ }),
                forall|j: int|
                    0 <= j < i ==> #[trigger] self.animals[j] == old(self)@.seated(
                        player,
                        cells@,
                        j,
                    ),
                forall|j: int| i <= j < n ==> #[trigger] self.animals[j] == old(self).animals[j],
            decreases n - i,
        {
            let a = self.animals[i];
            proof {
                lemma_filter_next(old(self).animals@, waiting_of(player), i as int);
            }
            if a.owner == player && a.position.is_none() {
                if taken < cells.len() {
                    let mut b = a;
                    b.position = Some(cells[taken]);
                    self.animals.set(i, b);
                }
                taken += 1;
            }
            i += 1;
        }
        assert(self@ =~~= old(self)@.seat(player, cells@));
    }

    /// The cells that the engine draws for the waiting animals of the
    /// player: none where no animal of the player waits.
    fn draw_cells(&self, player: i32) -> (cells: Vec<Position>)
        ensures
            self@.drawn(player, cells@),
    {
        if self.count_waiting(player) == 0 {
            Vec::new()
        } else {
            let free = self.free_cells(player == self.player2);
            let cells = pick_several(&free, TEAM_SIZE);
            assert(self@.lists_free(player, free@));
            cells
        }
    }

    /// The engine places for the players whose placement is overdue: each
    /// waiting animal goes to an empty cell drawn from its owner's half, as
    /// far as the half has room. The game begins if no animal waits any
    /// more.
    pub fn place_timeout(&mut self, now: i64) -> (out: Vec<Response>)
        requires
            old(self).wf(),
            timely(now),
        ensures
            final(self).wf(),
            old(self)@.place_timeout(
                now,
                Outcome { world: final(self)@, responses: replies(out@) },
            ),
    {
        let mut out: Vec<Response> = Vec::new();
        if self.phase == Phase::Placement && self.deadline <= now {
            let first = self.draw_cells(self.player1);
            proof {
                lemma_drawn_fits(self@, self.player1, first@);
            }
            self.seat(self.player1, &first);
            let second = self.draw_cells(self.player2);
            proof {
                lemma_drawn_fits(self@, self.player2, second@);
            }
            self.seat(self.player2, &second);
            if !self.is_placing() {
                proof {
                    lemma_begin_wf(self@, now);
                }
                out = self.begin_game(now);
            }
            assert(Outcome { world: self@, responses: replies(out@) } =~~= old(self)@.place_with(
                first@,
                second@,
                now,
            ));
        } else {
            assert(Outcome { world: self@, responses: replies(out@) } =~~= old(self)@.idle());
        }
        out
    }

    /// The place of the animal that the player acts with this turn.
    pub fn find_active(&self, player: i32) -> (r: Option<usize>)
        ensures
            match r {
                Some(i) => self@.active(player) == Some(i as int) && is_first(
                    self@.animals,
                    acting_of(player),
                    i as int,
                ),
                None => self@.active(player) is None,
            },
    {
        let n = self.animals.len();
        let mut i: usize = 0;
        while i < n
            invariant
                n == self.animals.len(),
                i <= n,
                forall|k: int| 0 <= k < i ==> !acting_of(player)(#[trigger] self.animals[k]),
            decreases n - i,
        {
            if self.animals[i].used && self.animals[i].owner == player {
                assert(is_first(self@.animals, acting_of(player), i as int));
                return Some(i);
            }
            i += 1;
        }
        None
    }

    /// The place of the animal that the player can take into use under the
    /// id.
    pub fn find_usable(&self, player: i32, id: i32) -> (r: Option<usize>)
        ensures
            match r {
                Some(i) => self@.usable(player, id) == Some(i as int) && is_first(
                    self@.animals,
                    usable_as(player, id),
                    i as int,
                ),
                None => self@.usable(player, id) is None,
            },
    {
        let n = self.animals.len();
        let mut i: usize = 0;
        while i < n
            invariant
                n == self.animals.len(),
                i <= n,
                forall|k: int| 0 <= k < i ==> !usable_as(player, id)(#[trigger] self.animals[k]),
            decreases n - i,
        {
            let a = self.animals[i];
            if a.owner == player && a.stat.id == id && a.position.is_some() && !a.used {
                assert(is_first(self@.animals, usable_as(player, id), i as int));
                return Some(i);
            }
            i += 1;
        }
        None
    }

    /// The place of the animal of the player's enemy on the cell `(x, y)`.
    pub fn find_foe(&self, player: i32, x: i64, y: i64) -> (r: Option<usize>)
        ensures
            match r {
                Some(i) => self@.victim(player, x as int, y as int) == Some(i as int) && is_first(
                    self@.animals,
                    foe_on(player, x as int, y as int),
                    i as int,
                ),
                None => self@.victim(player, x as int, y as int) is None,
            },
    {
        let n = self.animals.len();
        let mut i: usize = 0;
        while i < n
            invariant
                n == self.animals.len(),
                i <= n,
                forall|k: int|
                    0 <= k < i ==> !foe_on(player, x as int, y as int)(#[trigger] self.animals[k]),
            decreases n - i,
        {
            let a = self.animals[i];
            match a.position {
                Some(p) => {
                    if a.owner != player && p.x as i64 == x && p.y as i64 == y {
                        assert(is_first(
                            self@.animals,
                            foe_on(player, x as int, y as int),
                            i as int,
                        ));
                        return Some(i);
                    }
                },
                None => {},
            }
            i += 1;
        }
        None
    }

    /// A player takes one of its animals into use for the turn. That is
    /// refused, and changes nothing, unless it is the player's turn, none of
    /// its animals is in use, and it has an animal with the id on the board.
    /// Nobody is told of a success.
    pub fn use_animal(&mut self, player: i32, id: i32) -> (out: Vec<Response>)
        requires
            old(self).wf(),
        ensures
            final(self).wf(),
            final(self)@ == old(self)@.use_animal(player, id).world,
            replies(out@) == old(self)@.use_animal(player, id).responses,
    {
        proof {
            lemma_use_wf(self@, player, id);
        }
        let mut out: Vec<Response> = Vec::new();
        if self.phase != Phase::Game {
            return out;
        }
        let error = if player != self.current_turn {
            BattleError::NotYourTurn
        } else if self.find_active(player).is_some() {
            BattleError::AnimalInUse
        } else {
            match self.find_usable(player, id) {
                Some(i) => {
                    let mut a = self.animals[i];
                    a.used = true;
                    self.animals.set(i, a);
                    return out;
                },
                None => BattleError::AnimalNotFound,
            }
        };
        out.push(Response::refuse(player, error));
        out
    }

    /// Whether every cell on the straight way from `from` to `to` is empty.
    pub fn is_way_clear(&self, from: Position, to: Position) -> (r: bool)
        requires
            from.in_bounds(),
            to.in_bounds(),
            from.x == to.x || from.y == to.y,
        ensures
            r == self@.way_clear(from, to),
    {
        if from.x == to.x {
            let low: i32 = if to.y > from.y {
                from.y + 1
            } else {
                to.y
            };
            let high: i32 = if to.y > from.y {
                to.y + 1
            } else {
                from.y
            };
            let mut y: i32 = low;
            while y < high
                invariant
                    from.in_bounds(),
                    to.in_bounds(),
                    from.x == to.x,
                    low == (if to.y > from.y {
                        from.y + 1
                    } else {
                        to.y as int
                    }),
                    high == (if to.y > from.y {
                        to.y + 1
                    } else {
                        from.y as int
                    }),
                    low <= y || high <= y,
                    y <= high || high <= low,
                    forall|c: Position|
                        on_way(from, to, c) && c.y < y ==> #[trigger] self@.empty_at(c),
                decreases high - y,
            {
                let c = Position { x: from.x, y };
                if !self.is_empty(c) {
                    return false;
                }
                y += 1;
            }
            true
        } else {
            let low: i32 = if to.x > from.x {
                from.x + 1
            } else {
                to.x
            };
            let high: i32 = if to.x > from.x {
                to.x + 1
            } else {
                from.x
            };
            let mut x: i32 = low;
            while x < high
                invariant
                    from.in_bounds(),
                    to.in_bounds(),
                    from.y == to.y,
                    from.x != to.x,
                    low == (if to.x > from.x {
                        from.x + 1
                    } else {
                        to.x as int
                    }),
                    high == (if to.x > from.x {
                        to.x + 1
                    } else {
                        from.x as int
                    }),
                    low <= x <= high,
                    forall|c: Position|
                        on_way(from, to, c) && c.x < x ==> #[trigger] self@.empty_at(c),
                decreases high - x,
            {
                let c = Position { x, y: from.y };
                if !self.is_empty(c) {
                    return false;
                }
                x += 1;
            }
            true
        }
    }

    /// A player moves the animal it acts with to a cell given in the
    /// player's own frame. The move is refused, and changes nothing, unless
    /// it is the player's turn, the target lies on the board in the row or
    /// the column of the animal, every cell on the way is empty, and the
    /// animal has the mobility left. Both players are told of a move; only
    /// the mover is told what it cost.
    pub fn move_animal(&mut self, player: i32, target: Option<Position>) -> (out: Vec<Response>)
        requires
            old(self).wf(),
        ensures
            final(self).wf(),
            final(self)@ == old(self)@.move_animal(player, target).world,
            replies(out@) == old(self)@.move_animal(player, target).responses,
    {
        proof {
            lemma_move_wf(self@, player, target);
        }
        let mut out: Vec<Response> = Vec::new();
        let aim = match target {
            Some(aim) => aim,
            None => {
                return out;
            },
        };
        if self.phase != Phase::Game {
            return out;
        }
        let error = if player != self.current_turn {
            BattleError::NotYourTurn
        } else {
            match self.find_active(player) {
                None => BattleError::NoActiveAnimal,
                Some(i) => {
                    if !aim.is_in_bounds() {
                        BattleError::CannotMoveHere
                    } else {
                        let a = self.animals[i];
                        let from = match a.position {
                            Some(from) => from,
                            None => aim,
                        };
                        let to = aim.to_canonical(player == self.player2);
                        if from.x != to.x && from.y != to.y {
                            BattleError::NotEnoughSquares
                        } else if !self.is_way_clear(from, to) {
                            BattleError::CannotMoveHere
                        } else {
                            let across: i32 = if from.x > to.x {
                                from.x - to.x
                            } else {
                                to.x - from.x
                            };
                            let along: i32 = if from.y > to.y {
                                from.y - to.y
                            } else {
                                to.y - from.y
                            };
                            let cost: i32 = across + along;
                            if a.mobility_remaining < cost {
                                BattleError::NotEnoughSquares
                            } else {
                                let mut b = a;
                                b.position = Some(to);
                                b.mobility_remaining = a.mobility_remaining - cost;
                                self.animals.set(i, b);
                                out.push(
                                    Response::one(
                                        self.player1,
                                        Command::Moved {
                                            player_id: player,
                                            animal_id: a.stat.id,
                                            position: to,
                                            squares: if self.player1 == player {
                                                Some(cost)
                                            } else {
                                                None
                                            },
                                        },
                                    ),
                                );
                                out.push(
                                    Response::one(
                                        self.player2,
                                        Command::Moved {
                                            player_id: player,
                                            animal_id: a.stat.id,
                                            position: to,
                                            squares: if self.player2 == player {
                                                Some(cost)
                                            } else {
                                                None
                                            },
                                        },
                                    ),
                                );
                                return out;
                            }
                        }
                    }
                },
            }
        };
        out.push(Response::refuse(player, error));
        out
    }

    /// A player strikes a cell, given in the player's own frame, with the
    /// animal it acts with. The strike is refused, and changes nothing,
    /// unless it is the player's turn, the animal has not struck this turn,
    /// the cell is orthogonally adjacent to it, and an enemy animal stands
    /// there. The target loses what the strike deals, at most the health it
    /// has; both players are told.
    pub fn damage(&mut self, player: i32, target: Option<Position>) -> (out: Vec<Response>)
        requires
            old(self).wf(),
        ensures
            final(self).wf(),
            final(self)@ == old(self)@.damage(player, target).world,
            replies(out@) == old(self)@.damage(player, target).responses,
    {
        proof {
            lemma_damage_wf(self@, player, target);
        }
        let mut out: Vec<Response> = Vec::new();
        let aim = match target {
            Some(aim) => aim,
            None => {
                return out;
            },
        };
        if self.phase != Phase::Game {
            return out;
        }
        let error = if player != self.current_turn {
            BattleError::NotYourTurn
        } else {
            let striker = match self.find_active(player) {
                Some(i) => if self.animals[i].hit {
                    None
                } else {
                    Some(i)
                },
                None => None,
            };
            match striker {
                None => BattleError::NoActiveAnimal,
                Some(i) => {
                    let a = self.animals[i];
                    let from = match a.position {
                        Some(from) => from,
                        None => aim,
                    };
                    let x: i64 = aim.x as i64;
                    let y: i64 = if player == self.player2 {
                        (GRID_HEIGHT - 1) as i64 - aim.y as i64
                    } else {
                        aim.y as i64
                    };
                    let across: i64 = if from.x as i64 > x {
                        from.x as i64 - x
                    } else {
                        x - from.x as i64
                    };
                    let along: i64 = if from.y as i64 > y {
                        from.y as i64 - y
                    } else {
                        y - from.y as i64
                    };
                    if across + along != 1 {
                        BattleError::CannotHitThere
                    } else {
                        match self.find_foe(player, x, y) {
                            None => BattleError::NobodyToHit,
                            Some(j) => {
                                let v = self.animals[j];
                                proof {
                                    lemma_damage_bounds(
                                        a.stat.damage as int,
                                        v.stat.resistance_pct as int,
                                    );
                                    assert(0 <= a.stat.damage * (100 - v.stat.resistance_pct)
                                        <= a.stat.damage * 100) by (nonlinear_arith)
                                        requires
                                            0 <= a.stat.damage,
                                            0 <= v.stat.resistance_pct <= 100,
                                    ;
                                }
                                let dealt: i64 = (a.stat.damage as i64) * ((100
                                    - v.stat.resistance_pct) as i64) / 100;
                                let mut b = a;
                                b.hit = true;
                                self.animals.set(i, b);
                                let mut w = v;
                                let taken = w.take_damage(dealt as i32);
                                self.animals.set(j, w);
                                out.push(
                                    self.announce(
                                        Command::Damaged {
                                            player_id: player,
                                            damager_animal_id: a.stat.id,
                                            damaged_animal_id: v.stat.id,
                                            damage: taken,
                                        },
                                    ),
                                );
                                return out;
                            },
                        }
                    }
                },
            }
        };
        out.push(Response::refuse(player, error));
        out
    }

    /// The turn passes on.
    fn pass_turn(&mut self, now: i64) -> (out: Vec<Response>)
        requires
            old(self).wf(),
            old(self)@.phase == Phase::Game,
            timely(now),
        ensures
            final(self).wf(),
            final(self)@ == old(self)@.pass_turn(now).world,
            replies(out@) == old(self)@.pass_turn(now).responses,
    {
        proof {
            lemma_pass_wf(self@, now);
        }
        let n = self.animals.len();
        let mut i: usize = 0;
        while i < n
            invariant
                n == self.animals.len(),
                n == old(self).animals.len(),
                i <= n,
                self@ == (WorldState { animals: self@.animals, ..old(self)@ }),
                forall|j: int| 0 <= j < i ==> self.animals[j] == rested(old(self).animals[j]),
                forall|j: int| i <= j < n ==> self.animals[j] == old(self).animals[j],
            decreases n - i,
        {
            let a = self.animals[i];
            if a.used {
                let mut b = a;
                b.used = false;
                b.hit = false;
                b.mobility_remaining = a.stat.mobility;
                self.animals.set(i, b);
            }
            i += 1;
        }
        let next = self.next_turn(self.current_turn);
        let deadline = now + TURN_TIME;
        self.current_turn = next;
        self.deadline = deadline;
        let mut out: Vec<Response> = Vec::new();
        out.push(self.announce(Command::TurnToPick { player_id: Some(next), deadline }));
        out
    }

    /// A player ends its turn: its animals are at rest again, with their
    /// full mobility, and the other player's turn is due within
    /// `TURN_TIME`. Out of turn that is refused, and changes nothing.
    pub fn end_turn(&mut self, player: i32, now: i64) -> (out: Vec<Response>)
        requires
            old(self).wf(),
            timely(now),
        ensures
            final(self).wf(),
            final(self)@ == old(self)@.end_turn(player, now).world,
            replies(out@) == old(self)@.end_turn(player, now).responses,
    {
        let mut out: Vec<Response> = Vec::new();
        if self.phase != Phase::Game {
            out
        } else if player != self.current_turn {
            out.push(Response::refuse(player, BattleError::NotYourTurn));
            out
        } else {
            self.pass_turn(now)
        }
    }

    /// The turn ends by itself once its deadline has passed.
    pub fn turn_timeout(&mut self, now: i64) -> (out: Vec<Response>)
        requires
            old(self).wf(),
            timely(now),
        ensures
            final(self).wf(),
            final(self)@ == old(self)@.turn_timeout(now).world,
            replies(out@) == old(self)@.turn_timeout(now).responses,
    {
        if self.phase == Phase::Game && self.deadline <= now {
            self.pass_turn(now)
        } else {
            let out: Vec<Response> = Vec::new();
            out
        }
    }

    /// The sweep at the end of a run of the pipeline: every animal without
    /// health leaves the match, and both players are told. A match in which
    /// a player has no animal left becomes terminal, and both are told who
    /// won.
    pub fn death(&mut self) -> (out: Vec<Response>)
        requires
            old(self).wf(),
        ensures
            final(self).wf(),
            final(self)@ == old(self)@.death().world,
            replies(out@) == old(self)@.death().responses,
    {
        proof {
            lemma_death_wf(self@);
        }
        let mut out: Vec<Response> = Vec::new();
        if self.phase != Phase::Game {
            return out;
        }
        let n = self.animals.len();
        let mut kept: Vec<Animal> = Vec::new();
        let mut i: usize = 0;
        while i < n
            invariant
                n == self.animals.len(),
                i <= n,
                self@ == old(self)@,
                kept@ == self.animals@.take(i as int).filter(alive()),
                replies(out@) == self@.obituaries(self.animals@.take(i as int)),
            decreases n - i,
        {
            let a = self.animals[i];
            proof {
                lemma_filter_next(self.animals@, alive(), i as int);
                lemma_filter_next(self.animals@, fallen(), i as int);
            }
            let ghost told = out@;
            if a.hp > 0 {
                kept.push(a);
            } else {
                out.push(self.announce(Command::Dead { animal_id: a.stat.id }));
            }
            proof {
                let dead = self.animals@.take(i as int).filter(fallen());
                assert(replies(told).len() == dead.len());
                assert forall|k: int| 0 <= k < replies(out@).len() implies replies(out@)[k]
                    == self@.obituaries(self.animals@.take(i + 1))[k] by {
                    if k < dead.len() {
                        assert(replies(told)[k] == self@.obituaries(
                            self.animals@.take(i as int),
                        )[k]);
                    }
                }
            }
            i += 1;
        }
        assert(self.animals@.take(n as int) =~= self.animals@);
        self.animals = kept;
        let first_left = self.count_owned(self.player1);
        let second_left = self.count_owned(self.player2);
        if first_left == 0 || second_left == 0 {
            let winner = if first_left > 0 {
                Some(self.player1)
            } else if second_left > 0 {
                Some(self.player2)
            } else {
                None
            };
            out.push(self.announce(Command::GameOver { winner }));
            self.phase = Phase::Terminal;
        }
        out
    }

    /// The match as it is created at `now`, with the first or the second
    /// player to pick first.
    pub fn starting_with(m: &Match, catalog: AnimalCatalog, first: bool, now: i64) -> (w: World)
        ensures
            w.wf(),
            w@ == WorldState::start(
                m@,
                catalog@,
                if first {
                    m@.player1
                } else {
                    m@.player2
                },
                now,
            ),
    {
        let player1 = m.player1();
        let player2 = m.player2();
        let starter = if first {
            player1
        } else {
            player2
        };
        let stats = catalog.stats();
        proof {
            lemma_start_wf(m@, stats@, starter, now);
        }
        let w = World {
            phase: Phase::Pick,
            current_turn: starter,
            deadline: now,
            player1,
            player2,
            player1_ready: m.player1_ready(),
            player2_ready: m.player2_ready(),
            obstacles: m.map().obstacle_cells(),
            animals: Vec::new(),
            catalog,
        };
        w
    }

    /// The player whose turn comes after `player`'s.
    fn next_turn(&self, player: i32) -> (next: i32)
        ensures
            next == self@.opponent(player),
    {
        if player == self.player1 {
            self.player2
        } else {
            self.player1
        }
    }

    /// The match as it is created at `now`. Which player picks first is
    /// drawn at random.
    pub fn new(m: &Match, catalog: AnimalCatalog, now: i64) -> (w: World)
        ensures
            w.wf(),
            w@ == WorldState::start(m@, catalog@, m@.player1, now) || w@ == WorldState::start(
                m@,
                catalog@,
                m@.player2,
                now,
            ),
    {
        let first = random_below(2) == 0;
        World::starting_with(m, catalog, first, now)
    }

    /// The handlers of the preparations that wait for a command.
    fn prepare(&mut self, event: Option<&Event>, now: i64) -> (out: Vec<Response>)
        requires
            old(self).wf(),
            timely(now),
        ensures
            final(self).wf(),
            final(self)@ == old(self)@.prepare(deref_event(event), now).world,
            replies(out@) == old(self)@.prepare(deref_event(event), now).responses,
    {
        match event {
            Some(e) => match &e.action {
                Action::Ready => self.ready(e.player_id, now),
                Action::Pick(cmd) => self.pick(e.player_id, cmd.animal_id, now),
                Action::Place(cmd) => self.place(e.player_id, &cmd.animals, now),
                _ => {
                    let out: Vec<Response> = Vec::new();
                    out
                },
            },
            None => {
                let out: Vec<Response> = Vec::new();
                out
            },
        }
    }

    /// The handlers of the gameplay that wait for a command.
    fn play(&mut self, event: Option<&Event>, now: i64) -> (out: Vec<Response>)
        requires
            old(self).wf(),
            timely(now),
        ensures
            final(self).wf(),
            final(self)@ == old(self)@.play(deref_event(event), now).world,
            replies(out@) == old(self)@.play(deref_event(event), now).responses,
    {
        match event {
            Some(e) => match &e.action {
                Action::Use(cmd) => self.use_animal(e.player_id, cmd.animal_id),
                Action::Move(cmd) => self.move_animal(e.player_id, cmd.position),
                Action::Damage(cmd) => self.damage(e.player_id, cmd.position),
                Action::EndTurn => self.end_turn(e.player_id, now),
                _ => {
                    let out: Vec<Response> = Vec::new();
                    out
                },
            },
            None => {
                let out: Vec<Response> = Vec::new();
                out
            },
        }
    }

    /// One stage of the pipeline, at `now`, with the command of the run if
    /// there is one.
    pub fn run_stage(&mut self, stage: Stage, event: Option<&Event>, now: i64) -> (out: Vec<
        Response,
    >)
        requires
            old(self).wf(),
            timely(now),
        ensures
            final(self).wf(),
            old(self)@.stage(
                stage,
                deref_event(event),
                now,
                Outcome { world: final(self)@, responses: replies(out@) },
            ),
    {
        let ghost first = self@;
        match stage {
            Stage::FlushEvents => {
                let out: Vec<Response> = Vec::new();
                assert(Outcome { world: self@, responses: replies(out@) } =~~= first.idle());
                out
            },
            Stage::Preparations => {
                let mut out = self.pick_timeout(now);
                let ghost a = Outcome { world: self@, responses: replies(out@) };
                let mut told = self.prepare(event, now);
                let ghost b = Outcome { world: self@, responses: replies(told@) };
                proof {
                    lemma_replies_append(out@, told@);
                }
                out.append(&mut told);
                let mut late = self.place_timeout(now);
                let ghost c = Outcome { world: self@, responses: replies(late@) };
                proof {
                    lemma_replies_append(out@, late@);
                }
                out.append(&mut late);
                proof {
                    assert(Outcome { world: self@, responses: replies(out@) } =~~= a.followed_by(
                        a.world.prepare(deref_event(event), now),
                    ).followed_by(c));
                }
                out
            },
            Stage::Gameplay => {
                let mut out = self.play(event, now);
                let mut late = self.turn_timeout(now);
                proof {
                    lemma_replies_append(out@, late@);
                }
                out.append(&mut late);
                out
            },
            Stage::EndTurn => {
                let out = self.death();
                out
            },
        }
    }

    /// One run of the pipeline at `now`, with the command `event` if there
    /// is one: the stages in their order. The match stays well-formed, and
    /// keeps its players, its obstacles and its catalog.
    pub fn step(&mut self, event: Option<&Event>, now: i64) -> (out: Vec<Response>)
        requires
            old(self).wf(),
            timely(now),
        ensures
            final(self).wf(),
            final(self)@.same_match(old(self)@),
            old(self)@.runs(
                deref_event(event),
                now,
                Outcome { world: final(self)@, responses: replies(out@) },
            ),
    {
        let ghost first = self@;
        let mut out = self.run_stage(Stage::FlushEvents, event, now);
        let mut more = self.run_stage(Stage::Preparations, event, now);
        proof {
            lemma_replies_append(out@, more@);
        }
        out.append(&mut more);
        let mut more = self.run_stage(Stage::Gameplay, event, now);
        proof {
            lemma_replies_append(out@, more@);
        }
        out.append(&mut more);
        let mut more = self.run_stage(Stage::EndTurn, event, now);
        proof {
            lemma_replies_append(out@, more@);
        }
        out.append(&mut more);
        proof {
            let after = Outcome { world: self@, responses: replies(out@) };
            lemma_runs_wf(first, deref_event(event), now, after);
        }
        out
    }
}

/// The command that a reference stands for.
pub open spec fn deref_event(event: Option<&Event>) -> Option<Event> {
    match event {
        Some(e) => Some(*e),
        None => None,
    }
}

/// What two lists of responses are, one after the other.
pub proof fn lemma_replies_append(a: Seq<Response>, b: Seq<Response>)
    ensures
        replies(a + b) == replies(a) + replies(b),
{
}

} // verus!
