//! Every handler of the pipeline leaves a well-formed match well-formed.

use crate::catalog::{first_with_id, lists_animal, stats_valid, AnimalStat};
use crate::chance::{drawn_from, lemma_drawn_distinct};
use crate::grid::{canonical_row, Position};
use crate::matchmaking::MatchView;
use crate::protocol::{Action, Event, Phase, PlaceAnimal};
use crate::seqs::{lemma_filter_agree, lemma_filter_next, lemma_filter_order};
use crate::state::{
    acting_of, alive, damage_dealt, first_where, foe_on, fresh, is_first, owned_by, timely,
    usable_as, waiting_of, Animal, Outcome, WorldState, TEAM_SIZE,
};
use vstd::prelude::*;

verus! {

broadcast use {vstd::seq_lib::group_seq_properties, vstd::seq::group_seq_axioms};

/// A placement, accepted or refused, leaves the match well-formed: every
/// animal on the board stands on a cell of its own, on which no obstacle
/// stands.
pub proof fn lemma_place_wf(s: WorldState, player: i32, entries: Seq<PlaceAnimal>, now: i64)
    requires
        s.wf(),
        timely(now),
    ensures
        s.place(player, entries, now).world.wf(),
{
    if s.phase == Phase::Placement && s.may_place(player, entries) {
        let animals = Seq::new(s.animals.len(), |i: int| s.settled(s.animals[i], player, entries));
        lemma_filter_agree(s.animals, animals, owned_by(s.player1));
        lemma_filter_agree(s.animals, animals, owned_by(s.player2));
    }
}

/// Where every animal belongs to one of two players, the animals of the one
/// and those of the other are all the animals.
pub proof fn lemma_owned_split(animals: Seq<Animal>, player1: i32, player2: i32)
    requires
        player1 != player2,
        forall|i: int|
            0 <= i < animals.len() ==> (#[trigger] animals[i]).owner == player1
                || animals[i].owner == player2,
    ensures
        animals.filter(owned_by(player1)).len() + animals.filter(owned_by(player2)).len()
            == animals.len(),
    decreases animals.len(),
{
    reveal(Seq::filter);
    if animals.len() > 0 {
        lemma_owned_split(animals.drop_last(), player1, player2);
    }
}

/// A report of readiness leaves the match well-formed.
pub proof fn lemma_ready_wf(s: WorldState, player: i32, now: i64)
    requires
        s.wf(),
        timely(now),
    ensures
        s.ready(player, now).world.wf(),
{
    let after = s.ready(player, now).world;
}

/// A pick leaves the match well-formed. The turns pass so that, when the
/// last animal is picked, each player owns three, and no animal is picked
/// twice.
pub proof fn lemma_take_wf(s: WorldState, stat: AnimalStat, now: i64)
    requires
        s.wf(),
        s.phase == Phase::Pick,
        s.on_offer(stat),
        timely(now),
    ensures
        s.take(stat, now).world.wf(),
{
    let after = s.take(stat, now).world;
    let picker = s.current_turn;
    let born = fresh(picker, stat);
    lemma_owned_split(s.animals, s.player1, s.player2);
    s.animals.lemma_filter_push(born, owned_by(s.player1));
    s.animals.lemma_filter_push(born, owned_by(s.player2));
}

/// An attempt to pick, accepted or refused, leaves the match well-formed.
pub proof fn lemma_pick_wf(s: WorldState, player: i32, id: i32, now: i64)
    requires
        s.wf(),
        timely(now),
    ensures
        s.pick(player, id, now).world.wf(),
{
    if s.phase == Phase::Pick && s.may_pick(player, id) {
        lemma_stat_of(s, id);
        lemma_take_wf(s, s.stat_of(id), now);
    }
}

/// The stat block that a pick of a listed id gets is one of the catalog,
/// and has the id.
pub proof fn lemma_stat_of(s: WorldState, id: i32)
    requires
        lists_animal(s.catalog, id),
    ensures
        s.catalog.contains(s.stat_of(id)),
        s.stat_of(id).id == id,
        exists|i: int| first_with_id(s.catalog, id, i),
{
    lemma_first_listed(s.catalog, id, s.catalog.len() as int);
}

/// Where one of the first `n` stat blocks has the id, one of them is the
/// first to have it.
pub proof fn lemma_first_listed(stats: Seq<AnimalStat>, id: i32, n: int)
    requires
        0 <= n <= stats.len(),
    ensures
        (exists|i: int| 0 <= i < n && (#[trigger] stats[i]).id == id) ==> exists|i: int|
            0 <= i < n && first_with_id(stats, id, i),
    decreases n,
{
    if n > 0 {
        lemma_first_listed(stats, id, n - 1);
        if stats[n - 1].id == id && !exists|i: int|
            0 <= i < n - 1 && (#[trigger] stats[i]).id == id {
            assert(first_with_id(stats, id, n - 1));
        }
    }
}

/// A waiting animal of the player has fewer waiting animals of the player
/// before it than any animal after it.
pub proof fn lemma_rank_grows(s: WorldState, player: i32, i: int, j: int)
    requires
        0 <= i < j <= s.animals.len(),
        waiting_of(player)(s.animals[i]),
    ensures
        s.rank(player, i) < s.rank(player, j),
    decreases j - i,
{
    lemma_filter_next(s.animals, waiting_of(player), j - 1);
    if i < j - 1 {
        lemma_rank_grows(s, player, i, j - 1);
    }
}

/// A draw for the player is made of cells that can be handed to its animals.
pub proof fn lemma_drawn_fits(s: WorldState, player: i32, cells: Seq<Position>)
    requires
        s.drawn(player, cells),
    ensures
        s.cells_fit(player, cells),
        cells.len() <= TEAM_SIZE,
{
    if s.waiting(player) != 0 {
        let free = choose|free: Seq<Position>|
            {
                &&& #[trigger] s.lists_free(player, free)
                &&& drawn_from(free, cells)
                &&& cells.len() == if free.len() < TEAM_SIZE {
                    free.len()
                } else {
                    TEAM_SIZE as nat
                }
            };
        lemma_drawn_distinct(free, cells);
    }
}

/// Seating waiting animals of a player on cells that fit leaves the match
/// well-formed.
pub proof fn lemma_seat_wf(s: WorldState, player: i32, cells: Seq<Position>)
    requires
        s.wf(),
        s.phase == Phase::Placement,
        s.cells_fit(player, cells),
    ensures
        s.seat(player, cells).wf(),
        s.seat(player, cells).phase == Phase::Placement,
{
    let after = s.seat(player, cells);
    lemma_filter_agree(s.animals, after.animals, owned_by(s.player1));
    lemma_filter_agree(s.animals, after.animals, owned_by(s.player2));
    assert forall|i: int, j: int| 0 <= i < j < after.animals.len() implies WorldState::apart(
        #[trigger] after.animals[i],
        #[trigger] after.animals[j],
    ) by {
        let a = s.animals[i];
        let b = s.animals[j];
        let seated_a = a.owner == player && a.position is None && s.rank(player, i) < cells.len();
        let seated_b = b.owner == player && b.position is None && s.rank(player, j) < cells.len();
        if seated_a && seated_b {
            lemma_rank_grows(s, player, i, j);
        }
    }
}

/// The beginning of the game leaves the match well-formed.
pub proof fn lemma_begin_wf(s: WorldState, now: i64)
    requires
        s.wf(),
        s.phase == Phase::Placement,
        !s.placing(),
        timely(now),
    ensures
        s.begin_game(now).world.wf(),
{
    let after = s.begin_game(now).world;
}

/// Whatever an overdue placement leaves behind is well-formed.
pub proof fn lemma_place_timeout_wf(s: WorldState, now: i64, after: Outcome)
    requires
        s.wf(),
        timely(now),
        s.place_timeout(now, after),
    ensures
        after.world.wf(),
{
    if s.place_due(now) {
        let (first, second) = choose|first: Seq<Position>, second: Seq<Position>|
            {
                &&& s.drawn(s.player1, first)
                &&& s.seat(s.player1, first).drawn(s.player2, second)
                &&& after == #[trigger] s.place_with(first, second, now)
            };
        lemma_drawn_fits(s, s.player1, first);
        lemma_seat_wf(s, s.player1, first);
        let mid = s.seat(s.player1, first);
        lemma_drawn_fits(mid, s.player2, second);
        lemma_seat_wf(mid, s.player2, second);
        if !mid.seat(s.player2, second).placing() {
            lemma_begin_wf(mid.seat(s.player2, second), now);
        }
    }
}

/// What `first_where` finds is the first animal that meets `f`.
pub proof fn lemma_first_where(animals: Seq<Animal>, f: spec_fn(Animal) -> bool)
    ensures
        first_where(animals, f) matches Some(i) ==> is_first(animals, f, i),
        first_where(animals, f) is None ==> forall|i: int|
            0 <= i < animals.len() ==> !f(#[trigger] animals[i]),
{
    if first_where(animals, f) is None {
        lemma_first_exists(animals, f, animals.len() as int);
    }
}

/// Where one of the first `n` animals meets `f`, one of them is the first
/// to meet it.
pub proof fn lemma_first_exists(animals: Seq<Animal>, f: spec_fn(Animal) -> bool, n: int)
    requires
        0 <= n <= animals.len(),
    ensures
        (exists|i: int| 0 <= i < n && f(#[trigger] animals[i])) ==> exists|i: int|
            0 <= i < n && is_first(animals, f, i),
    decreases n,
{
    if n > 0 {
        lemma_first_exists(animals, f, n - 1);
        if f(animals[n - 1]) && !exists|i: int| 0 <= i < n - 1 && f(#[trigger] animals[i]) {
            assert(is_first(animals, f, n - 1));
        }
    }
}

/// Taking an animal into use, or the refusal to, leaves the match
/// well-formed: a player never has two animals in use.
pub proof fn lemma_use_wf(s: WorldState, player: i32, id: i32)
    requires
        s.wf(),
    ensures
        s.use_animal(player, id).world.wf(),
{
    let after = s.use_animal(player, id).world;
    if s.phase == Phase::Game && player == s.current_turn && s.active(player) is None {
        lemma_first_where(s.animals, acting_of(player));
        lemma_first_where(s.animals, usable_as(player, id));
    }
}

/// A move, made or refused, leaves the match well-formed: the animal ends
/// on a cell of the board on which nothing else stands.
pub proof fn lemma_move_wf(s: WorldState, player: i32, target: Option<Position>)
    requires
        s.wf(),
    ensures
        s.move_animal(player, target).world.wf(),
{
    let after = s.move_animal(player, target).world;
    if after != s {
        lemma_first_where(s.animals, acting_of(player));
        let u = s.active(player)->0;
        let a = s.animals[u];
        let from = a.position->0;
        let to = target->0.canonical(s.is_second(player));
        if to != from {
            assert(s.empty_at(to));
        }
    }
}

/// What a strike takes is never negative and never more than its strength.
pub proof fn lemma_damage_bounds(attack: int, resistance: int)
    requires
        0 <= attack,
        0 <= resistance <= 100,
    ensures
        0 <= damage_dealt(attack, resistance) <= attack,
{
    assert(0 <= attack * (100 - resistance) <= attack * 100) by (nonlinear_arith)
        requires
            0 <= attack,
            0 <= resistance <= 100,
    ;
}

/// A strike, made or refused, leaves the match well-formed: no animal is
/// left with negative health.
pub proof fn lemma_damage_wf(s: WorldState, player: i32, target: Option<Position>)
    requires
        s.wf(),
    ensures
        s.damage(player, target).world.wf(),
{
    let after = s.damage(player, target).world;
    if after != s {
        lemma_first_where(s.animals, acting_of(player));
        let i = s.striker(player)->0;
        let a = s.animals[i];
        let x = target->0.x as int;
        let y = canonical_row(target->0.y as int, s.is_second(player));
        lemma_first_where(s.animals, foe_on(player, x, y));
        let j = s.victim(player, x, y)->0;
        let v = s.animals[j];
        lemma_damage_bounds(a.stat.damage as int, v.stat.resistance_pct as int);
    }
}

/// The passing of the turn leaves the match well-formed: no animal is in
/// use, and each has its full mobility again.
pub proof fn lemma_pass_wf(s: WorldState, now: i64)
    requires
        s.wf(),
        s.phase == Phase::Game,
        timely(now),
    ensures
        s.pass_turn(now).world.wf(),
        forall|i: int|
            0 <= i < s.animals.len() ==> {
                let a = #[trigger] s.pass_turn(now).world.animals[i];
                !a.used && !a.hit && a.mobility_remaining == a.stat.mobility
            },
{
    let after = s.pass_turn(now).world;
}

/// The end of a turn, by the player or refused, leaves the match
/// well-formed.
pub proof fn lemma_end_turn_wf(s: WorldState, player: i32, now: i64)
    requires
        s.wf(),
        timely(now),
    ensures
        s.end_turn(player, now).world.wf(),
{
    if s.phase == Phase::Game && player == s.current_turn {
        lemma_pass_wf(s, now);
    }
}

/// The end of a turn by its deadline leaves the match well-formed.
pub proof fn lemma_turn_timeout_wf(s: WorldState, now: i64)
    requires
        s.wf(),
        timely(now),
    ensures
        s.turn_timeout(now).world.wf(),
{
    if s.phase == Phase::Game && s.expired(now) {
        lemma_pass_wf(s, now);
    }
}

/// The sweep leaves the match well-formed.
pub proof fn lemma_death_wf(s: WorldState)
    requires
        s.wf(),
    ensures
        s.death().world.wf(),
{
    if s.phase == Phase::Game {
        let after = s.death().world;
        lemma_filter_order(s.animals, alive());
        s.animals.lemma_filter_len(alive());
    }
}

/// A match is well-formed as it is created.
pub proof fn lemma_start_wf(m: MatchView, catalog: Seq<AnimalStat>, first: i32, now: i64)
    requires
        m.player1 != m.player2,
        first == m.player1 || first == m.player2,
        stats_valid(catalog),
    ensures
        WorldState::start(m, catalog, first, now).wf(),
{
    reveal(Seq::filter);
    let s = WorldState::start(m, catalog, first, now);
}

/// Whatever a run of the pipeline leaves behind is well-formed, and belongs
/// to the match it started from.
pub proof fn lemma_runs_wf(s: WorldState, event: Option<Event>, now: i64, after: Outcome)
    requires
        s.wf(),
        timely(now),
        s.runs(event, now, after),
    ensures
        after.world.wf(),
        after.world.same_match(s),
{
    let p = choose|p: Outcome|
        {
            &&& #[trigger] s.preparations(event, now, p)
            &&& after == p.followed_by(p.world.gameplay(event, now)).followed_by(
                p.world.gameplay(event, now).world.death(),
            )
        };
    lemma_preparations_wf(s, event, now, p);
    lemma_gameplay_wf(p.world, event, now);
    lemma_death_wf(p.world.gameplay(event, now).world);
}

/// Whatever the preparations leave behind is well-formed, and belongs to
/// the match they started from.
pub proof fn lemma_preparations_wf(s: WorldState, event: Option<Event>, now: i64, after: Outcome)
    requires
        s.wf(),
        timely(now),
        s.preparations(event, now, after),
    ensures
        after.world.wf(),
        after.world.same_match(s),
{
    let (a, c) = choose|a: Outcome, c: Outcome|
        {
            &&& #[trigger] s.pick_timeout(now, a)
            &&& #[trigger] a.world.prepare(event, now).world.place_timeout(now, c)
            &&& after == a.followed_by(a.world.prepare(event, now)).followed_by(c)
        };
    lemma_pick_timeout_wf(s, now, a);
    lemma_prepare_wf(a.world, event, now);
    lemma_place_timeout_wf(a.world.prepare(event, now).world, now, c);
    let b = a.world.prepare(event, now).world;
    if b.place_due(now) {
        let (first, second) = choose|first: Seq<Position>, second: Seq<Position>|
            {
                &&& b.drawn(b.player1, first)
                &&& b.seat(b.player1, first).drawn(b.player2, second)
                &&& c == #[trigger] b.place_with(first, second, now)
            };
    }
}

/// Whatever an overdue pick leaves behind is well-formed, and belongs to
/// the match.
pub proof fn lemma_pick_timeout_wf(s: WorldState, now: i64, after: Outcome)
    requires
        s.wf(),
        timely(now),
        s.pick_timeout(now, after),
    ensures
        after.world.wf(),
        after.world.same_match(s),
{
    if s.pick_due(now) && exists|stat: AnimalStat| s.on_offer(stat) {
        let stat = choose|stat: AnimalStat|
            s.on_offer(stat) && after == #[trigger] s.take(stat, now);
        lemma_take_wf(s, stat, now);
    }
}

/// The command of a run leaves the match well-formed in the preparations.
pub proof fn lemma_prepare_wf(s: WorldState, event: Option<Event>, now: i64)
    requires
        s.wf(),
        timely(now),
    ensures
        s.prepare(event, now).world.wf(),
        s.prepare(event, now).world.same_match(s),
{
    match event {
        Some(Event { player_id, action: Action::Ready }) => {
            lemma_ready_wf(s, player_id, now);
        },
        Some(Event { player_id, action: Action::Pick(cmd) }) => {
            lemma_pick_wf(s, player_id, cmd.animal_id, now);
        },
        Some(Event { player_id, action: Action::Place(cmd) }) => {
            lemma_place_wf(s, player_id, cmd.animals@, now);
        },
        _ => {},
    }
}

/// The command of a run leaves the match well-formed in the gameplay.
pub proof fn lemma_play_wf(s: WorldState, event: Option<Event>, now: i64)
    requires
        s.wf(),
        timely(now),
    ensures
        s.play(event, now).world.wf(),
{
    match event {
        Some(Event { player_id, action: Action::Use(cmd) }) => {
            lemma_use_wf(s, player_id, cmd.animal_id);
        },
        Some(Event { player_id, action: Action::Move(cmd) }) => {
            lemma_move_wf(s, player_id, cmd.position);
        },
        Some(Event { player_id, action: Action::Damage(cmd) }) => {
            lemma_damage_wf(s, player_id, cmd.position);
        },
        Some(Event { player_id, action: Action::EndTurn }) => {
            lemma_end_turn_wf(s, player_id, now);
        },
        _ => {},
    }
}

/// The gameplay leaves the match well-formed, and it belongs to the match.
pub proof fn lemma_gameplay_wf(s: WorldState, event: Option<Event>, now: i64)
    requires
        s.wf(),
        timely(now),
    ensures
        s.gameplay(event, now).world.wf(),
        s.gameplay(event, now).world.same_match(s),
        s.gameplay(event, now).world.death().world.same_match(s),
{
    lemma_play_wf(s, event, now);
    lemma_turn_timeout_wf(s.play(event, now).world, now);
}

} // verus!
