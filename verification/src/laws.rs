//! What holds of the library as a whole: laws that relate its functions to
//! each other, proved from their contracts.

use crate::catalog::GameMap;
use crate::chance::drawn_from;
use crate::grid::{adjacent, canonical_row, manhattan, Position};
use crate::invariants::{
    lemma_damage_bounds, lemma_drawn_fits, lemma_first_where, lemma_gameplay_wf, lemma_pass_wf,
    lemma_play_wf, lemma_rank_grows, lemma_seat_wf,
};
use crate::matchmaking::{
    eligible, lonely, paired, paired_off, told, Match, MatchmakerMessage, Player, Rating,
};
use crate::protocol::{
    addressed_to, observed, refusal, Action, BattleError, CommandView, Event, Phase, Reply,
};
use crate::seqs::{lemma_filter_agree, lemma_filter_fewer};
use crate::state::{
    acting_of, foe_on, owned_by, timely, waiting_of, Outcome, WorldState, TEAM_SIZE,
};
use vstd::prelude::*;

verus! {

// -------------------------------------------------------------------
// The match

/// When the pick is complete, each player owns exactly three animals, and
/// no two animals of the match (so no two of one player) share an id.
pub proof fn law_teams_of_three(s: WorldState)
    requires
        s.wf(),
        s.phase == Phase::Placement,
    ensures
        s.owned(s.player1) == TEAM_SIZE,
        s.owned(s.player2) == TEAM_SIZE,
        forall|i: int, j: int|
            0 <= i < j < s.animals.len() ==> (#[trigger] s.animals[i]).stat.id != (
            #[trigger] s.animals[j]).stat.id,
{
}

/// Between any two runs of the pipeline, no two animals stand on one cell,
/// no animal stands on an obstacle, and every animal on the board stands
/// within its bounds.
pub proof fn law_board_disjoint(s: WorldState)
    requires
        s.wf(),
    ensures
        forall|i: int, j: int|
            0 <= i < s.animals.len() && 0 <= j < s.animals.len() && i != j && (
            #[trigger] s.animals[i]).position is Some ==> s.animals[i].position != (
            #[trigger] s.animals[j]).position,
        forall|i: int|
            0 <= i < s.animals.len() && (#[trigger] s.animals[i]).position is Some ==> {
                &&& s.animals[i].position->0.in_bounds()
                &&& !s.obstacle_at(s.animals[i].position->0)
            },
{
}

/// In the game, and when it is over, every animal of the match stands on
/// the board: the game begins only when no animal waits any more.
pub proof fn law_game_on_board(s: WorldState)
    requires
        s.wf(),
        s.phase == Phase::Game || s.phase == Phase::Terminal,
    ensures
        !s.placing(),
        forall|i: int| 0 <= i < s.animals.len() ==> (#[trigger] s.animals[i]).position is Some,
{
}

/// Between any two runs of the pipeline, at most one animal is in use, and
/// it belongs to the player whose turn it is: so no player has two animals
/// in use.
pub proof fn law_one_in_use(s: WorldState)
    requires
        s.wf(),
    ensures
        forall|i: int, j: int|
            0 <= i < s.animals.len() && 0 <= j < s.animals.len() && i != j ==> !((
            #[trigger] s.animals[i]).used && (#[trigger] s.animals[j]).used),
        forall|i: int|
            0 <= i < s.animals.len() && (#[trigger] s.animals[i]).used ==> s.animals[i].owner
                == s.current_turn,
{
}

/// Between any two runs of the pipeline, no animal has negative health or
/// negative mobility left, and none has more mobility left than its stat
/// block gives it.
pub proof fn law_never_negative(s: WorldState)
    requires
        s.wf(),
    ensures
        forall|i: int|
            0 <= i < s.animals.len() ==> {
                &&& (#[trigger] s.animals[i]).hp >= 0
                &&& 0 <= s.animals[i].mobility_remaining <= s.animals[i].stat.mobility
            },
{
    assert forall|i: int| 0 <= i < s.animals.len() implies {
        &&& (#[trigger] s.animals[i]).hp >= 0
        &&& 0 <= s.animals[i].mobility_remaining <= s.animals[i].stat.mobility
    } by {
        assert(s.animal_ok(s.animals[i]));
    }
}

/// In the gameplay of a run, no animal gains mobility while the turn stays
/// with its player, and when the turn passes on, every animal has the
/// mobility of its stat block again. No animal ever gains health.
pub proof fn law_mobility_and_health(s: WorldState, event: Option<Event>, now: i64)
    requires
        s.wf(),
        timely(now),
    ensures
        s.gameplay(event, now).world.animals.len() == s.animals.len(),
        forall|i: int|
            0 <= i < s.animals.len() ==> {
                let before = s.animals[i];
                let after = #[trigger] s.gameplay(event, now).world.animals[i];
                &&& after.stat == before.stat
                &&& after.hp <= before.hp
                &&& (s.gameplay(event, now).world.current_turn == s.current_turn
                    ==> after.mobility_remaining <= before.mobility_remaining)
                &&& (s.gameplay(event, now).world.current_turn != s.current_turn
                    ==> after.mobility_remaining == after.stat.mobility)
            },
{
    let played = s.play(event, now).world;
    let after = s.gameplay(event, now).world;
    match event {
        Some(Event { player_id, action: Action::Move(cmd) }) => {
            lemma_first_where(s.animals, acting_of(player_id));
        },
        Some(Event { player_id, action: Action::Damage(cmd) }) => {
            if played != s {
                lemma_first_where(s.animals, acting_of(player_id));
                let x = cmd.position->0.x as int;
                let y = canonical_row(cmd.position->0.y as int, s.is_second(player_id));
                lemma_first_where(s.animals, foe_on(player_id, x, y));
                let i = s.striker(player_id)->0;
                let j = s.victim(player_id, x, y)->0;
                lemma_damage_bounds(
                    s.animals[i].stat.damage as int,
                    s.animals[j].stat.resistance_pct as int,
                );
            }
        },
        Some(Event { player_id, action: Action::EndTurn }) => {
            if s.phase == Phase::Game && player_id == s.current_turn {
                lemma_pass_wf(s, now);
            }
        },
        _ => {},
    }
    lemma_gameplay_wf(s, event, now);
    if played.phase == Phase::Game && played.expired(now) {
        lemma_play_wf(s, event, now);
        lemma_pass_wf(played, now);
    }
}

/// The damage that a response reports, where it reports any.
pub open spec fn damage_told(r: Reply) -> int {
    match r.res {
        Ok(CommandView::Damaged { damage, .. }) => damage as int,
        _ => 0,
    }
}

/// A strike never deals negative damage: whatever `Damaged` response the
/// handler emits carries a damage of at least zero.
pub proof fn law_damage_not_negative(s: WorldState, player: i32, target: Option<Position>)
    requires
        s.wf(),
    ensures
        forall|k: int|
            0 <= k < s.damage(player, target).responses.len() ==> damage_told(
                #[trigger] s.damage(player, target).responses[k],
            ) >= 0,
{
    let out = s.damage(player, target);
    if out.world != s {
        lemma_first_where(s.animals, acting_of(player));
        let x = target->0.x as int;
        let y = canonical_row(target->0.y as int, s.is_second(player));
        lemma_first_where(s.animals, foe_on(player, x, y));
        let i = s.striker(player)->0;
        let j = s.victim(player, x, y)->0;
        lemma_damage_bounds(
            s.animals[i].stat.damage as int,
            s.animals[j].stat.resistance_pct as int,
        );
    } else {
        if s.phase == Phase::Game && target is Some && player == s.current_turn && s.striker(
            player,
        ) is Some {
            lemma_first_where(s.animals, acting_of(player));
            let x = target->0.x as int;
            let y = canonical_row(target->0.y as int, s.is_second(player));
            let i = s.striker(player)->0;
            let from = s.animals[i].position->0;
            if adjacent(from.x as int, from.y as int, x, y) && s.victim(player, x, y) is Some {
                lemma_first_where(s.animals, foe_on(player, x, y));
                let j = s.victim(player, x, y)->0;
                lemma_damage_bounds(
                    s.animals[i].stat.damage as int,
                    s.animals[j].stat.resistance_pct as int,
                );
            }
        }
    }
}

/// In the game phase the preparations of a run do nothing: the run is its
/// gameplay followed by the sweep.
pub proof fn law_run_of_the_game(s: WorldState, event: Option<Event>, now: i64, after: Outcome)
    requires
        s.phase == Phase::Game,
        s.runs(event, now, after),
    ensures
        after == s.gameplay(event, now).followed_by(s.gameplay(event, now).world.death()),
{
    let p = choose|p: Outcome|
        {
            &&& #[trigger] s.preparations(event, now, p)
            &&& after == p.followed_by(p.world.gameplay(event, now)).followed_by(
                p.world.gameplay(event, now).world.death(),
            )
        };
    let (a, c) = choose|a: Outcome, c: Outcome|
        {
            &&& #[trigger] s.pick_timeout(now, a)
            &&& #[trigger] a.world.prepare(event, now).world.place_timeout(now, c)
            &&& p == a.followed_by(a.world.prepare(event, now)).followed_by(c)
        };
}

/// A match that is over stays as it is: no run of the pipeline changes it,
/// and none has anything to tell.
pub proof fn law_terminal_is_final(s: WorldState, event: Option<Event>, now: i64, after: Outcome)
    requires
        s.phase == Phase::Terminal,
        s.runs(event, now, after),
    ensures
        after == s.idle(),
{
    let p = choose|p: Outcome|
        {
            &&& #[trigger] s.preparations(event, now, p)
            &&& after == p.followed_by(p.world.gameplay(event, now)).followed_by(
                p.world.gameplay(event, now).world.death(),
            )
        };
    let (a, c) = choose|a: Outcome, c: Outcome|
        {
            &&& #[trigger] s.pick_timeout(now, a)
            &&& #[trigger] a.world.prepare(event, now).world.place_timeout(now, c)
            &&& p == a.followed_by(a.world.prepare(event, now)).followed_by(c)
        };
}

/// A report of readiness that is repeated changes nothing and tells
/// nobody, whenever the two reports arrive: sending it twice is sending it
/// once.
pub proof fn law_ready_twice(s: WorldState, player: i32, first: i64, again: i64)
    ensures
        s.ready(player, first).world.ready(player, again) == s.ready(player, first).world.idle(),
{
    let once = s.ready(player, first).world;
    assert(once.ready(player, again) =~~= once.idle());
}

/// Once both players are ready, no report of readiness, whoever sends it,
/// moves the deadline or is answered.
pub proof fn law_ready_is_settled(s: WorldState, player: i32, now: i64)
    requires
        s.all_ready(),
    ensures
        s.ready(player, now) == s.idle(),
{
    assert(s.ready(player, now) =~~= s.idle());
}

/// A pick by the player whose turn it is not is refused: the player alone
/// is told, and the match stays as it is.
pub proof fn law_pick_out_of_turn(s: WorldState, player: i32, id: i32, now: i64)
    requires
        s.phase == Phase::Pick,
        player != s.current_turn,
    ensures
        s.pick(player, id, now).world == s,
        s.pick(player, id, now).responses == seq![
            refusal(player, BattleError::AnimalUnavailable),
        ],
{
}

/// A move of the animal in use to the cell it stands on is made: it costs
/// nothing and changes nothing, and both players are told of it.
pub proof fn law_move_in_place(s: WorldState, player: i32, target: Position)
    requires
        s.wf(),
        s.phase == Phase::Game,
        player == s.current_turn,
        s.active(player) is Some,
        target.in_bounds(),
        Some(target.canonical(s.is_second(player))) == s.animals[s.active(player)->0].position,
    ensures
        s.move_animal(player, Some(target)).world == s,
        s.move_animal(player, Some(target)).responses == s.moved(
            player,
            s.animals[s.active(player)->0].stat.id,
            target.canonical(s.is_second(player)),
            0,
        ),
{
    lemma_first_where(s.animals, acting_of(player));
    let i = s.active(player)->0;
    let a = s.animals[i];
    let to = target.canonical(s.is_second(player));
}

/// A strike at a cell that is not orthogonally adjacent to the attacker, be
/// it a diagonal neighbour or a cell further away, is refused: the player
/// alone is told, and the match stays as it is.
pub proof fn law_strike_out_of_reach(s: WorldState, player: i32, target: Position)
    requires
        s.phase == Phase::Game,
        player == s.current_turn,
        s.striker(player) is Some,
        !adjacent(
            s.animals[s.striker(player)->0].position->0.x as int,
            s.animals[s.striker(player)->0].position->0.y as int,
            target.x as int,
            canonical_row(target.y as int, s.is_second(player)),
        ),
    ensures
        s.damage(player, Some(target)).world == s,
        s.damage(player, Some(target)).responses == seq![
            refusal(player, BattleError::CannotHitThere),
        ],
{
}

/// A strike reaches exactly the four cells at Manhattan distance one: never a
/// diagonal neighbour, never a cell further away, never the attacker's own
/// cell.
pub proof fn law_reach_of_a_strike(ax: int, ay: int, bx: int, by: int)
    ensures
        adjacent(ax, ay, bx, by) <==> ((ax == bx && (by == ay + 1 || by == ay - 1)) || (ay == by
            && (bx == ax + 1 || bx == ax - 1))),
        ax != bx && ay != by ==> !adjacent(ax, ay, bx, by),
        manhattan(ax, ay, bx, by) > 1 ==> !adjacent(ax, ay, bx, by),
        adjacent(ax, ay, bx, by) == adjacent(bx, by, ax, ay),
{
}

/// Three cells, no two the same, are empty cells of the half of the first
/// (`second == false`) or of the second player.
pub open spec fn three_free(s: WorldState, second: bool, a: Position, b: Position, c: Position)
    -> bool {
    &&& a != b && a != c && b != c
    &&& s.free_at(second, a)
    &&& s.free_at(second, b)
    &&& s.free_at(second, c)
}

/// A draw for a player with waiting animals, from a half with three empty
/// cells, has a cell for every animal of a team.
pub proof fn lemma_draw_of_three(
    s: WorldState,
    player: i32,
    cells: Seq<Position>,
    a: Position,
    b: Position,
    c: Position,
)
    requires
        s.drawn(player, cells),
        s.waiting(player) > 0,
        three_free(s, s.is_second(player), a, b, c),
    ensures
        cells.len() == TEAM_SIZE,
{
    let free = choose|free: Seq<Position>|
        {
            &&& #[trigger] s.lists_free(player, free)
            &&& drawn_from(free, cells)
            &&& cells.len() == if free.len() < TEAM_SIZE {
                free.len()
            } else {
                TEAM_SIZE as nat
            }
        };
    let i = choose|i: int| 0 <= i < free.len() && free[i] == a;
    let k = choose|k: int| 0 <= k < free.len() && free[k] == c;
}

/// Seating the animals of a player on a whole team's worth of cells leaves
/// none of them waiting.
pub proof fn lemma_seat_all(s: WorldState, player: i32, cells: Seq<Position>)
    requires
        s.wf(),
        s.phase == Phase::Placement,
        cells.len() == TEAM_SIZE,
    ensures
        forall|i: int|
            0 <= i < s.animals.len() && s.animals[i].owner == player ==> (#[trigger] s.seat(
                player,
                cells,
            ).animals[i]).position is Some,
{
    assert forall|i: int| 0 <= i < s.animals.len() && s.animals[i].owner == player implies (
    #[trigger] s.seat(player, cells).animals[i]).position is Some by {
        if s.animals[i].position is None {
            lemma_rank_grows(s, player, i, s.animals.len() as int);
            assert(s.animals.take(s.animals.len() as int) =~= s.animals);
            lemma_filter_fewer(
                s.animals,
                waiting_of(player),
                owned_by(player),
            );
        }
    }
}

/// Every animal that an overdue placement seats stands in the half of its
/// owner, on a cell on which nothing stood; every other animal stays where
/// it is.
pub proof fn law_seated_in_own_half(s: WorldState, now: i64, after: Outcome)
    requires
        s.wf(),
        timely(now),
        s.place_timeout(now, after),
    ensures
        after.world.animals.len() == s.animals.len(),
        forall|i: int|
            0 <= i < s.animals.len() ==> {
                let before = s.animals[i];
                let seated = #[trigger] after.world.animals[i];
                &&& seated.owner == before.owner
                &&& seated.stat == before.stat
                &&& (before.position is Some ==> seated.position == before.position)
                &&& (before.position is None && seated.position is Some ==> {
                    &&& seated.position->0.in_half(s.is_second(seated.owner))
                    &&& s.empty_at(seated.position->0)
                })
            },
{
    if s.place_due(now) {
        let (first, second) = choose|first: Seq<Position>, second: Seq<Position>|
            {
                &&& s.drawn(s.player1, first)
                &&& s.seat(s.player1, first).drawn(s.player2, second)
                &&& after == #[trigger] s.place_with(first, second, now)
            };
        let mid = s.seat(s.player1, first);
        lemma_drawn_fits(s, s.player1, first);
        lemma_seat_wf(s, s.player1, first);
        lemma_drawn_fits(mid, s.player2, second);
        let last = mid.seat(s.player2, second);
        assert forall|i: int| 0 <= i < s.animals.len() implies {
            let before = s.animals[i];
            let seated = #[trigger] after.world.animals[i];
            &&& seated.owner == before.owner
            &&& seated.stat == before.stat
            &&& (before.position is Some ==> seated.position == before.position)
            &&& (before.position is None && seated.position is Some ==> {
                &&& seated.position->0.in_half(s.is_second(seated.owner))
                &&& s.empty_at(seated.position->0)
            })
        } by {
            let before = s.animals[i];
            if before.position is None && last.animals[i].position is Some {
                if before.owner == s.player1 {
                } else {
                    let c = second[mid.rank(s.player2, i) as int];
                    if s.animal_at(c) {
                        let k = choose|k: int|
                            0 <= k < s.animals.len() && (#[trigger] s.animals[k]).position
                                == Some(c);
                        assert(mid.animals[k].position == Some(c));
                    }
                }
            }
        }
    }
}

/// An overdue placement seats every waiting animal, provided that the half
/// of each player with waiting animals has three empty cells: then no
/// animal waits any more, and the game begins.
pub proof fn law_all_seated(
    s: WorldState,
    now: i64,
    after: Outcome,
    near: (Position, Position, Position),
    far: (Position, Position, Position),
)
    requires
        s.wf(),
        timely(now),
        s.place_due(now),
        s.place_timeout(now, after),
        s.waiting(s.player1) > 0 ==> three_free(s, false, near.0, near.1, near.2),
        s.waiting(s.player2) > 0 ==> three_free(s, true, far.0, far.1, far.2),
    ensures
        !after.world.placing(),
        s.placing() ==> after.world.phase == Phase::Game,
{
    let (first, second) = choose|first: Seq<Position>, second: Seq<Position>|
        {
            &&& s.drawn(s.player1, first)
            &&& s.seat(s.player1, first).drawn(s.player2, second)
            &&& after == #[trigger] s.place_with(first, second, now)
        };
    let mid = s.seat(s.player1, first);
    lemma_drawn_fits(s, s.player1, first);
    lemma_seat_wf(s, s.player1, first);
    lemma_drawn_fits(mid, s.player2, second);
    let last = mid.seat(s.player2, second);
    lemma_filter_agree(
        s.animals,
        mid.animals,
        waiting_of(s.player2),
    );
    if s.waiting(s.player1) > 0 {
        lemma_draw_of_three(s, s.player1, first, near.0, near.1, near.2);
        lemma_seat_all(s, s.player1, first);
    }
    if s.waiting(s.player2) > 0 {
        lemma_draw_of_three(mid, s.player2, second, far.0, far.1, far.2);
        lemma_seat_all(mid, s.player2, second);
    }
    assert forall|i: int| 0 <= i < last.animals.len() implies (
    #[trigger] last.animals[i]).position is Some by {
        let a = s.animals[i];
        if a.position is None {
            if a.owner == s.player1 {
                assert(s.animals.filter(waiting_of(s.player1)).len() > 0) by {
                    lemma_rank_grows(
                        s,
                        s.player1,
                        i,
                        s.animals.len() as int,
                    );
                    assert(s.animals.take(s.animals.len() as int) =~= s.animals);
                }
            } else {
                assert(s.animals.filter(waiting_of(s.player2)).len() > 0) by {
                    lemma_rank_grows(
                        s,
                        s.player2,
                        i,
                        s.animals.len() as int,
                    );
                    assert(s.animals.take(s.animals.len() as int) =~= s.animals);
                }
            }
        }
    }
    if s.placing() {
        let w = choose|i: int| 0 <= i < s.animals.len() && (#[trigger] s.animals[i]).position is None;
        if s.animals[w].owner == s.player1 {
            lemma_rank_grows(s, s.player1, w, s.animals.len() as int);
            assert(s.animals.take(s.animals.len() as int) =~= s.animals);
        } else {
            lemma_rank_grows(s, s.player2, w, s.animals.len() as int);
        }
    }
}

// -------------------------------------------------------------------
// The fan-out

/// A player observes nothing but the results of responses that name it as
/// a receiver: a response that does not name it is never observed by it.
pub proof fn law_fan_out(out: Seq<Reply>, player: i32)
    ensures
        forall|k: int|
            0 <= k < observed(out, player).len() ==> exists|i: int|
                0 <= i < out.len() && (#[trigger] out[i]).receivers.contains(player) && out[i].res
                    == #[trigger] observed(out, player)[k],
        (forall|i: int| 0 <= i < out.len() ==> !(#[trigger] out[i]).receivers.contains(player))
            ==> observed(out, player).len() == 0,
    decreases out.len(),
{
    reveal(Seq::filter);
    if out.len() > 0 {
        let rest = out.drop_last();
        law_fan_out(rest, player);
        let fewer = rest.filter(addressed_to(player));
        assert forall|k: int| 0 <= k < observed(out, player).len() implies exists|i: int|
            0 <= i < out.len() && (#[trigger] out[i]).receivers.contains(player) && out[i].res
                == #[trigger] observed(out, player)[k] by {
            if k < fewer.len() {
                let i = choose|i: int|
                    0 <= i < rest.len() && (#[trigger] rest[i]).receivers.contains(player)
                        && rest[i].res == observed(rest, player)[k];
            }
        }
    }
}

// -------------------------------------------------------------------
// The matchmaker

/// Where the rating of a waiting player lies within the window of another,
/// a round of pairing pairs at least one of the two.
pub proof fn law_pair_is_made(
    before: Map<i32, Player>,
    after: Map<i32, Player>,
    found: Seq<Match>,
    maps: Seq<GameMap>,
    now: i64,
    p: i32,
    q: i32,
)
    requires
        paired_off(before, after, found, maps, now),
        eligible(before, p, q, now),
    ensures
        paired(found, p) || paired(found, q),
{
    if after.contains_key(p) && after.contains_key(q) {
        assert(eligible(after, p, q, now));
        assert(lonely(after, p, now));
    }
}

/// Where just two players wait, and the rating of one lies within the
/// window of the other, a round of pairing pairs the two with each other.
pub proof fn law_two_players_meet(
    before: Map<i32, Player>,
    after: Map<i32, Player>,
    found: Seq<Match>,
    maps: Seq<GameMap>,
    now: i64,
    p: i32,
    q: i32,
)
    requires
        paired_off(before, after, found, maps, now),
        before.dom() =~= set![p, q],
        eligible(before, p, q, now) || eligible(before, q, p, now),
    ensures
        found.len() == 1,
        (found[0]@.player1 == p && found[0]@.player2 == q) || (found[0]@.player1 == q
            && found[0]@.player2 == p),
        !after.contains_key(p),
        !after.contains_key(q),
{
    if eligible(before, p, q, now) {
        law_pair_is_made(before, after, found, maps, now, p, q);
    } else {
        law_pair_is_made(before, after, found, maps, now, q, p);
    }
    if found.len() >= 2 {
        let a = (#[trigger] found[0])@;
        let b = (#[trigger] found[1])@;
    }
}

/// A player that was paired is paired again by no later round, unless it
/// joined again in between: a round pairs waiting players only, and a
/// paired player waits no more.
pub proof fn law_paired_once(
    before: Map<i32, Player>,
    between: Map<i32, Player>,
    after: Map<i32, Player>,
    found: Seq<Match>,
    later: Seq<Match>,
    maps: Seq<GameMap>,
    now: i64,
    afterwards: i64,
    id: i32,
)
    requires
        paired_off(before, between, found, maps, now),
        paired_off(between, after, later, maps, afterwards),
        paired(found, id),
    ensures
        !between.contains_key(id),
        !paired(later, id),
{
}

/// A player that joins and then leaves waits no more: the queue is as if it
/// had left without joining, and no later round of pairing pairs it.
pub proof fn law_join_then_leave(
    queue: Map<i32, Player>,
    id: i32,
    rating: Rating,
    joined: i64,
    left: i64,
    after: Map<i32, Player>,
    found: Seq<Match>,
    maps: Seq<GameMap>,
    now: i64,
)
    requires
        paired_off(
            told(
                told(queue, MatchmakerMessage::JoinMatchmaking { id, rating }, joined),
                MatchmakerMessage::LeaveMatchmaking { id },
                left,
            ),
            after,
            found,
            maps,
            now,
        ),
    ensures
        told(
            told(queue, MatchmakerMessage::JoinMatchmaking { id, rating }, joined),
            MatchmakerMessage::LeaveMatchmaking { id },
            left,
        ) == queue.remove(id),
        !paired(found, id),
{
}

} // verus!
