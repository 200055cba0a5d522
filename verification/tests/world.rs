use animal_combat::catalog::{AnimalCatalog, AnimalStat, GameMap, GameObject, GameObjectType};
use animal_combat::grid::Position;
use animal_combat::matchmaking::Match;
use animal_combat::protocol::{
    Action, AnimalPlaced, BattleError, Command, DamageAnimal, Event, MoveAnimal, Phase,
    PickAnimal, PlaceAnimal, PlaceAnimals, Response, StatusCode, UseAnimal,
};
use animal_combat::state::{Animal, Stage, PICK_COUNT, PICK_TIME, PLACE_TIME, TEAM_SIZE, TURN_TIME};
use animal_combat::world::World;

const ANN: i32 = 1;
const BOB: i32 = 2;
const T0: i64 = 1_000;

fn stat(id: i32, hp: i32, damage: i32, resistance_pct: i32, mobility: i32) -> AnimalStat {
    AnimalStat { id, hp, damage, resistance_pct, mobility, action_points: 3, ap_per_turn: 100 }
}

fn zoo() -> AnimalCatalog {
    AnimalCatalog::new(vec![
        stat(1, 20, 10, 0, 5),
        stat(2, 15, 6, 50, 4),
        stat(3, 12, 4, 25, 3),
        stat(4, 8, 8, 0, 6),
        stat(5, 30, 3, 100, 2),
        stat(6, 10, 7, 30, 3),
        stat(7, 9, 9, 10, 30),
        stat(8, 7, 2, 0, 1),
    ])
    .unwrap()
}

fn rocky_map() -> GameMap {
    GameMap::new(
        "rocks".to_string(),
        vec![
            GameObject { x: 3, y: 23, kind: GameObjectType::Solid, sprite: None },
            GameObject { x: 3, y: 5, kind: GameObjectType::Water, sprite: None },
            GameObject { x: 6, y: 6, kind: GameObjectType::Walkable, sprite: None },
        ],
    )
    .unwrap()
}

fn new_world(first: bool) -> World {
    let m = Match::new(ANN, BOB, rocky_map()).unwrap();
    World::starting_with(&m, zoo(), first, T0)
}

fn both(command: Command) -> Response {
    Response { receivers: vec![ANN, BOB], res: Ok(command) }
}

fn refused(player: i32, error: BattleError) -> Response {
    Response { receivers: vec![player], res: Err(error) }
}

fn entry(animal_id: i32, x: i32, y: i32) -> PlaceAnimal {
    PlaceAnimal { animal_id, position: Some(Position::new(x, y)) }
}

fn at(x: i32, y: i32) -> Option<Position> {
    Some(Position::new(x, y))
}

/// Both ready, then `picks` in the order ANN, BOB, BOB, ANN, ANN, BOB.
fn picked_world(picks: [i32; 6]) -> World {
    let mut w = new_world(true);
    w.ready(ANN, T0);
    w.ready(BOB, T0);
    let pickers = [ANN, BOB, BOB, ANN, ANN, BOB];
    for k in 0..6 {
        let out = w.pick(pickers[k], picks[k], T0);
        assert!(out[0].res.is_ok());
    }
    assert_eq!(w.phase(), Phase::Placement);
    w
}

/// ANN owns 1, 2, 3 on (0,11), (1,11), (2,11); BOB owns 4, 5, 6 on (0,12),
/// (1,12), (2,12); it is BOB's turn.
fn game_world() -> World {
    let mut w = picked_world([1, 4, 5, 2, 3, 6]);
    assert!(w.place(ANN, &vec![entry(1, 0, 11), entry(2, 1, 11), entry(3, 2, 11)], T0).is_empty());
    let out = w.place(BOB, &vec![entry(4, 0, 11), entry(5, 1, 11), entry(6, 2, 11)], T0);
    assert_eq!(out.len(), 3);
    assert_eq!(w.phase(), Phase::Game);
    assert_eq!(w.current_turn(), BOB);
    w
}

fn animal(w: &World, id: i32) -> Animal {
    *w.animals().iter().find(|a| a.stat.id == id).unwrap()
}

#[test]
fn constants_are_the_reference_values() {
    assert_eq!(PICK_TIME, 30);
    assert_eq!(PLACE_TIME, 60);
    assert_eq!(TURN_TIME, 60);
    assert_eq!(PICK_COUNT, 6);
    assert_eq!(TEAM_SIZE, 3);
}

#[test]
fn new_world_is_in_the_pick_phase() {
    let w = new_world(true);
    assert_eq!(w.phase(), Phase::Pick);
    assert_eq!(w.current_turn(), ANN);
    assert_eq!(w.deadline(), T0);
    assert_eq!((w.player1(), w.player2()), (ANN, BOB));
    assert!(!w.all_ready());
    assert!(w.animals().is_empty());
    assert_eq!(
        w.obstacles(),
        &vec![Position::new(3, 23), Position::new(3, 5), Position::new(6, 6)]
    );
    assert_eq!(new_world(false).current_turn(), BOB);
    assert!(w.has_player(ANN) && w.has_player(BOB) && !w.has_player(3));
}

#[test]
fn new_world_draws_who_picks_first() {
    let m = Match::new(ANN, BOB, rocky_map()).unwrap();
    let mut seen = Vec::new();
    for _ in 0..200 {
        let w = World::new(&m, zoo(), T0);
        assert!(w.current_turn() == ANN || w.current_turn() == BOB);
        if !seen.contains(&w.current_turn()) {
            seen.push(w.current_turn());
        }
    }
    assert_eq!(seen.len(), 2);
}

#[test]
fn ready_of_one_player_tells_nobody() {
    let mut w = new_world(true);
    assert!(w.ready(ANN, T0).is_empty());
    assert!(!w.all_ready());
    assert_eq!(w.deadline(), T0);
}

#[test]
fn ready_of_both_players_starts_the_pick() {
    let mut w = new_world(true);
    w.ready(BOB, T0);
    let out = w.ready(ANN, T0 + 5);
    assert_eq!(
        out,
        vec![both(Command::TurnToPick { player_id: Some(ANN), deadline: T0 + 5 + 30 })]
    );
    assert!(w.all_ready());
    assert_eq!(w.deadline(), T0 + 35);
}

#[test]
fn ready_twice_is_ready_once() {
    let mut once = new_world(true);
    once.ready(ANN, T0);
    let mut twice = new_world(true);
    twice.ready(ANN, T0);
    assert!(twice.ready(ANN, T0 + 9).is_empty());
    assert_eq!(twice.all_ready(), once.all_ready());
    assert_eq!(twice.deadline(), once.deadline());
    assert_eq!(twice.phase(), once.phase());
    assert_eq!(twice.current_turn(), once.current_turn());

    assert_eq!(once.ready(BOB, T0 + 10).len(), 1);
    assert_eq!(twice.ready(BOB, T0 + 10).len(), 1);
    assert!(twice.ready(BOB, T0 + 25).is_empty());
    assert_eq!(twice.all_ready(), once.all_ready());
    assert_eq!(twice.deadline(), once.deadline());
    assert_eq!(twice.deadline(), T0 + 10 + 30);
    assert_eq!(twice.current_turn(), once.current_turn());
}

#[test]
fn ready_after_both_are_ready_moves_no_deadline() {
    let mut w = new_world(true);
    w.ready(ANN, T0);
    w.ready(BOB, T0);
    assert_eq!(w.deadline(), T0 + 30);
    for (player, later) in [(ANN, 1), (BOB, 7), (ANN, 29), (77, 12), (BOB, 1_000)] {
        assert!(w.ready(player, T0 + later).is_empty());
        assert_eq!(w.deadline(), T0 + 30);
        assert!(w.all_ready());
    }
    w.pick(ANN, 1, T0 + 5);
    assert_eq!(w.deadline(), T0 + 35);
    assert!(w.ready(BOB, T0 + 20).is_empty());
    assert!(w.ready(ANN, T0 + 20).is_empty());
    assert_eq!(w.deadline(), T0 + 35);
    assert_eq!(w.current_turn(), BOB);
    assert_eq!(w.animals().len(), 1);
}

#[test]
fn ready_of_a_stranger_marks_nobody() {
    let mut w = new_world(true);
    assert!(w.ready(77, T0).is_empty());
    assert!(!w.all_ready());
}

#[test]
fn picks_go_in_abba_order_and_open_the_placement() {
    let mut w = new_world(true);
    w.ready(ANN, T0);
    w.ready(BOB, T0);
    let order = [(ANN, 1, Some(BOB)), (BOB, 4, Some(BOB)), (BOB, 5, Some(ANN)), (ANN, 2, Some(ANN)),
        (ANN, 3, Some(BOB))];
    let mut now = T0;
    for (player, id, next) in order {
        now += 1;
        assert_eq!(w.current_turn(), player);
        let out = w.pick(player, id, now);
        assert_eq!(
            out,
            vec![
                both(Command::Picked { animal_id: id, player_id: player }),
                both(Command::TurnToPick { player_id: next, deadline: now + 30 }),
            ]
        );
        assert_eq!(w.deadline(), now + 30);
        assert_eq!(w.phase(), Phase::Pick);
    }
    let out = w.pick(BOB, 6, T0 + 10);
    assert_eq!(
        out,
        vec![
            both(Command::Picked { animal_id: 6, player_id: BOB }),
            both(Command::SetState { state: Phase::Placement }),
            both(Command::TurnToPick { player_id: None, deadline: T0 + 10 + 60 }),
        ]
    );
    assert_eq!(w.phase(), Phase::Placement);
    assert_eq!(w.deadline(), T0 + 70);
    assert_eq!(w.count_owned(ANN), 3);
    assert_eq!(w.count_owned(BOB), 3);
    let owners: Vec<i32> = w.animals().iter().map(|a| a.owner).collect();
    assert_eq!(owners, vec![ANN, BOB, BOB, ANN, ANN, BOB]);
}

#[test]
fn picked_animal_has_the_stats_of_the_catalog() {
    let mut w = new_world(true);
    w.pick(ANN, 2, T0);
    assert_eq!(
        w.animals()[0],
        Animal {
            owner: ANN,
            stat: stat(2, 15, 6, 50, 4),
            hp: 15,
            mobility_remaining: 4,
            position: None,
            used: false,
            hit: false,
        }
    );
}

#[test]
fn pick_out_of_turn_is_refused_and_changes_nothing() {
    let mut w = new_world(true);
    let out = w.pick(BOB, 1, T0 + 3);
    assert_eq!(out, vec![refused(BOB, BattleError::AnimalUnavailable)]);
    assert!(w.animals().is_empty());
    assert_eq!(w.current_turn(), ANN);
    assert_eq!(w.deadline(), T0);
    assert_eq!(w.phase(), Phase::Pick);
}

#[test]
fn pick_of_an_unknown_or_taken_animal_is_refused() {
    let mut w = new_world(true);
    assert_eq!(w.pick(ANN, 99, T0), vec![refused(ANN, BattleError::AnimalUnavailable)]);
    w.pick(ANN, 1, T0);
    assert_eq!(w.pick(BOB, 1, T0), vec![refused(BOB, BattleError::AnimalUnavailable)]);
    assert_eq!(w.animals().len(), 1);
    assert_eq!(w.pick(77, 2, T0), vec![refused(77, BattleError::AnimalUnavailable)]);
}

#[test]
fn pick_after_the_pick_phase_is_ignored() {
    let mut w = picked_world([1, 4, 5, 2, 3, 6]);
    assert!(w.pick(BOB, 7, T0).is_empty());
    assert_eq!(w.animals().len(), 6);
}

#[test]
fn overdue_pick_is_made_by_the_engine() {
    let mut w = new_world(true);
    w.ready(ANN, T0);
    w.ready(BOB, T0);
    w.pick(ANN, 1, T0 + 1);
    assert!(w.pick_timeout(T0 + 30).is_empty());
    let out = w.pick_timeout(T0 + 31);
    assert_eq!(out.len(), 2);
    let drawn = match &out[0] {
        Response { receivers, res: Ok(Command::Picked { animal_id, player_id }) } => {
            assert_eq!(receivers, &vec![ANN, BOB]);
            assert_eq!(*player_id, BOB);
            *animal_id
        }
        other => panic!("no pick: {:?}", other),
    };
    assert!((2..=8).contains(&drawn));
    assert_eq!(out[1], both(Command::TurnToPick { player_id: Some(BOB), deadline: T0 + 61 }));
    assert_eq!(w.animals().len(), 2);
    assert_eq!(w.animals()[1].owner, BOB);
    assert_eq!(w.animals()[1].stat.id, drawn);
    assert_eq!(w.current_turn(), BOB);
    assert_eq!(w.deadline(), T0 + 61);
}

#[test]
fn overdue_pick_waits_for_both_players_to_be_ready() {
    let mut w = new_world(true);
    w.ready(ANN, T0);
    assert!(w.pick_timeout(T0 + 1_000).is_empty());
    assert!(w.animals().is_empty());
}

#[test]
fn overdue_picks_fill_both_teams_with_distinct_animals() {
    let mut w = new_world(false);
    w.ready(ANN, T0);
    w.ready(BOB, T0);
    let mut now = T0;
    let mut rounds = 0;
    while w.phase() == Phase::Pick {
        now += 30;
        let out = w.pick_timeout(now);
        assert!(!out.is_empty());
        rounds += 1;
    }
    assert_eq!(rounds, 6);
    assert_eq!(w.count_owned(ANN), 3);
    assert_eq!(w.count_owned(BOB), 3);
    let mut ids: Vec<i32> = w.animals().iter().map(|a| a.stat.id).collect();
    ids.sort();
    ids.dedup();
    assert_eq!(ids.len(), 6);
    assert_eq!(w.deadline(), now + 60);
}

#[test]
fn overdue_pick_does_nothing_when_the_catalog_is_exhausted() {
    let m = Match::new(ANN, BOB, rocky_map()).unwrap();
    let small = AnimalCatalog::new(vec![stat(1, 20, 10, 0, 5)]).unwrap();
    let mut w = World::starting_with(&m, small, true, T0);
    w.ready(ANN, T0);
    w.ready(BOB, T0);
    assert_eq!(w.pick_timeout(T0 + 30).len(), 2);
    assert!(w.pick_timeout(T0 + 100).is_empty());
    assert_eq!(w.animals().len(), 1);
}

#[test]
fn first_placement_is_silent_and_second_begins_the_game() {
    let mut w = picked_world([1, 4, 5, 2, 3, 6]);
    let out = w.place(ANN, &vec![entry(1, 0, 0), entry(2, 1, 0), entry(3, 2, 0)], T0 + 1);
    assert!(out.is_empty());
    assert_eq!(w.phase(), Phase::Placement);
    assert_eq!(animal(&w, 2).position, Some(Position::new(1, 0)));
    let out = w.place(BOB, &vec![entry(6, 2, 0), entry(4, 0, 0), entry(5, 1, 0)], T0 + 2);
    assert_eq!(
        out,
        vec![
            both(Command::Placed {
                animals: vec![
                    AnimalPlaced { player_id: ANN, animal_id: 1, position: Position::new(0, 0) },
                    AnimalPlaced { player_id: BOB, animal_id: 4, position: Position::new(0, 23) },
                    AnimalPlaced { player_id: BOB, animal_id: 5, position: Position::new(1, 23) },
                    AnimalPlaced { player_id: ANN, animal_id: 2, position: Position::new(1, 0) },
                    AnimalPlaced { player_id: ANN, animal_id: 3, position: Position::new(2, 0) },
                    AnimalPlaced { player_id: BOB, animal_id: 6, position: Position::new(2, 23) },
                ],
            }),
            both(Command::SetState { state: Phase::Game }),
            both(Command::TurnToPick { player_id: Some(BOB), deadline: T0 + 2 + 60 }),
        ]
    );
    assert_eq!(w.phase(), Phase::Game);
    assert_eq!(w.deadline(), T0 + 62);
    assert!(!w.is_placing());
}

#[test]
fn placement_of_the_second_player_is_mirrored() {
    let mut w = picked_world([1, 4, 5, 2, 3, 6]);
    let out = w.place(BOB, &vec![entry(4, 3, 0), entry(5, 1, 0), entry(6, 2, 0)], T0);
    assert_eq!(out, vec![refused(BOB, BattleError::BadPlacement)]);
    assert_eq!(animal(&w, 4).position, None);
    let out = w.place(BOB, &vec![entry(4, 3, 1), entry(5, 1, 0), entry(6, 2, 0)], T0);
    assert!(out.is_empty());
    assert_eq!(animal(&w, 4).position, Some(Position::new(3, 22)));
    assert_eq!(animal(&w, 5).position, Some(Position::new(1, 23)));
}

#[test]
fn placement_that_breaks_a_rule_is_refused() {
    let tries: Vec<Vec<PlaceAnimal>> = vec![
        vec![entry(1, 0, 0), entry(2, 1, 0)],
        vec![entry(1, 0, 0), entry(2, 1, 0), entry(3, 2, 0), entry(3, 4, 0)],
        vec![entry(1, 0, 0), entry(2, 1, 0), entry(4, 2, 0)],
        vec![entry(1, 0, 0), entry(2, 1, 0), entry(7, 2, 0)],
        vec![entry(1, 0, 0), entry(2, 1, 0), entry(2, 2, 0)],
        vec![entry(1, 0, 0), entry(2, 1, 0), entry(3, 1, 0)],
        vec![entry(1, 0, 0), entry(2, 1, 0), entry(3, 7, 0)],
        vec![entry(1, 0, 0), entry(2, 1, 0), entry(3, 0, 24)],
        vec![entry(1, 0, 0), entry(2, 1, 0), entry(3, -1, 0)],
        vec![entry(1, 0, 0), entry(2, 1, 0), entry(3, 3, 5)],
        vec![entry(1, 0, 0), entry(2, 1, 0), entry(3, 6, 6)],
        vec![entry(1, 0, 0), entry(2, 1, 0), PlaceAnimal { animal_id: 3, position: None }],
        vec![],
    ];
    for entries in tries {
        let mut w = picked_world([1, 4, 5, 2, 3, 6]);
        let out = w.place(ANN, &entries, T0);
        assert_eq!(out, vec![refused(ANN, BattleError::BadPlacement)], "{:?}", entries);
        assert!(w.animals().iter().all(|a| a.position.is_none()));
        assert_eq!(w.phase(), Phase::Placement);
    }
}

#[test]
fn placement_on_an_animal_of_the_other_player_is_refused() {
    let mut w = picked_world([1, 4, 5, 2, 3, 6]);
    w.place(ANN, &vec![entry(1, 0, 23), entry(2, 1, 0), entry(3, 2, 0)], T0);
    let out = w.place(BOB, &vec![entry(4, 0, 0), entry(5, 1, 5), entry(6, 2, 5)], T0);
    assert_eq!(out, vec![refused(BOB, BattleError::BadPlacement)]);
    assert_eq!(w.phase(), Phase::Placement);
}

#[test]
fn placement_twice_or_by_a_stranger_is_refused() {
    let mut w = picked_world([1, 4, 5, 2, 3, 6]);
    w.place(ANN, &vec![entry(1, 0, 0), entry(2, 1, 0), entry(3, 2, 0)], T0);
    let again = w.place(ANN, &vec![entry(1, 0, 1), entry(2, 1, 1), entry(3, 2, 1)], T0);
    assert_eq!(again, vec![refused(ANN, BattleError::BadPlacement)]);
    assert_eq!(animal(&w, 1).position, Some(Position::new(0, 0)));
    let stranger = w.place(9, &vec![entry(4, 0, 1), entry(5, 1, 1), entry(6, 2, 1)], T0);
    assert_eq!(stranger, vec![refused(9, BattleError::BadPlacement)]);
}

#[test]
fn placement_outside_the_placement_phase_is_ignored() {
    let mut w = new_world(true);
    assert!(w.place(ANN, &vec![entry(1, 0, 0), entry(2, 1, 0), entry(3, 2, 0)], T0).is_empty());
    let mut g = game_world();
    assert!(g.place(ANN, &vec![entry(1, 0, 0), entry(2, 1, 0), entry(3, 2, 0)], T0).is_empty());
    assert_eq!(animal(&g, 1).position, Some(Position::new(0, 11)));
}

#[test]
fn overdue_placement_seats_every_animal_in_its_own_half() {
    for _ in 0..20 {
        let mut w = picked_world([1, 4, 5, 2, 3, 6]);
        assert!(w.place_timeout(T0 + 59).is_empty());
        let out = w.place_timeout(T0 + 60);
        assert_eq!(out.len(), 3);
        match &out[0] {
            Response { receivers, res: Ok(Command::Placed { animals }) } => {
                assert_eq!(receivers, &vec![ANN, BOB]);
                assert_eq!(animals.len(), 6);
            }
            other => panic!("no placement: {:?}", other),
        }
        assert_eq!(out[1], both(Command::SetState { state: Phase::Game }));
        assert_eq!(out[2], both(Command::TurnToPick { player_id: Some(BOB), deadline: T0 + 120 }));
        assert_eq!(w.phase(), Phase::Game);
        let mut cells = Vec::new();
        for a in w.animals() {
            let p = a.position.unwrap();
            assert!(p.is_in_half(a.owner == BOB));
            assert!(!w.is_obstacle(p));
            assert!(!cells.contains(&p));
            cells.push(p);
        }
    }
}

#[test]
fn overdue_placement_seats_only_the_waiting_animals() {
    let mut w = picked_world([1, 4, 5, 2, 3, 6]);
    w.place(ANN, &vec![entry(1, 0, 0), entry(2, 1, 0), entry(3, 2, 0)], T0);
    let out = w.place_timeout(T0 + 60);
    assert_eq!(out.len(), 3);
    assert_eq!(animal(&w, 1).position, Some(Position::new(0, 0)));
    assert_eq!(animal(&w, 2).position, Some(Position::new(1, 0)));
    assert_eq!(animal(&w, 3).position, Some(Position::new(2, 0)));
    for id in [4, 5, 6] {
        assert!(animal(&w, id).position.unwrap().is_in_half(true));
    }
}

#[test]
fn overdue_placement_draws_its_cells_at_random() {
    let mut seen: Vec<Vec<Position>> = Vec::new();
    for _ in 0..40 {
        let mut w = picked_world([1, 4, 5, 2, 3, 6]);
        w.place_timeout(T0 + 60);
        let cells: Vec<Position> = w.animals().iter().map(|a| a.position.unwrap()).collect();
        if !seen.contains(&cells) {
            seen.push(cells);
        }
    }
    assert!(seen.len() > 1);
}

#[test]
fn free_cells_are_the_empty_cells_of_a_half() {
    let mut w = picked_world([1, 4, 5, 2, 3, 6]);
    let near = w.free_cells(false);
    assert_eq!(near.len(), 7 * 12 - 2);
    assert!(!near.contains(&Position::new(3, 5)));
    assert!(!near.contains(&Position::new(6, 6)));
    assert!(near.iter().all(|c| c.is_in_half(false)));
    let far = w.free_cells(true);
    assert_eq!(far.len(), 7 * 12 - 1);
    assert!(!far.contains(&Position::new(3, 23)));
    w.place(ANN, &vec![entry(1, 0, 0), entry(2, 1, 0), entry(3, 2, 12)], T0);
    assert_eq!(w.free_cells(false).len(), 7 * 12 - 4);
    assert_eq!(w.free_cells(true).len(), 7 * 12 - 2);
    assert!(w.is_occupied(Position::new(2, 12)));
    assert!(!w.is_empty(Position::new(2, 12)));
    assert!(w.is_empty(Position::new(2, 13)));
}

#[test]
fn use_takes_one_animal_into_use_silently() {
    let mut w = game_world();
    assert!(w.use_animal(BOB, 4).is_empty());
    assert!(animal(&w, 4).used);
    assert!(!animal(&w, 5).used);
    assert_eq!(w.find_active(BOB), Some(1));
    assert_eq!(w.find_active(ANN), None);
}

#[test]
fn use_is_refused_out_of_turn_or_twice_or_for_a_foreign_animal() {
    let mut w = game_world();
    assert_eq!(w.use_animal(ANN, 1), vec![refused(ANN, BattleError::NotYourTurn)]);
    assert_eq!(w.use_animal(BOB, 1), vec![refused(BOB, BattleError::AnimalNotFound)]);
    assert_eq!(w.use_animal(BOB, 99), vec![refused(BOB, BattleError::AnimalNotFound)]);
    assert!(w.animals().iter().all(|a| !a.used));
    w.use_animal(BOB, 4);
    assert_eq!(w.use_animal(BOB, 5), vec![refused(BOB, BattleError::AnimalInUse)]);
    assert_eq!(w.use_animal(BOB, 4), vec![refused(BOB, BattleError::AnimalInUse)]);
    assert_eq!(w.animals().iter().filter(|a| a.used).count(), 1);
}

#[test]
fn move_along_a_column_costs_its_squares() {
    let mut w = game_world();
    w.use_animal(BOB, 4);
    let out = w.move_animal(BOB, at(0, 7));
    let to = Position::new(0, 16);
    assert_eq!(
        out,
        vec![
            Response {
                receivers: vec![ANN],
                res: Ok(Command::Moved {
                    player_id: BOB,
                    animal_id: 4,
                    position: to,
                    squares: None
                }),
            },
            Response {
                receivers: vec![BOB],
                res: Ok(Command::Moved {
                    player_id: BOB,
                    animal_id: 4,
                    position: to,
                    squares: Some(4)
                }),
            },
        ]
    );
    assert_eq!(animal(&w, 4).position, Some(to));
    assert_eq!(animal(&w, 4).mobility_remaining, 2);
}

#[test]
fn move_along_a_row_costs_its_squares() {
    let mut w = game_world();
    w.use_animal(BOB, 6);
    let out = w.move_animal(BOB, at(5, 11));
    assert_eq!(out.len(), 2);
    assert_eq!(animal(&w, 6).position, Some(Position::new(5, 12)));
    assert_eq!(animal(&w, 6).mobility_remaining, 0);
    assert_eq!(w.move_animal(BOB, at(4, 11)), vec![refused(BOB, BattleError::NotEnoughSquares)]);
    assert_eq!(animal(&w, 6).position, Some(Position::new(5, 12)));
}

#[test]
fn move_to_the_own_cell_costs_nothing() {
    let mut w = game_world();
    w.use_animal(BOB, 4);
    let out = w.move_animal(BOB, at(0, 11));
    let here = Position::new(0, 12);
    assert_eq!(
        out,
        vec![
            Response {
                receivers: vec![ANN],
                res: Ok(Command::Moved {
                    player_id: BOB,
                    animal_id: 4,
                    position: here,
                    squares: None
                }),
            },
            Response {
                receivers: vec![BOB],
                res: Ok(Command::Moved {
                    player_id: BOB,
                    animal_id: 4,
                    position: here,
                    squares: Some(0)
                }),
            },
        ]
    );
    assert_eq!(animal(&w, 4).position, Some(here));
    assert_eq!(animal(&w, 4).mobility_remaining, 6);
}

#[test]
fn diagonal_move_is_refused_and_changes_nothing() {
    let mut w = game_world();
    w.use_animal(BOB, 4);
    let before: Vec<Animal> = w.animals().clone();
    let out = w.move_animal(BOB, at(1, 10));
    assert_eq!(out, vec![refused(BOB, BattleError::NotEnoughSquares)]);
    assert_eq!(out[0].res.as_ref().unwrap_err().code(), StatusCode::PermissionDenied);
    assert_eq!(w.animals(), &before);
    assert_eq!(w.current_turn(), BOB);
}

#[test]
fn move_is_refused_when_the_way_is_blocked() {
    let mut w = game_world();
    w.use_animal(BOB, 4);
    assert_eq!(w.move_animal(BOB, at(1, 11)), vec![refused(BOB, BattleError::CannotMoveHere)]);
    assert_eq!(w.move_animal(BOB, at(2, 11)), vec![refused(BOB, BattleError::CannotMoveHere)]);
    assert_eq!(w.move_animal(BOB, at(0, 12)), vec![refused(BOB, BattleError::CannotMoveHere)]);
    assert_eq!(w.move_animal(BOB, at(0, 13)), vec![refused(BOB, BattleError::CannotMoveHere)]);
    assert_eq!(animal(&w, 4).position, Some(Position::new(0, 12)));
    assert_eq!(animal(&w, 4).mobility_remaining, 6);
}

#[test]
fn move_is_refused_when_an_obstacle_is_in_the_way() {
    let mut w = picked_world([1, 4, 5, 2, 3, 7]);
    w.place(ANN, &vec![entry(1, 0, 0), entry(2, 1, 0), entry(3, 2, 0)], T0);
    w.place(BOB, &vec![entry(4, 0, 0), entry(5, 1, 0), entry(7, 3, 3)], T0);
    assert_eq!(animal(&w, 7).position, Some(Position::new(3, 20)));
    w.use_animal(BOB, 7);
    assert_eq!(w.move_animal(BOB, at(3, 0)), vec![refused(BOB, BattleError::CannotMoveHere)]);
    assert_eq!(w.move_animal(BOB, at(3, 19)), vec![refused(BOB, BattleError::CannotMoveHere)]);
    assert_eq!(w.move_animal(BOB, at(3, 1)).len(), 2);
    assert_eq!(animal(&w, 7).position, Some(Position::new(3, 22)));
    assert_eq!(animal(&w, 7).mobility_remaining, 28);
    assert_eq!(w.move_animal(BOB, at(3, 18)), vec![refused(BOB, BattleError::CannotMoveHere)]);
    assert_eq!(w.move_animal(BOB, at(3, 17)).len(), 2);
    assert_eq!(animal(&w, 7).position, Some(Position::new(3, 6)));
    assert_eq!(animal(&w, 7).mobility_remaining, 12);
}

#[test]
fn move_off_the_board_is_refused() {
    let mut w = game_world();
    w.use_animal(BOB, 4);
    for target in [at(0, 24), at(0, -1), at(-1, 11), at(7, 11), at(0, i32::MIN), at(i32::MAX, 11)]
    {
        assert_eq!(w.move_animal(BOB, target), vec![refused(BOB, BattleError::CannotMoveHere)]);
    }
    assert_eq!(animal(&w, 4).position, Some(Position::new(0, 12)));
}

#[test]
fn move_is_refused_out_of_turn_or_without_an_animal_in_use() {
    let mut w = game_world();
    assert_eq!(w.move_animal(BOB, at(0, 5)), vec![refused(BOB, BattleError::NoActiveAnimal)]);
    assert_eq!(w.move_animal(ANN, at(0, 5)), vec![refused(ANN, BattleError::NotYourTurn)]);
    assert!(w.move_animal(BOB, None).is_empty());
}

#[test]
fn strike_takes_the_damage_from_the_target() {
    let mut w = game_world();
    w.use_animal(BOB, 6);
    let out = w.damage(BOB, at(2, 12));
    assert_eq!(
        out,
        vec![both(Command::Damaged {
            player_id: BOB,
            damager_animal_id: 6,
            damaged_animal_id: 3,
            damage: 5,
        })]
    );
    assert_eq!(animal(&w, 3).hp, 7);
    assert!(animal(&w, 6).hit);
}

#[test]
fn resistance_absorbs_its_share_rounded_in_favour_of_the_target() {
    let mut w = game_world();
    w.use_animal(BOB, 5);
    let out = w.damage(BOB, at(1, 12));
    assert_eq!(
        out,
        vec![both(Command::Damaged {
            player_id: BOB,
            damager_animal_id: 5,
            damaged_animal_id: 2,
            damage: 1,
        })]
    );
    assert_eq!(animal(&w, 2).hp, 14);
}

#[test]
fn full_resistance_absorbs_everything() {
    let mut w = picked_world([5, 1, 4, 2, 3, 6]);
    w.place(ANN, &vec![entry(5, 0, 11), entry(2, 1, 11), entry(3, 2, 11)], T0);
    w.place(BOB, &vec![entry(1, 0, 11), entry(4, 1, 11), entry(6, 2, 11)], T0);
    w.use_animal(BOB, 1);
    let out = w.damage(BOB, at(0, 12));
    assert_eq!(
        out,
        vec![both(Command::Damaged {
            player_id: BOB,
            damager_animal_id: 1,
            damaged_animal_id: 5,
            damage: 0,
        })]
    );
    assert_eq!(animal(&w, 5).hp, 30);
}

#[test]
fn damage_is_capped_by_the_health_and_the_dead_leave_in_the_same_run() {
    let mut w = picked_world([4, 1, 5, 2, 3, 6]);
    w.place(ANN, &vec![entry(4, 0, 11), entry(2, 1, 11), entry(3, 2, 11)], T0);
    w.place(BOB, &vec![entry(1, 0, 11), entry(5, 1, 11), entry(6, 2, 11)], T0);
    let using = Event { player_id: BOB, action: Action::Use(UseAnimal { animal_id: 1 }) };
    assert!(w.step(Some(&using), T0 + 1).is_empty());
    let strike = Event {
        player_id: BOB,
        action: Action::Damage(DamageAnimal { position: at(0, 12) }),
    };
    let out = w.step(Some(&strike), T0 + 2);
    assert_eq!(
        out,
        vec![
            both(Command::Damaged {
                player_id: BOB,
                damager_animal_id: 1,
                damaged_animal_id: 4,
                damage: 8,
            }),
            both(Command::Dead { animal_id: 4 }),
        ]
    );
    assert_eq!(w.animals().len(), 5);
    assert!(w.animals().iter().all(|a| a.stat.id != 4));
    assert_eq!(w.phase(), Phase::Game);
    assert_eq!(w.count_owned(ANN), 2);
}

#[test]
fn strike_is_refused_out_of_reach() {
    let mut w = game_world();
    w.use_animal(BOB, 4);
    for target in [at(1, 12), at(0, 13), at(0, 11), at(5, 5), at(0, i32::MIN), at(i32::MAX, 0)] {
        assert_eq!(w.damage(BOB, target), vec![refused(BOB, BattleError::CannotHitThere)]);
    }
    assert_eq!(animal(&w, 1).hp, 20);
    assert!(!animal(&w, 4).hit);
}

#[test]
fn strike_is_refused_when_nobody_stands_there() {
    let mut w = game_world();
    w.use_animal(BOB, 4);
    assert_eq!(w.damage(BOB, at(0, 10)), vec![refused(BOB, BattleError::NobodyToHit)]);
    assert_eq!(w.damage(BOB, at(-1, 11)), vec![refused(BOB, BattleError::NobodyToHit)]);
    assert_eq!(w.damage(BOB, at(1, 11)), vec![refused(BOB, BattleError::NobodyToHit)]);
    assert!(!animal(&w, 4).hit);
}

#[test]
fn strike_is_refused_out_of_turn_or_without_a_striker() {
    let mut w = game_world();
    assert_eq!(w.damage(ANN, at(0, 12)), vec![refused(ANN, BattleError::NotYourTurn)]);
    assert_eq!(w.damage(BOB, at(0, 12)), vec![refused(BOB, BattleError::NoActiveAnimal)]);
    assert!(w.damage(BOB, None).is_empty());
    w.use_animal(BOB, 4);
    assert_eq!(w.damage(BOB, at(0, 12)).len(), 1);
    assert_eq!(w.damage(BOB, at(0, 12)), vec![refused(BOB, BattleError::NoActiveAnimal)]);
    assert_eq!(animal(&w, 1).hp, 12);
}

#[test]
fn end_of_turn_rests_the_animals_and_passes_the_turn() {
    let mut w = game_world();
    w.use_animal(BOB, 4);
    w.move_animal(BOB, at(0, 9));
    w.damage(BOB, at(0, 10));
    assert_eq!(animal(&w, 4).mobility_remaining, 4);
    assert_eq!(w.end_turn(ANN, T0 + 5), vec![refused(ANN, BattleError::NotYourTurn)]);
    let out = w.end_turn(BOB, T0 + 5);
    assert_eq!(out, vec![both(Command::TurnToPick { player_id: Some(ANN), deadline: T0 + 65 })]);
    assert_eq!(w.current_turn(), ANN);
    assert_eq!(w.deadline(), T0 + 65);
    let rested = animal(&w, 4);
    assert!(!rested.used && !rested.hit);
    assert_eq!(rested.mobility_remaining, 6);
    assert_eq!(rested.position, Some(Position::new(0, 14)));
}

#[test]
fn mobility_never_grows_within_a_turn() {
    let mut w = game_world();
    w.use_animal(BOB, 4);
    let mut last = animal(&w, 4).mobility_remaining;
    for target in [at(0, 10), at(0, 9), at(3, 9), at(0, 0), at(0, 9), at(1, 9)] {
        w.move_animal(BOB, target);
        w.damage(BOB, target);
        let now = animal(&w, 4).mobility_remaining;
        assert!(now <= last);
        assert!(now >= 0);
        last = now;
    }
}

#[test]
fn overdue_turn_passes_by_itself() {
    let mut w = game_world();
    w.use_animal(BOB, 5);
    assert!(w.turn_timeout(T0 + 59).is_empty());
    let out = w.turn_timeout(T0 + 60);
    assert_eq!(out, vec![both(Command::TurnToPick { player_id: Some(ANN), deadline: T0 + 120 })]);
    assert_eq!(w.current_turn(), ANN);
    assert!(!animal(&w, 5).used);
}

#[test]
fn game_commands_before_the_game_are_ignored() {
    let mut w = picked_world([1, 4, 5, 2, 3, 6]);
    assert!(w.use_animal(BOB, 4).is_empty());
    assert!(w.move_animal(BOB, at(0, 0)).is_empty());
    assert!(w.damage(BOB, at(0, 0)).is_empty());
    assert!(w.end_turn(BOB, T0).is_empty());
    assert!(w.turn_timeout(T0 + 1_000).is_empty());
    assert!(w.death().is_empty());
    assert_eq!(w.current_turn(), BOB);
}

#[test]
fn stages_run_only_their_own_handlers() {
    let mut w = new_world(true);
    let ready = Event { player_id: ANN, action: Action::Ready };
    assert!(w.run_stage(Stage::FlushEvents, Some(&ready), T0).is_empty());
    assert!(w.run_stage(Stage::Gameplay, Some(&ready), T0).is_empty());
    assert!(w.run_stage(Stage::EndTurn, Some(&ready), T0).is_empty());
    assert!(!w.all_ready());
    w.run_stage(Stage::Preparations, Some(&ready), T0);
    let ready = Event { player_id: BOB, action: Action::Ready };
    let out = w.run_stage(Stage::Preparations, Some(&ready), T0);
    assert_eq!(out, vec![both(Command::TurnToPick { player_id: Some(ANN), deadline: T0 + 30 })]);
}

#[test]
fn a_run_takes_the_overdue_pick_before_the_command() {
    let mut w = new_world(true);
    w.ready(ANN, T0);
    w.ready(BOB, T0);
    let pick = Event { player_id: ANN, action: Action::Pick(PickAnimal { animal_id: 1 }) };
    let out = w.step(Some(&pick), T0 + 30);
    assert_eq!(out.len(), 3);
    assert!(matches!(out[0].res, Ok(Command::Picked { player_id: ANN, .. })));
    assert_eq!(out[2], refused(ANN, BattleError::AnimalUnavailable));
    assert_eq!(w.animals().len(), 1);
    assert_eq!(w.current_turn(), BOB);
}

#[test]
fn a_full_match_ends_when_a_player_has_no_animal_left() {
    let m = Match::new(ANN, BOB, GameMap::new("plain".to_string(), Vec::new()).unwrap()).unwrap();
    let catalog = AnimalCatalog::new(vec![
        stat(1, 5, 1, 0, 1),
        stat(2, 5, 1, 0, 1),
        stat(3, 5, 1, 0, 1),
        stat(4, 50, 100, 0, 10),
        stat(5, 50, 1, 0, 1),
        stat(6, 50, 1, 0, 1),
    ])
    .unwrap();
    let mut w = World::starting_with(&m, catalog, true, T0);
    let run = |w: &mut World, player_id: i32, action: Action, now: i64| {
        w.step(Some(&Event { player_id, action }), now)
    };
    run(&mut w, ANN, Action::Ready, T0);
    run(&mut w, BOB, Action::Ready, T0);
    for (player, id) in [(ANN, 1), (BOB, 4), (BOB, 5), (ANN, 2), (ANN, 3), (BOB, 6)] {
        run(&mut w, player, Action::Pick(PickAnimal { animal_id: id }), T0);
    }
    run(
        &mut w,
        ANN,
        Action::Place(PlaceAnimals {
            animals: vec![entry(1, 0, 11), entry(2, 1, 11), entry(3, 2, 11)],
        }),
        T0,
    );
    run(
        &mut w,
        BOB,
        Action::Place(PlaceAnimals {
            animals: vec![entry(4, 0, 11), entry(5, 5, 0), entry(6, 6, 0)],
        }),
        T0,
    );
    assert_eq!(w.phase(), Phase::Game);
    let mut now = T0;
    for column in 0..3 {
        now += 1;
        run(&mut w, BOB, Action::Use(UseAnimal { animal_id: 4 }), now);
        run(&mut w, BOB, Action::Move(MoveAnimal { position: at(column, 11) }), now);
        let out = run(&mut w, BOB, Action::Damage(DamageAnimal { position: at(column, 12) }), now);
        let victim = column + 1;
        assert_eq!(
            out[0],
            both(Command::Damaged {
                player_id: BOB,
                damager_animal_id: 4,
                damaged_animal_id: victim,
                damage: 5,
            })
        );
        assert_eq!(out[1], both(Command::Dead { animal_id: victim }));
        if column < 2 {
            assert_eq!(out.len(), 2);
            run(&mut w, BOB, Action::EndTurn, now);
            run(&mut w, ANN, Action::EndTurn, now);
        } else {
            assert_eq!(out.len(), 3);
            assert_eq!(out[2], both(Command::GameOver { winner: Some(BOB) }));
        }
    }
    assert_eq!(w.phase(), Phase::Terminal);
    assert_eq!(w.count_owned(ANN), 0);
    assert_eq!(w.count_owned(BOB), 3);
    assert!(run(&mut w, BOB, Action::EndTurn, now).is_empty());
    assert!(w.step(None, now + 1_000).is_empty());
    assert_eq!(w.phase(), Phase::Terminal);
}

#[test]
fn every_error_has_its_code_and_text() {
    let all = [
        (BattleError::PlayerNotPlaying, StatusCode::NotFound, "Player is not playing"),
        (BattleError::AnimalUnavailable, StatusCode::NotFound, "Animal is not available to pick"),
        (BattleError::BadPlacement, StatusCode::PermissionDenied, "Not all animals position send"),
        (BattleError::NotYourTurn, StatusCode::PermissionDenied, "Not your turn"),
        (
            BattleError::AnimalInUse,
            StatusCode::PermissionDenied,
            "One of your animals is already in use",
        ),
        (BattleError::AnimalNotFound, StatusCode::NotFound, "Animal not found"),
        (BattleError::NoActiveAnimal, StatusCode::PermissionDenied, "Not using any animal"),
        (BattleError::CannotMoveHere, StatusCode::PermissionDenied, "Cannot move here"),
        (
            BattleError::NotEnoughSquares,
            StatusCode::PermissionDenied,
            "Not enough squares to move",
        ),
        (BattleError::NobodyToHit, StatusCode::PermissionDenied, "Nobody to hit"),
        (
            BattleError::CannotHitThere,
            StatusCode::PermissionDenied,
            "Cannot hit in this position",
        ),
    ];
    for (error, code, text) in all {
        assert_eq!(error.code(), code);
        assert_eq!(error.message(), text);
    }
}

#[test]
fn overdue_placement_waits_where_a_half_has_no_room_for_all() {
    let mut objects = Vec::new();
    for x in 0..7 {
        for y in 0..12 {
            if (x, y) != (0, 0) && (x, y) != (6, 11) {
                objects.push(GameObject { x, y, kind: GameObjectType::Solid, sprite: None });
            }
        }
    }
    let map = GameMap::new("crowded".to_string(), objects).unwrap();
    let m = Match::new(ANN, BOB, map).unwrap();
    let mut w = World::starting_with(&m, zoo(), true, T0);
    for (player, id) in [(ANN, 1), (BOB, 4), (BOB, 5), (ANN, 2), (ANN, 3), (BOB, 6)] {
        w.pick(player, id, T0);
    }
    assert_eq!(w.phase(), Phase::Placement);
    assert_eq!(w.free_cells(false).len(), 2);
    let out = w.place_timeout(T0 + 60);
    assert!(out.is_empty());
    assert_eq!(w.phase(), Phase::Placement);
    assert_eq!(w.count_waiting(ANN), 1);
    assert_eq!(w.count_waiting(BOB), 0);
    for a in w.animals() {
        if let Some(p) = a.position {
            assert!(p.is_in_half(a.owner == BOB));
            assert!(!w.is_obstacle(p));
        }
    }
    assert!(w.place_timeout(T0 + 61).is_empty());
    assert_eq!(w.phase(), Phase::Placement);
    assert_eq!(w.count_waiting(ANN), 1);
    assert!(w.use_animal(BOB, 4).is_empty());
}

#[test]
fn every_animal_of_a_game_stands_on_the_board() {
    for _ in 0..10 {
        let mut w = picked_world([1, 4, 5, 2, 3, 6]);
        w.place(BOB, &vec![entry(4, 0, 0), entry(5, 1, 0), entry(6, 2, 0)], T0);
        assert_eq!(w.phase(), Phase::Placement);
        w.place_timeout(T0 + 60);
        assert_eq!(w.phase(), Phase::Game);
        assert!(w.animals().iter().all(|a| a.position.is_some()));
        assert!(!w.is_placing());
    }
    let g = game_world();
    assert!(g.animals().iter().all(|a| a.position.is_some()));
}
