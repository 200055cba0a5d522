use animal_combat::catalog::{AnimalCatalog, AnimalStat, GameMap};
use animal_combat::engine::{BattleEngine, BattleMessage};
use animal_combat::grid::Position;
use animal_combat::matchmaking::Match;
use animal_combat::protocol::{
    Action, BattleError, Command, DamageAnimal, Event, MoveAnimal, Phase, PickAnimal,
    PlaceAnimal, PlaceAnimals, Response, UseAnimal,
};

const T0: i64 = 5_000;

fn beast(id: i32, hp: i32, damage: i32) -> AnimalStat {
    AnimalStat {
        id,
        hp,
        damage,
        resistance_pct: 0,
        mobility: 10,
        action_points: 1,
        ap_per_turn: 100,
    }
}

fn engine() -> BattleEngine {
    let catalog = AnimalCatalog::new(vec![
        beast(1, 5, 1),
        beast(2, 5, 1),
        beast(3, 5, 1),
        beast(4, 50, 100),
        beast(5, 50, 1),
        beast(6, 50, 1),
        beast(7, 50, 1),
    ])
    .unwrap();
    BattleEngine::new(catalog)
}

fn pair(a: i32, b: i32) -> Match {
    Match::new(a, b, GameMap::new("plain".to_string(), Vec::new()).unwrap()).unwrap()
}

fn spot(animal_id: i32, x: i32, y: i32) -> PlaceAnimal {
    PlaceAnimal { animal_id, position: Some(Position::new(x, y)) }
}

fn sent(e: &mut BattleEngine, player_id: i32, action: Action, now: i64) -> Vec<Response> {
    e.deliver(&Event { player_id, action }, now)
}

/// Plays the match of `a` and `b`, with `a` to pick first, until `b` has
/// struck down the three animals of `a`.
fn play_out(e: &mut BattleEngine, a: i32, b: i32) -> Vec<Response> {
    sent(e, a, Action::Ready, T0);
    sent(e, b, Action::Ready, T0);
    for (player, id) in [(a, 1), (b, 4), (b, 5), (a, 2), (a, 3), (b, 6)] {
        sent(e, player, Action::Pick(PickAnimal { animal_id: id }), T0);
    }
    sent(
        e,
        a,
        Action::Place(PlaceAnimals { animals: vec![spot(1, 0, 11), spot(2, 1, 11), spot(3, 2, 11)] }),
        T0,
    );
    sent(
        e,
        b,
        Action::Place(PlaceAnimals { animals: vec![spot(4, 0, 11), spot(5, 5, 0), spot(6, 6, 0)] }),
        T0,
    );
    let mut last = Vec::new();
    for column in 0..3 {
        sent(e, b, Action::Use(UseAnimal { animal_id: 4 }), T0);
        let to = Some(Position::new(column, 11));
        sent(e, b, Action::Move(MoveAnimal { position: to }), T0);
        let target = Some(Position::new(column, 12));
        last = sent(e, b, Action::Damage(DamageAnimal { position: target }), T0);
        if column < 2 {
            sent(e, b, Action::EndTurn, T0);
            sent(e, a, Action::EndTurn, T0);
        }
    }
    last
}

#[test]
fn new_engine_has_no_matches() {
    let e = engine();
    assert_eq!(e.len(), 0);
    assert_eq!(e.world_of(1), None);
}

#[test]
fn create_battle_registers_both_players() {
    let mut e = engine();
    e.create_battle_with(&pair(1, 2), true, T0);
    assert_eq!(e.len(), 1);
    assert_eq!(e.world_of(1), Some(0));
    assert_eq!(e.world_of(2), Some(0));
    assert_eq!(e.world_of(3), None);
    let w = e.world(0);
    assert_eq!(w.phase(), Phase::Pick);
    assert_eq!(w.current_turn(), 1);
    assert_eq!(w.deadline(), T0);
    e.create_battle_with(&pair(3, 4), false, T0 + 1);
    assert_eq!(e.len(), 2);
    assert_eq!(e.world_of(3), Some(1));
    assert_eq!(e.world_of(4), Some(1));
    assert_eq!(e.world_of(1), Some(0));
    assert_eq!(e.world(1).current_turn(), 4);
}

#[test]
fn create_battle_draws_who_picks_first() {
    let mut e = engine();
    for k in 0..100 {
        e.create_battle(&pair(2 * k, 2 * k + 1), T0);
    }
    let ones = (0..100).filter(|k| e.world(*k).current_turn() == 2 * (*k as i32)).count();
    assert!(ones > 0 && ones < 100);
}

#[test]
fn the_latest_match_of_a_player_gets_its_commands() {
    let mut e = engine();
    e.create_battle_with(&pair(1, 2), true, T0);
    e.create_battle_with(&pair(1, 3), true, T0);
    assert_eq!(e.world_of(1), Some(1));
    assert_eq!(e.world_of(2), Some(0));
    sent(&mut e, 1, Action::Ready, T0);
    sent(&mut e, 3, Action::Ready, T0);
    assert!(e.world(1).all_ready());
    assert!(!e.world(0).all_ready());
}

#[test]
fn command_of_a_stranger_is_refused() {
    let mut e = engine();
    e.create_battle_with(&pair(1, 2), true, T0);
    for action in [
        Action::Ready,
        Action::Pick(PickAnimal { animal_id: 1 }),
        Action::EndTurn,
        Action::Use(UseAnimal { animal_id: 1 }),
    ] {
        let out = sent(&mut e, 9, action, T0);
        assert_eq!(
            out,
            vec![Response { receivers: vec![9], res: Err(BattleError::PlayerNotPlaying) }]
        );
    }
    assert_eq!(e.len(), 1);
    assert!(!e.world(0).all_ready());
}

#[test]
fn command_runs_the_pipeline_of_its_match_alone() {
    let mut e = engine();
    e.create_battle_with(&pair(1, 2), true, T0);
    e.create_battle_with(&pair(3, 4), true, T0);
    sent(&mut e, 3, Action::Ready, T0);
    sent(&mut e, 4, Action::Ready, T0);
    sent(&mut e, 1, Action::Ready, T0);
    sent(&mut e, 2, Action::Ready, T0);
    let out = sent(&mut e, 1, Action::Pick(PickAnimal { animal_id: 1 }), T0 + 40);
    assert_eq!(out.len(), 3);
    assert!(out.iter().all(|r| r.receivers == vec![1, 2] || r.receivers == vec![1]));
    assert_eq!(e.world(0).animals().len(), 1);
    assert_eq!(e.world(1).animals().len(), 0);
    assert_eq!(e.world(1).deadline(), T0 + 30);
}

#[test]
fn tick_runs_the_pipeline_of_every_match() {
    let mut e = engine();
    e.create_battle_with(&pair(1, 2), true, T0);
    e.create_battle_with(&pair(3, 4), false, T0);
    for p in 1..=4 {
        sent(&mut e, p, Action::Ready, T0);
    }
    assert!(e.tick_at(T0 + 29).is_empty());
    let out = e.tick_at(T0 + 30);
    assert_eq!(out.len(), 4);
    assert_eq!(out[0].receivers, vec![1, 2]);
    assert!(matches!(out[0].res, Ok(Command::Picked { player_id: 1, .. })));
    assert_eq!(out[2].receivers, vec![3, 4]);
    assert!(matches!(out[2].res, Ok(Command::Picked { player_id: 4, .. })));
    assert_eq!(e.world(0).animals().len(), 1);
    assert_eq!(e.world(1).animals().len(), 1);
}

#[test]
fn messages_are_dispatched_by_their_kind() {
    let mut e = engine();
    assert!(e.handle_at(BattleMessage::CreateBattle(pair(1, 2)), T0).is_empty());
    assert_eq!(e.len(), 1);
    assert!(e.handle_at(BattleMessage::Ready { player_id: 1 }, T0).is_empty());
    let out = e.handle_at(BattleMessage::Ready { player_id: 2 }, T0);
    assert_eq!(out.len(), 1);
    assert!(matches!(
        out[0].res,
        Ok(Command::TurnToPick { player_id: Some(_), deadline }) if deadline == T0 + 30
    ));
    let echo = BattleMessage::Response { receivers: vec![1], res: Err(BattleError::NotYourTurn) };
    assert!(e.handle_at(echo, T0).is_empty());
    let first = e.world(0).current_turn();
    let out = e.handle_at(
        BattleMessage::Pick { player_id: first, cmd: PickAnimal { animal_id: 3 } },
        T0,
    );
    assert_eq!(out.len(), 2);
    let out = e.handle_at(BattleMessage::EndTurn { player_id: 77 }, T0);
    assert_eq!(out, vec![Response { receivers: vec![77], res: Err(BattleError::PlayerNotPlaying) }]);
}

#[test]
fn messages_by_the_clock_use_the_current_time() {
    let mut e = engine();
    e.handle(BattleMessage::CreateBattle(pair(1, 2)));
    assert!(e.world(0).deadline() > 1_600_000_000);
    e.handle(BattleMessage::Ready { player_id: 1 });
    let out = e.handle(BattleMessage::Ready { player_id: 2 });
    match &out[0].res {
        Ok(Command::TurnToPick { deadline, .. }) => {
            assert!(*deadline > 1_600_000_000 + 30);
            assert_eq!(e.world(0).deadline(), *deadline);
        }
        other => panic!("no turn: {:?}", other),
    }
    assert!(e.tick().is_empty());
}

#[test]
fn a_match_that_is_over_leaves_the_engine() {
    let mut e = engine();
    e.create_battle_with(&pair(1, 2), true, T0);
    e.create_battle_with(&pair(3, 4), true, T0);
    e.create_battle_with(&pair(5, 6), true, T0);
    let last = play_out(&mut e, 3, 4);
    assert_eq!(
        last.last().unwrap(),
        &Response { receivers: vec![3, 4], res: Ok(Command::GameOver { winner: Some(4) }) }
    );
    assert_eq!(e.len(), 2);
    assert_eq!(e.world_of(3), None);
    assert_eq!(e.world_of(4), None);
    assert_eq!(e.world_of(1), Some(0));
    assert_eq!(e.world_of(5), Some(1));
    assert_eq!(e.world_of(6), Some(1));
    let out = sent(&mut e, 3, Action::EndTurn, T0);
    assert_eq!(out, vec![Response { receivers: vec![3], res: Err(BattleError::PlayerNotPlaying) }]);
    sent(&mut e, 5, Action::Ready, T0);
    sent(&mut e, 6, Action::Ready, T0);
    assert!(e.world(1).all_ready());
}

#[test]
fn a_player_falls_back_to_its_earlier_match() {
    let mut e = engine();
    e.create_battle_with(&pair(1, 2), true, T0);
    e.create_battle_with(&pair(1, 3), true, T0);
    play_out(&mut e, 1, 3);
    assert_eq!(e.len(), 1);
    assert_eq!(e.world_of(1), Some(0));
    assert_eq!(e.world_of(2), Some(0));
    assert_eq!(e.world_of(3), None);
}
