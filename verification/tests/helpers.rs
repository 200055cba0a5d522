use animal_combat::catalog::{AnimalCatalog, AnimalStat, GameMap, GameObject, GameObjectType};
use animal_combat::grid::Position;
use animal_combat::matchmaking::Match;
use animal_combat::protocol::{names, Command, Phase, PlaceAnimal, Response};
use animal_combat::state::Animal;
use animal_combat::world::{find_entry, World};

fn animal(id: i32) -> AnimalStat {
    AnimalStat {
        id,
        hp: 10,
        damage: 4,
        resistance_pct: 0,
        mobility: 3,
        action_points: 1,
        ap_per_turn: 50,
    }
}

fn placing_world() -> World {
    let map = GameMap::new(
        "wall".to_string(),
        vec![GameObject { x: 2, y: 3, kind: GameObjectType::Solid, sprite: None }],
    )
    .unwrap();
    let m = Match::new(10, 20, map).unwrap();
    let catalog = AnimalCatalog::new((1..=7).map(animal).collect()).unwrap();
    let mut w = World::starting_with(&m, catalog, false, 0);
    for (player, id) in [(20, 1), (10, 2), (10, 3), (20, 4), (20, 5), (10, 6)] {
        assert_eq!(w.pick(player, id, 0).len(), if id == 6 { 3 } else { 2 });
    }
    w
}

fn put(animal_id: i32, x: i32, y: i32) -> PlaceAnimal {
    PlaceAnimal { animal_id, position: Some(Position::new(x, y)) }
}

#[test]
fn find_entry_gives_the_first_entry_of_an_animal() {
    let entries = vec![put(4, 0, 0), put(5, 1, 0), put(4, 2, 0)];
    assert_eq!(find_entry(&entries, 4), Some(0));
    assert_eq!(find_entry(&entries, 5), Some(1));
    assert_eq!(find_entry(&entries, 6), None);
    assert_eq!(find_entry(&Vec::new(), 4), None);
}

#[test]
fn names_tells_whether_a_player_is_a_receiver() {
    assert!(names(&vec![1, 2], 1));
    assert!(names(&vec![1, 2], 2));
    assert!(!names(&vec![1, 2], 3));
    assert!(!names(&vec![], 1));
    let r = Response::one(7, Command::Dead { animal_id: 1 });
    assert!(r.is_for(7) && !r.is_for(8));
    assert_eq!(r.result(), Ok(Command::Dead { animal_id: 1 }));
    assert_eq!(Command::Placed { animals: vec![] }.duplicate(), Command::Placed { animals: vec![] });
}

#[test]
fn offer_lists_the_animals_that_nobody_has_picked() {
    let w = placing_world();
    assert_eq!(w.offer(), vec![animal(7)]);
    assert!(w.is_picked(3) && !w.is_picked(7) && !w.is_picked(99));
}

#[test]
fn take_gives_the_animal_to_the_player_whose_turn_it_is() {
    let map = GameMap::new("plain".to_string(), Vec::new()).unwrap();
    let m = Match::new(10, 20, map).unwrap();
    let catalog = AnimalCatalog::new((1..=7).map(animal).collect()).unwrap();
    let mut w = World::starting_with(&m, catalog, true, 100);
    let out = w.take(animal(5), 200);
    assert_eq!(out.len(), 2);
    assert_eq!(out[0], Response::both(10, 20, Command::Picked { animal_id: 5, player_id: 10 }));
    assert_eq!(
        out[1],
        Response::both(10, 20, Command::TurnToPick { player_id: Some(20), deadline: 230 })
    );
    assert_eq!(w.animals()[0].owner, 10);
    assert_eq!(w.current_turn(), 20);
}

#[test]
fn waiting_animals_are_counted_and_found() {
    let mut w = placing_world();
    assert_eq!(w.count_waiting(10), 3);
    assert_eq!(w.count_waiting(20), 3);
    assert_eq!(w.count_waiting(30), 0);
    assert!(w.has_waiting(10, 2) && w.has_waiting(20, 1));
    assert!(!w.has_waiting(10, 1) && !w.has_waiting(10, 7));
    w.place(10, &vec![put(2, 0, 0), put(3, 1, 0), put(6, 2, 0)], 0);
    assert_eq!(w.count_waiting(10), 0);
    assert!(!w.has_waiting(10, 2));
    assert!(w.is_placing());
    assert_eq!(w.placed().len(), 3);
}

#[test]
fn entries_are_judged_one_by_one() {
    let w = placing_world();
    assert!(w.entry_in_order(10, &put(2, 0, 0)));
    assert!(w.entry_in_order(20, &put(1, 0, 0)));
    assert!(!w.entry_in_order(10, &put(1, 0, 0)));
    assert!(!w.entry_in_order(10, &put(2, 2, 3)));
    assert!(w.entry_in_order(20, &put(1, 2, 3)));
    assert!(!w.entry_in_order(20, &put(1, 2, 20)));
    assert!(!w.entry_in_order(10, &put(2, 7, 0)));
    assert!(!w.entry_in_order(10, &PlaceAnimal { animal_id: 2, position: None }));
    assert!(w.can_place(10, &vec![put(2, 0, 0), put(3, 1, 0), put(6, 2, 0)]));
    assert!(!w.can_place(10, &vec![put(2, 0, 0), put(3, 1, 0), put(6, 1, 0)]));
    assert!(!w.can_place(20, &vec![put(2, 0, 0), put(3, 1, 0), put(6, 2, 0)]));
}

#[test]
fn seating_hands_the_cells_to_the_waiting_animals_in_their_order() {
    let mut w = placing_world();
    let cells = vec![Position::new(4, 15), Position::new(0, 12)];
    w.seat(20, &cells);
    let seats: Vec<Option<Position>> = w.animals().iter().map(|a| a.position).collect();
    assert_eq!(
        seats,
        vec![Some(Position::new(4, 15)), None, None, Some(Position::new(0, 12)), None, None]
    );
    assert_eq!(w.phase(), Phase::Placement);
    assert_eq!(w.count_waiting(20), 1);
}

#[test]
fn animals_are_found_by_what_they_do() {
    let mut w = placing_world();
    w.place(10, &vec![put(2, 0, 11), put(3, 1, 11), put(6, 2, 11)], 0);
    w.place(20, &vec![put(1, 0, 11), put(4, 1, 11), put(5, 2, 11)], 0);
    assert_eq!(w.phase(), Phase::Game);
    assert_eq!(w.current_turn(), 10);
    assert_eq!(w.find_usable(10, 3), Some(2));
    assert_eq!(w.find_usable(10, 1), None);
    assert_eq!(w.find_usable(20, 1), Some(0));
    assert_eq!(w.find_foe(10, 0, 12), Some(0));
    assert_eq!(w.find_foe(20, 0, 12), None);
    assert_eq!(w.find_foe(20, 1, 11), Some(2));
    assert_eq!(w.find_foe(10, 5, 5), None);
    assert_eq!(w.find_active(10), None);
    w.use_animal(10, 6);
    assert_eq!(w.find_active(10), Some(5));
    assert_eq!(w.find_usable(10, 6), None);
}

#[test]
fn the_way_is_clear_where_nothing_stands_on_it() {
    let mut w = placing_world();
    w.place(10, &vec![put(2, 2, 0), put(3, 1, 5), put(6, 6, 5)], 0);
    let from = Position::new(2, 0);
    assert!(w.is_way_clear(from, from));
    assert!(w.is_way_clear(from, Position::new(2, 2)));
    assert!(!w.is_way_clear(from, Position::new(2, 3)));
    assert!(!w.is_way_clear(from, Position::new(2, 9)));
    assert!(w.is_way_clear(Position::new(2, 9), Position::new(2, 4)));
    assert!(!w.is_way_clear(Position::new(2, 9), Position::new(2, 3)));
    assert!(w.is_way_clear(Position::new(2, 5), Position::new(5, 5)));
    assert!(!w.is_way_clear(Position::new(2, 5), Position::new(6, 5)));
    assert!(!w.is_way_clear(Position::new(2, 5), Position::new(0, 5)));
    assert!(w.is_way_clear(Position::new(1, 5), Position::new(0, 5)));
}

#[test]
fn damage_is_taken_from_the_health_as_far_as_it_goes() {
    let mut a = Animal {
        owner: 1,
        stat: animal(1),
        hp: 8,
        mobility_remaining: 3,
        position: None,
        used: false,
        hit: false,
    };
    assert_eq!(a.take_damage(3), 3);
    assert_eq!(a.hp, 5);
    assert_eq!(a.take_damage(0), 0);
    assert_eq!(a.hp, 5);
    assert_eq!(a.take_damage(5), 5);
    assert_eq!(a.hp, 0);
    a.hp = 8;
    assert_eq!(a.take_damage(10), 8);
    assert_eq!(a.hp, 0);
    assert_eq!(a.take_damage(i32::MAX), 0);
    assert_eq!(a.hp, 0);
    assert_eq!(a.stat, animal(1));
}
