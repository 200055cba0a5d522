//! The static catalog: the maps a match can be played on and the animals a
//! player can pick. Both are checked once, when they are built, and never
//! change afterwards.

use crate::chance::pick_one;
use crate::grid::Position;
use vstd::prelude::*;

verus! {

/// What stands on an enumerated cell of a map.
#[derive(Clone, Copy, Debug, PartialEq, Eq, Structural)]
pub enum GameObjectType {
    Water,
    Solid,
    Walkable,
}

/// One enumerated cell of a map.
#[derive(Clone, Debug)]
pub struct GameObject {
    pub x: i32,
    pub y: i32,
    pub kind: GameObjectType,
    pub sprite: Option<String>,
}

impl GameObject {
    /// The cell the object stands on.
    pub open spec fn cell(self) -> Position {
        Position { x: self.x, y: self.y }
    }

    pub fn position(&self) -> (p: Position)
        ensures
            p == self.cell(),
    {
        Position { x: self.x, y: self.y }
    }

    /// A copy of the object.
    pub fn duplicate(&self) -> (o: GameObject)
        ensures
            o == *self,
    {
        let sprite = match &self.sprite {
            Some(s) => Some(s.clone()),
            None => None,
        };
        GameObject { x: self.x, y: self.y, kind: self.kind, sprite }
    }
}

/// The objects of a map are admissible: each lies on the board, and no two
/// objects other than walkable ones share a cell.
pub open spec fn objects_valid(objects: Seq<GameObject>) -> bool {
    &&& forall|i: int| 0 <= i < objects.len() ==> (#[trigger] objects[i]).cell().in_bounds()
    &&& forall|i: int, j: int|
        0 <= i < j < objects.len() && (#[trigger] objects[i]).kind != GameObjectType::Walkable
            && (#[trigger] objects[j]).kind != GameObjectType::Walkable ==> objects[i].cell()
            != objects[j].cell()
}

/// The cells of the objects, in their order.
pub open spec fn cells_of(objects: Seq<GameObject>) -> Seq<Position> {
    Seq::new(objects.len(), |i: int| objects[i].cell())
}

/// What a map is: its name and its enumerated cells.
pub struct GameMapView {
    pub name: Seq<char>,
    pub objects: Seq<GameObject>,
}

/// A map: a name and the enumerated cells of the 7 x 24 board. Every cell
/// that is not enumerated is empty.
#[derive(Debug)]
pub struct GameMap {
    name: String,
    objects: Vec<GameObject>,
}

impl View for GameMap {
    type V = GameMapView;

    closed spec fn view(&self) -> GameMapView {
        GameMapView { name: self.name@, objects: self.objects@ }
    }
}

impl GameMap {
    #[verifier::type_invariant]
    spec fn inv(self) -> bool {
        objects_valid(self.objects@)
    }

    /// Builds a map, or refuses objects that are not admissible.
    pub fn new(name: String, objects: Vec<GameObject>) -> (r: Option<GameMap>)
        ensures
            r is Some <==> objects_valid(objects@),
            r matches Some(m) ==> m@.name == name@ && m@.objects == objects@,
    {
        let n = objects.len();
        let mut i: usize = 0;
        while i < n
            invariant
                n == objects.len(),
                i <= n,
                forall|k: int| 0 <= k < i ==> (#[trigger] objects[k]).cell().in_bounds(),
                forall|k: int, l: int|
                    0 <= k < l < i && (#[trigger] objects[k]).kind != GameObjectType::Walkable
                        && (#[trigger] objects[l]).kind != GameObjectType::Walkable
                        ==> objects[k].cell() != objects[l].cell(),
            decreases n - i,
        {
            let here = objects[i].position();
            if !here.is_in_bounds() {
                return None;
            }
            if objects[i].kind != GameObjectType::Walkable {
                let mut j: usize = 0;
                while j < i
                    invariant
                        n == objects.len(),
                        i < n,
                        j <= i,
                        here == objects[i as int].cell(),
                        objects[i as int].kind != GameObjectType::Walkable,
                        forall|k: int|
                            0 <= k < j && (#[trigger] objects[k]).kind
                                != GameObjectType::Walkable ==> objects[k].cell() != here,
                    decreases i - j,
                {
                    if objects[j].kind != GameObjectType::Walkable && objects[j].position()
                        == here {
                        return None;
                    }
                    j += 1;
                }
            }
            i += 1;
        }
        Some(GameMap { name, objects })
    }

    pub fn name(&self) -> (r: &String)
        ensures
            r@ == self@.name,
    {
        &self.name
    }

    /// The enumerated cells. They are admissible, whatever map this is.
    pub fn objects(&self) -> (r: &Vec<GameObject>)
        ensures
            r@ == self@.objects,
            objects_valid(r@),
    {
        proof {
            use_type_invariant(self);
        }
        &self.objects
    }

    /// The cells that the objects of the map stand on, in their order.
    pub fn obstacle_cells(&self) -> (r: Vec<Position>)
        ensures
            r@ == cells_of(self@.objects),
    {
        let mut cells: Vec<Position> = Vec::new();
        let n = self.objects.len();
        let mut i: usize = 0;
        while i < n
            invariant
                n == self.objects.len(),
                i <= n,
                cells@ == cells_of(self.objects@.take(i as int)),
            decreases n - i,
        {
            cells.push(self.objects[i].position());
            i += 1;
        }
        cells
    }

    /// A copy of the map.
    pub fn duplicate(&self) -> (m: GameMap)
        ensures
            m@ == self@,
    {
        proof {
            use_type_invariant(self);
        }
        let mut objects: Vec<GameObject> = Vec::new();
        let n = self.objects.len();
        let mut i: usize = 0;
        while i < n
            invariant
                n == self.objects.len(),
                i <= n,
                objects@ == self.objects@.take(i as int),
            decreases n - i,
        {
            objects.push(self.objects[i].duplicate());
            i += 1;
        }
        assert(self.objects@.take(n as int) =~= self.objects@);
        GameMap { name: self.name.clone(), objects }
    }
}

/// The maps of the catalog. There is always at least one.
#[derive(Debug)]
pub struct MapCatalog {
    maps: Vec<GameMap>,
}

impl MapCatalog {
    #[verifier::type_invariant]
    spec fn inv(self) -> bool {
        self.maps.len() > 0
    }

    /// The maps, in their order.
    pub closed spec fn maps(self) -> Seq<GameMap> {
        self.maps@
    }

    /// Builds the catalog, or refuses an empty list.
    pub fn new(maps: Vec<GameMap>) -> (r: Option<MapCatalog>)
        ensures
            r is Some <==> maps.len() > 0,
            r matches Some(c) ==> c.maps() == maps@,
    {
        if maps.len() == 0 {
            None
        } else {
            Some(MapCatalog { maps })
        }
    }

    pub fn len(&self) -> (n: usize)
        ensures
            n == self.maps().len(),
            n > 0,
    {
        proof {
            use_type_invariant(self);
        }
        self.maps.len()
    }

    pub fn get(&self, i: usize) -> (m: &GameMap)
        requires
            i < self.maps().len(),
        ensures
            *m == self.maps()[i as int],
    {
        &self.maps[i]
    }

    /// A map of the catalog, drawn at random.
    pub fn draw(&self) -> (m: &GameMap)
        ensures
            exists|i: int| 0 <= i < self.maps().len() && *m == #[trigger] self.maps()[i],
    {
        proof {
            use_type_invariant(self);
        }
        match pick_one(&self.maps) {
            Some(m) => {
                let ghost i = choose|i: int| 0 <= i < self.maps@.len() && self.maps@[i] == *m;
                assert(self.maps()[i] == *m);
                m
            },
            None => {
                &self.maps[0]
            },
        }
    }
}

/// The stat block of one animal of the catalog.
#[derive(Clone, Copy, Debug, PartialEq, Eq, Structural)]
pub struct AnimalStat {
    pub id: i32,
    pub hp: i32,
    pub damage: i32,
    /// Share of an incoming strike that the animal absorbs, in percent.
    pub resistance_pct: i32,
    pub mobility: i32,
    pub action_points: i32,
    /// Action points regained per turn, in hundredths of a point.
    pub ap_per_turn: i32,
}

impl AnimalStat {
    /// The stat block is admissible: nothing negative, and a resistance of at
    /// most a hundred percent.
    pub open spec fn valid(self) -> bool {
        &&& self.hp >= 0
        &&& self.damage >= 0
        &&& 0 <= self.resistance_pct <= 100
        &&& self.mobility >= 0
    }

    pub fn is_valid(&self) -> (r: bool)
        ensures
            r == self.valid(),
    {
        self.hp >= 0 && self.damage >= 0 && 0 <= self.resistance_pct && self.resistance_pct
            <= 100 && self.mobility >= 0
    }
}

/// Every stat block of the list is admissible.
pub open spec fn stats_valid(stats: Seq<AnimalStat>) -> bool {
    forall|i: int| 0 <= i < stats.len() ==> (#[trigger] stats[i]).valid()
}

/// Some stat block of the list has the id.
pub open spec fn lists_animal(stats: Seq<AnimalStat>, id: i32) -> bool {
    exists|i: int| 0 <= i < stats.len() && (#[trigger] stats[i]).id == id
}

/// `i` is the first place of the list that holds the id.
pub open spec fn first_with_id(stats: Seq<AnimalStat>, id: i32, i: int) -> bool {
    &&& 0 <= i < stats.len()
    &&& stats[i].id == id
    &&& forall|k: int| 0 <= k < i ==> (#[trigger] stats[k]).id != id
}

/// The animals of the catalog.
#[derive(Debug)]
pub struct AnimalCatalog {
    animals: Vec<AnimalStat>,
}

impl View for AnimalCatalog {
    type V = Seq<AnimalStat>;

    closed spec fn view(&self) -> Seq<AnimalStat> {
        self.animals@
    }
}

impl AnimalCatalog {
    #[verifier::type_invariant]
    spec fn inv(self) -> bool {
        stats_valid(self.animals@)
    }

    /// Builds the catalog, or refuses a list with a stat block that is not
    /// admissible.
    pub fn new(animals: Vec<AnimalStat>) -> (r: Option<AnimalCatalog>)
        ensures
            r is Some <==> stats_valid(animals@),
            r matches Some(c) ==> c@ == animals@,
    {
        let n = animals.len();
        let mut i: usize = 0;
        while i < n
            invariant
                n == animals.len(),
                i <= n,
                forall|k: int| 0 <= k < i ==> (#[trigger] animals[k]).valid(),
            decreases n - i,
        {
            if !animals[i].is_valid() {
                return None;
            }
            i += 1;
        }
        Some(AnimalCatalog { animals })
    }

    /// The stat blocks. They are admissible, whatever catalog this is.
    pub fn stats(&self) -> (r: &Vec<AnimalStat>)
        ensures
            r@ == self@,
            stats_valid(r@),
    {
        proof {
            use_type_invariant(self);
        }
        &self.animals
    }

    /// The first stat block with the id, if the catalog lists the animal.
    pub fn find(&self, id: i32) -> (r: Option<AnimalStat>)
        ensures
            r is Some <==> lists_animal(self@, id),
            r matches Some(s) ==> s.valid() && exists|i: int|
                first_with_id(self@, id, i) && self@[i] == s,
    {
        proof {
            use_type_invariant(self);
        }
        let n = self.animals.len();
        let mut i: usize = 0;
        while i < n
            invariant
                n == self.animals.len(),
                i <= n,
                stats_valid(self.animals@),
                forall|k: int| 0 <= k < i ==> (#[trigger] self.animals[k]).id != id,
            decreases n - i,
        {
            if self.animals[i].id == id {
                let found = self.animals[i];
                return Some(found);
            }
            i += 1;
        }
        None
    }

    /// A copy of the catalog.
    pub fn duplicate(&self) -> (c: AnimalCatalog)
        ensures
            c@ == self@,
    {
        proof {
            use_type_invariant(self);
        }
        let mut animals: Vec<AnimalStat> = Vec::new();
        let n = self.animals.len();
        let mut i: usize = 0;
        while i < n
            invariant
                n == self.animals.len(),
                i <= n,
                animals@ == self.animals@.take(i as int),
            decreases n - i,
        {
            animals.push(self.animals[i]);
            i += 1;
        }
        AnimalCatalog { animals }
    }
}

} // verus!
