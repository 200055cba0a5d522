//! What travels between the players and the battle engine: the commands a
//! player sends, and the responses the engine addresses to its receivers.

use crate::grid::Position;
use vstd::prelude::*;

verus! {

/// The phase a match is in.
#[derive(Clone, Copy, Debug, PartialEq, Eq, Structural)]
pub enum Phase {
    Pick,
    Placement,
    Game,
    Terminal,
}

/// The status code that an error is reported under.
#[derive(Clone, Copy, Debug, PartialEq, Eq, Structural)]
pub enum StatusCode {
    /// Malformed input, or an action that the sender is not entitled to.
    PermissionDenied,
    /// A reference to an animal, a match or a player that is not there.
    NotFound,
    /// Authentication is missing, invalid or expired.
    Unauthenticated,
    /// What is to be created exists already.
    AlreadyExists,
    /// The persistence layer failed.
    DataLoss,
}

/// Why the engine refused a command.
#[derive(Clone, Copy, Debug, PartialEq, Eq, Structural)]
pub enum BattleError {
    /// The sender takes part in no match.
    PlayerNotPlaying,
    /// A pick out of turn, of an unknown or taken animal, or over the quota.
    AnimalUnavailable,
    /// A placement that breaks one of the placement rules.
    BadPlacement,
    /// A combat command from the player whose turn it is not.
    NotYourTurn,
    /// The player already has an animal in use this turn.
    AnimalInUse,
    /// The player has no placed, unused animal with the id.
    AnimalNotFound,
    /// The player has no animal in use that could act.
    NoActiveAnimal,
    /// The way to the target is blocked, or the target is off the board.
    CannotMoveHere,
    /// The move is not along a row or column, or costs more than is left.
    NotEnoughSquares,
    /// No enemy animal stands on the target.
    NobodyToHit,
    /// The target is not orthogonally adjacent to the attacker.
    CannotHitThere,
}

impl BattleError {
    /// The status code of the error.
    pub open spec fn status(self) -> StatusCode {
        match self {
            BattleError::PlayerNotPlaying => StatusCode::NotFound,
            BattleError::AnimalUnavailable => StatusCode::NotFound,
            BattleError::AnimalNotFound => StatusCode::NotFound,
            _ => StatusCode::PermissionDenied,
        }
    }

    /// The diagnostic text of the error.
    pub open spec fn text(self) -> Seq<char> {
        match self {
            BattleError::PlayerNotPlaying => "Player is not playing"@,
            BattleError::AnimalUnavailable => "Animal is not available to pick"@,
            BattleError::BadPlacement => "Not all animals position send"@,
            BattleError::NotYourTurn => "Not your turn"@,
            BattleError::AnimalInUse => "One of your animals is already in use"@,
            BattleError::AnimalNotFound => "Animal not found"@,
            BattleError::NoActiveAnimal => "Not using any animal"@,
            BattleError::CannotMoveHere => "Cannot move here"@,
            BattleError::NotEnoughSquares => "Not enough squares to move"@,
            BattleError::NobodyToHit => "Nobody to hit"@,
            BattleError::CannotHitThere => "Cannot hit in this position"@,
        }
    }

    pub fn code(&self) -> (c: StatusCode)
        ensures
            c == self.status(),
    {
        match self {
            BattleError::PlayerNotPlaying => StatusCode::NotFound,
            BattleError::AnimalUnavailable => StatusCode::NotFound,
            BattleError::AnimalNotFound => StatusCode::NotFound,
            _ => StatusCode::PermissionDenied,
        }
    }

    pub fn message(&self) -> (m: String)
        ensures
            m@ == self.text(),
    {
        match self {
            BattleError::PlayerNotPlaying => "Player is not playing".to_owned(),
            BattleError::AnimalUnavailable => "Animal is not available to pick".to_owned(),
            BattleError::BadPlacement => "Not all animals position send".to_owned(),
            BattleError::NotYourTurn => "Not your turn".to_owned(),
            BattleError::AnimalInUse => "One of your animals is already in use".to_owned(),
            BattleError::AnimalNotFound => "Animal not found".to_owned(),
            BattleError::NoActiveAnimal => "Not using any animal".to_owned(),
            BattleError::CannotMoveHere => "Cannot move here".to_owned(),
            BattleError::NotEnoughSquares => "Not enough squares to move".to_owned(),
            BattleError::NobodyToHit => "Nobody to hit".to_owned(),
            BattleError::CannotHitThere => "Cannot hit in this position".to_owned(),
        }
    }
}

/// Picks one animal of the catalog.
#[derive(Clone, Copy, Debug, PartialEq, Eq, Structural)]
pub struct PickAnimal {
    pub animal_id: i32,
}

/// Puts one animal on a cell, given in the sender's own frame.
#[derive(Clone, Copy, Debug, PartialEq, Eq, Structural)]
pub struct PlaceAnimal {
    pub animal_id: i32,
    pub position: Option<Position>,
}

/// Puts all animals of a player on the board at once.
#[derive(Clone, Debug, PartialEq, Eq)]
pub struct PlaceAnimals {
    pub animals: Vec<PlaceAnimal>,
}

/// Moves the animal in use to a cell, given in the sender's own frame.
#[derive(Clone, Copy, Debug, PartialEq, Eq, Structural)]
pub struct MoveAnimal {
    pub position: Option<Position>,
}

/// Takes one animal into use for the turn.
#[derive(Clone, Copy, Debug, PartialEq, Eq, Structural)]
pub struct UseAnimal {
    pub animal_id: i32,
}

/// Strikes the cell, given in the sender's own frame, with the animal in use.
#[derive(Clone, Copy, Debug, PartialEq, Eq, Structural)]
pub struct DamageAnimal {
    pub position: Option<Position>,
}

/// What a player can ask of the match it plays in.
#[derive(Clone, Debug, PartialEq, Eq)]
pub enum Action {
    Ready,
    Pick(PickAnimal),
    Place(PlaceAnimals),
    Move(MoveAnimal),
    Use(UseAnimal),
    EndTurn,
    Damage(DamageAnimal),
}

/// A command as a world receives it: an action, with the sender that the
/// session vouches for.
#[derive(Clone, Debug, PartialEq, Eq)]
pub struct Event {
    pub player_id: i32,
    pub action: Action,
}

/// One animal on the board, as a `Placed` response reports it.
#[derive(Clone, Copy, Debug, PartialEq, Eq, Structural)]
pub struct AnimalPlaced {
    pub player_id: i32,
    pub animal_id: i32,
    pub position: Position,
}

/// What the engine tells the players.
#[allow(inconsistent_fields)]
#[derive(Clone, Debug, PartialEq, Eq)]
pub enum Command {
    Picked { animal_id: i32, player_id: i32 },
    TurnToPick { player_id: Option<i32>, deadline: i64 },
    SetState { state: Phase },
    Placed { animals: Vec<AnimalPlaced> },
    Moved { player_id: i32, animal_id: i32, position: Position, squares: Option<i32> },
    Damaged { player_id: i32, damager_animal_id: i32, damaged_animal_id: i32, damage: i32 },
    Dead { animal_id: i32 },
    GameOver { winner: Option<i32> },
}

/// What a `Command` is.
#[allow(inconsistent_fields)]
pub enum CommandView {
    Picked { animal_id: i32, player_id: i32 },
    TurnToPick { player_id: Option<i32>, deadline: i64 },
    SetState { state: Phase },
    Placed { animals: Seq<AnimalPlaced> },
    Moved { player_id: i32, animal_id: i32, position: Position, squares: Option<i32> },
    Damaged { player_id: i32, damager_animal_id: i32, damaged_animal_id: i32, damage: i32 },
    Dead { animal_id: i32 },
    GameOver { winner: Option<i32> },
}

impl View for Command {
    type V = CommandView;

    open spec fn view(&self) -> CommandView {
        match *self {
            Command::Picked { animal_id, player_id } => CommandView::Picked {
                animal_id,
                player_id,
            },
            Command::TurnToPick { player_id, deadline } => CommandView::TurnToPick {
                player_id,
                deadline,
            },
            Command::SetState { state } => CommandView::SetState { state },
            Command::Placed { animals } => CommandView::Placed { animals: animals@ },
            Command::Moved { player_id, animal_id, position, squares } => CommandView::Moved {
                player_id,
                animal_id,
                position,
                squares,
            },
            Command::Damaged {
                player_id,
                damager_animal_id,
                damaged_animal_id,
                damage,
            } => CommandView::Damaged { player_id, damager_animal_id, damaged_animal_id, damage },
            Command::Dead { animal_id } => CommandView::Dead { animal_id },
            Command::GameOver { winner } => CommandView::GameOver { winner },
        }
    }
}

/// A response of the engine: what happened, or why a command was refused,
/// and the players it is meant for.
#[derive(Debug, PartialEq, Eq)]
pub struct Response {
    pub receivers: Vec<i32>,
    pub res: Result<Command, BattleError>,
}

/// What a `Response` is.
pub struct Reply {
    pub receivers: Seq<i32>,
    pub res: Result<CommandView, BattleError>,
}

impl View for Response {
    type V = Reply;

    open spec fn view(&self) -> Reply {
        Reply {
            receivers: self.receivers@,
            res: match self.res {
                Ok(c) => Ok(c@),
                Err(e) => Err(e),
            },
        }
    }
}

/// What each response of a list is.
pub open spec fn replies(responses: Seq<Response>) -> Seq<Reply> {
    Seq::new(responses.len(), |i: int| responses[i]@)
}

/// A response for both players of a match.
pub open spec fn to_both(player1: i32, player2: i32, command: CommandView) -> Reply {
    Reply { receivers: seq![player1, player2], res: Ok(command) }
}

/// A response for one player only.
pub open spec fn to_one(player: i32, command: CommandView) -> Reply {
    Reply { receivers: seq![player], res: Ok(command) }
}

/// A refusal, for the offending player only.
pub open spec fn refusal(player: i32, error: BattleError) -> Reply {
    Reply { receivers: seq![player], res: Err(error) }
}

/// What each result of a list is.
pub open spec fn results(list: Seq<Result<Command, BattleError>>) -> Seq<
    Result<CommandView, BattleError>,
> {
    Seq::new(
        list.len(),
        |i: int|
            match list[i] {
                Ok(c) => Ok(c@),
                Err(e) => Err(e),
            },
    )
}

/// The responses that name the player as a receiver.
pub open spec fn addressed_to(player: i32) -> spec_fn(Reply) -> bool {
    |r: Reply| r.receivers.contains(player)
}

/// What the player gets to see of a list of responses: the results of those
/// that name it as a receiver, in their order.
pub open spec fn observed(out: Seq<Reply>, player: i32) -> Seq<Result<CommandView, BattleError>> {
    let mine = out.filter(addressed_to(player));
    Seq::new(mine.len(), |i: int| mine[i].res)
}

impl Command {
    /// A copy of the command.
    pub fn duplicate(&self) -> (c: Command)
        ensures
            c@ == self@,
    {
        match self {
            Command::Picked { animal_id, player_id } => Command::Picked {
                animal_id: *animal_id,
                player_id: *player_id,
            },
            Command::TurnToPick { player_id, deadline } => Command::TurnToPick {
                player_id: *player_id,
                deadline: *deadline,
            },
            Command::SetState { state } => Command::SetState { state: *state },
            Command::Placed { animals } => {
                let n = animals.len();
                let mut copy: Vec<AnimalPlaced> = Vec::new();
                let mut i: usize = 0;
                while i < n
                    invariant
                        n == animals.len(),
                        i <= n,
                        copy@ == animals@.take(i as int),
                    decreases n - i,
                {
                    copy.push(animals[i]);
                    i += 1;
                }
                assert(animals@.take(n as int) =~= animals@);
                Command::Placed { animals: copy }
            },
            Command::Moved { player_id, animal_id, position, squares } => Command::Moved {
                player_id: *player_id,
                animal_id: *animal_id,
                position: *position,
                squares: *squares,
            },
            Command::Damaged {
                player_id,
                damager_animal_id,
                damaged_animal_id,
                damage,
            } => Command::Damaged {
                player_id: *player_id,
                damager_animal_id: *damager_animal_id,
                damaged_animal_id: *damaged_animal_id,
                damage: *damage,
            },
            Command::Dead { animal_id } => Command::Dead { animal_id: *animal_id },
            Command::GameOver { winner } => Command::GameOver { winner: *winner },
        }
    }
}

impl Response {
    /// The result that the response carries.
    pub fn result(&self) -> (r: Result<Command, BattleError>)
        ensures
            match r {
                Ok(c) => self@.res == Ok::<CommandView, BattleError>(c@),
                Err(e) => self@.res == Err::<CommandView, BattleError>(e),
            },
    {
        match &self.res {
            Ok(c) => Ok(c.duplicate()),
            Err(e) => Err(*e),
        }
    }

    pub fn both(player1: i32, player2: i32, command: Command) -> (r: Response)
        ensures
            r@ == to_both(player1, player2, command@),
    {
        let mut receivers: Vec<i32> = Vec::new();
        receivers.push(player1);
        receivers.push(player2);
        assert(receivers@ =~= seq![player1, player2]);
        Response { receivers, res: Ok(command) }
    }

    pub fn one(player: i32, command: Command) -> (r: Response)
        ensures
            r@ == to_one(player, command@),
    {
        let mut receivers: Vec<i32> = Vec::new();
        receivers.push(player);
        Response { receivers, res: Ok(command) }
    }

    pub fn refuse(player: i32, error: BattleError) -> (r: Response)
        ensures
            r@ == refusal(player, error),
    {
        let mut receivers: Vec<i32> = Vec::new();
        receivers.push(player);
        Response { receivers, res: Err(error) }
    }

    /// Whether the response is meant for the player.
    pub fn is_for(&self, player: i32) -> (r: bool)
        ensures
            r == self@.receivers.contains(player),
    {
        names(&self.receivers, player)
    }
}

/// Whether the list of receivers names the player.
pub fn names(receivers: &Vec<i32>, player: i32) -> (r: bool)
    ensures
        r == receivers@.contains(player),
{
    let n = receivers.len();
    let mut i: usize = 0;
    while i < n
        invariant
            n == receivers.len(),
            i <= n,
            forall|k: int| 0 <= k < i ==> receivers[k] != player,
        decreases n - i,
    {
        if receivers[i] == player {
            return true;
        }
        i += 1;
    }
    false
}

} // verus!
