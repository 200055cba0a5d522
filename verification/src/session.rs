//! The session of one connected player: what it sends on the player's
//! behalf, and what it lets through to the player.

use crate::auth::Claims;
use crate::engine::{event_of, BattleMessage};
use crate::matchmaking::{Match, MatchmakerMessage, MatchView, Rating};
use crate::protocol::{
    addressed_to, names, observed, replies, results, Action, BattleError, Command, Event, Response,
};
use crate::seqs::lemma_filter_next;
use vstd::prelude::*;

verus! {

/// What a player is told of a pair that it is part of.
#[derive(Clone, Copy, Debug, PartialEq, Eq, Structural)]
pub struct MatchNotice {
    pub opponent_id: i32,
    /// The player is the second of the pair, and sees the board upside
    /// down.
    pub invert: bool,
}

/// What the player is told of a pair: nothing, unless it is one of the two.
pub open spec fn noticed(player: i32, m: MatchView) -> Option<MatchNotice> {
    if m.player1 == player {
        Some(MatchNotice { opponent_id: m.player2, invert: false })
    } else if m.player2 == player {
        Some(MatchNotice { opponent_id: m.player1, invert: true })
    } else {
        None
    }
}

/// The session of the player that the authentication vouches for.
#[derive(Clone, Copy, Debug, PartialEq, Eq, Structural)]
pub struct Session {
    pub player_id: i32,
}

impl Session {
    pub fn new(player_id: i32) -> (s: Session)
        ensures
            s.player_id == player_id,
    {
        Session { player_id }
    }

    /// The session of the player that the claims of a token name.
    pub fn from_claims(claims: &Claims) -> (s: Session)
        ensures
            s.player_id == claims.id,
    {
        Session { player_id: claims.id }
    }

    /// The player asks to be paired.
    pub fn join(&self, rating: Rating) -> (msg: MatchmakerMessage)
        ensures
            msg == (MatchmakerMessage::JoinMatchmaking { id: self.player_id, rating }),
    {
        MatchmakerMessage::JoinMatchmaking { id: self.player_id, rating }
    }

    /// The player asks not to be paired any more.
    pub fn leave(&self) -> (msg: MatchmakerMessage)
        ensures
            msg == (MatchmakerMessage::LeaveMatchmaking { id: self.player_id }),
    {
        MatchmakerMessage::LeaveMatchmaking { id: self.player_id }
    }

    /// What the player is told of a pair: who the opponent is and which
    /// side it plays on, if it is part of the pair, and nothing if it is
    /// not.
    pub fn notice_of(&self, m: &Match) -> (r: Option<MatchNotice>)
        ensures
            r == noticed(self.player_id, m@),
    {
        if m.player1() == self.player_id {
            Some(MatchNotice { opponent_id: m.player2(), invert: false })
        } else if m.player2() == self.player_id {
            Some(MatchNotice { opponent_id: m.player1(), invert: true })
        } else {
            None
        }
    }

    /// What the player is told of a message of the matchmaker: of a pair
    /// that it is part of, who the opponent is and which side it plays on;
    /// of anything else, nothing.
    pub fn notice(&self, msg: &MatchmakerMessage) -> (r: Option<MatchNotice>)
        ensures
            r == match *msg {
                MatchmakerMessage::MatchFound(m) => noticed(self.player_id, m@),
                _ => None,
            },
    {
        match msg {
            MatchmakerMessage::MatchFound(m) => self.notice_of(m),
            _ => None,
        }
    }

    /// What the player gets to see of a response of the engine: its result
    /// if the response names the player as a receiver, and nothing if it
    /// does not.
    pub fn receive(&self, response: &Response) -> (r: Option<Result<Command, BattleError>>)
        ensures
            r is Some <==> response@.receivers.contains(self.player_id),
            r matches Some(seen) ==> results(seq![seen]) == seq![response@.res],
    {
        if response.is_for(self.player_id) {
            let seen = response.result();
            Some(seen)
        } else {
            None
        }
    }

    /// The message that carries an action of the player to the engine. The
    /// sender is the player of the session, whatever the action says.
    pub fn stamp(&self, action: Action) -> (msg: BattleMessage)
        ensures
            event_of(msg) == Some(Event { player_id: self.player_id, action }),
    {
        let player_id = self.player_id;
        match action {
            Action::Ready => BattleMessage::Ready { player_id },
            Action::Pick(cmd) => BattleMessage::Pick { player_id, cmd },
            Action::Place(animals) => BattleMessage::PlacePlayerAnimals { player_id, animals },
            Action::Move(animal) => BattleMessage::MovePlayerAnimal { player_id, animal },
            Action::Use(animal) => BattleMessage::UsePlayerAnimal { player_id, animal },
            Action::EndTurn => BattleMessage::EndTurn { player_id },
            Action::Damage(animal) => BattleMessage::DamagePlayerAnimal { player_id, animal },
        }
    }

    /// What the player gets to see of a message of the engine: the result
    /// of a response that names it as a receiver, and nothing else.
    pub fn outbound(&self, msg: BattleMessage) -> (r: Option<Result<Command, BattleError>>)
        ensures
            r is Some <==> (msg matches BattleMessage::Response { receivers, .. }
                && receivers@.contains(self.player_id)),
            r matches Some(seen) ==> msg matches BattleMessage::Response { res, .. } && seen == res,
    {
        match msg {
            BattleMessage::Response { receivers, res } => {
                if names(&receivers, self.player_id) {
                    Some(res)
                } else {
                    None
                }
            },
            _ => None,
        }
    }

    /// What the player gets to see of the responses of the engine: the
    /// results of those that name it as a receiver, in the order in which
    /// the engine emitted them.
    pub fn observe(&self, responses: &Vec<Response>) -> (seen: Vec<Result<Command, BattleError>>)
        ensures
            results(seen@) == observed(replies(responses@), self.player_id),
    {
        let ghost out = replies(responses@);
        let n = responses.len();
        let mut seen: Vec<Result<Command, BattleError>> = Vec::new();
        let mut i: usize = 0;
        while i < n
            invariant
                n == responses.len(),
                i <= n,
                out == replies(responses@),
                results(seen@) == observed(out.take(i as int), self.player_id),
            decreases n - i,
        {
            let ghost before = seen@;
            proof {
                lemma_filter_next(out, addressed_to(self.player_id), i as int);
            }
            if responses[i].is_for(self.player_id) {
                seen.push(responses[i].result());
            }
            proof {
                let mine = out.take(i as int).filter(addressed_to(self.player_id));
                assert(results(before).len() == mine.len());
                assert forall|k: int| 0 <= k < results(seen@).len() implies results(seen@)[k]
                    == observed(out.take(i + 1), self.player_id)[k] by {
                    if k < mine.len() {
                        assert(results(before)[k] == observed(
                            out.take(i as int),
                            self.player_id,
                        )[k]);
                    }
                }
            }
            i += 1;
        }
        assert(out.take(n as int) =~= out);
        seen
    }
}

} // verus!
