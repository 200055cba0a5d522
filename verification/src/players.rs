//! What a player is shown of its own profile.

use vstd::prelude::*;

verus! {

/// One emote of the game, with the player that owns it, if the asking
/// player does.
#[derive(Clone, Debug, PartialEq, Eq)]
pub struct EmoteRow {
    pub owner: Option<i32>,
    pub file_name: String,
}

/// The emotes of the game, split by whether the player owns them.
#[derive(Clone, Debug, PartialEq, Eq)]
pub struct EmoteLists {
    pub player_emotes: Vec<String>,
    pub other_emotes: Vec<String>,
}

/// The emotes that the player owns.
pub open spec fn owned() -> spec_fn(EmoteRow) -> bool {
    |row: EmoteRow| row.owner is Some
}

/// The emotes that the player does not own.
pub open spec fn not_owned() -> spec_fn(EmoteRow) -> bool {
    |row: EmoteRow| row.owner is None
}

/// The file names of the rows that meet `f`, in their order.
pub open spec fn names_of(rows: Seq<EmoteRow>, f: spec_fn(EmoteRow) -> bool) -> Seq<Seq<char>> {
    let kept = rows.filter(f);
    Seq::new(kept.len(), |i: int| kept[i].file_name@)
}

/// What each name of a list is.
pub open spec fn texts(names: Seq<String>) -> Seq<Seq<char>> {
    Seq::new(names.len(), |i: int| names[i]@)
}

/// The service of the player profiles.
#[derive(Clone, Copy, Debug, Default)]
pub struct PlayerService;

impl PlayerService {
    /// Splits the emotes of the game into those that the player owns and
    /// the others, each list in the order of the rows.
    pub fn split_emotes(rows: &Vec<EmoteRow>) -> (lists: EmoteLists)
        ensures
            texts(lists.player_emotes@) == names_of(rows@, owned()),
            texts(lists.other_emotes@) == names_of(rows@, not_owned()),
    {
        let mut player_emotes: Vec<String> = Vec::new();
        let mut other_emotes: Vec<String> = Vec::new();
        let n = rows.len();
        let mut i: usize = 0;
        proof {
            reveal(Seq::filter);
        }
        while i < n
            invariant
                n == rows.len(),
                i <= n,
                texts(player_emotes@) == names_of(rows@.take(i as int), owned()),
                texts(other_emotes@) == names_of(rows@.take(i as int), not_owned()),
            decreases n - i,
        {
            let ghost mine = player_emotes@;
            let ghost rest = other_emotes@;
            let name = rows[i].file_name.clone();
            if rows[i].owner.is_some() {
                player_emotes.push(name);
            } else {
                other_emotes.push(name);
            }
            proof {
                let prev = rows@.take(i as int);
                let next = rows@.take(i + 1);
                assert(next =~= prev.push(rows@[i as int]));
                prev.lemma_filter_push(rows@[i as int], owned());
                prev.lemma_filter_push(rows@[i as int], not_owned());
                assert(texts(mine).len() == prev.filter(owned()).len());
                assert(texts(rest).len() == prev.filter(not_owned()).len());
                assert forall|k: int| 0 <= k < texts(player_emotes@).len() implies texts(
                    player_emotes@,
                )[k] == names_of(next, owned())[k] by {
                    if k < mine.len() {
                        assert(texts(mine)[k] == names_of(prev, owned())[k]);
                    }
                }
                assert forall|k: int| 0 <= k < texts(other_emotes@).len() implies texts(
                    other_emotes@,
                )[k] == names_of(next, not_owned())[k] by {
                    if k < rest.len() {
                        assert(texts(rest)[k] == names_of(prev, not_owned())[k]);
                    }
                }
            }
            i += 1;
        }
        assert(rows@.take(n as int) =~= rows@);
        EmoteLists { player_emotes, other_emotes }
    }
}

} // verus!
