//! The rules of the clans: what it takes to found one and to join one.

use crate::protocol::StatusCode;
use vstd::prelude::*;

verus! {

/// Coins that the founding of a clan costs.
pub const CLAN_CREATION_PRICE: i32 = 1000;

/// Members that a new clan has room for.
pub const MAX_MEMBERS: i32 = 50;

/// Who may join a clan.
#[derive(Clone, Copy, Debug, PartialEq, Eq, Structural)]
pub enum ClanType {
    Open,
    Closed,
    InviteOnly,
}

/// Why a request to a clan is refused.
#[derive(Clone, Copy, Debug, PartialEq, Eq, Structural)]
pub enum ClanError {
    EmptyName,
    NotEnoughCoins,
    NotOpen,
    GloryTooLow,
    ClanFull,
}

impl ClanError {
    /// The diagnostic text of the error.
    pub open spec fn text(self) -> Seq<char> {
        match self {
            ClanError::EmptyName => "Clan name cannot be empty"@,
            ClanError::NotEnoughCoins => "Need 1000 coins to create a clan"@,
            ClanError::NotOpen => "Clan is not open"@,
            ClanError::GloryTooLow => "Player's glory is less than clan's minimal glory"@,
            ClanError::ClanFull => "Clan is already full"@,
        }
    }

    pub fn code(&self) -> (c: StatusCode)
        ensures
            c == StatusCode::PermissionDenied,
    {
        StatusCode::PermissionDenied
    }

    pub fn message(&self) -> (m: String)
        ensures
            m@ == self.text(),
    {
        match self {
            ClanError::EmptyName => "Clan name cannot be empty".to_owned(),
            ClanError::NotEnoughCoins => "Need 1000 coins to create a clan".to_owned(),
            ClanError::NotOpen => "Clan is not open".to_owned(),
            ClanError::GloryTooLow => "Player's glory is less than clan's minimal glory".to_owned(),
            ClanError::ClanFull => "Clan is already full".to_owned(),
        }
    }
}

/// Whether a player with `coins` coins may found a clan of the name: the
/// name is looked at first.
pub open spec fn creation_verdict(name: Seq<char>, coins: i32) -> Result<(), ClanError> {
    if name.len() == 0 {
        Err(ClanError::EmptyName)
    } else if coins < CLAN_CREATION_PRICE {
        Err(ClanError::NotEnoughCoins)
    } else {
        Ok(())
    }
}

/// Whether a player of the glory may join a clan of the kind, with the
/// minimal glory, the members and the room given: the kind is looked at
/// first, then the glory, then the room.
pub open spec fn join_verdict(
    kind: ClanType,
    glory: i32,
    min_glory: i32,
    members: i32,
    max_members: i32,
) -> Result<(), ClanError> {
    if kind != ClanType::Open {
        Err(ClanError::NotOpen)
    } else if glory < min_glory {
        Err(ClanError::GloryTooLow)
    } else if max_members == members {
        Err(ClanError::ClanFull)
    } else {
        Ok(())
    }
}

/// Whether a clan may have the name: any name but the empty one.
pub fn check_name(name: &str) -> (r: Result<(), ClanError>)
    ensures
        r == if name@.len() > 0 {
            Ok::<(), ClanError>(())
        } else {
            Err::<(), ClanError>(ClanError::EmptyName)
        },
{
    if name.unicode_len() == 0 {
        Err(ClanError::EmptyName)
    } else {
        Ok(())
    }
}

/// Whether the coins pay for the founding of a clan.
pub fn check_coins(coins: i32) -> (r: Result<(), ClanError>)
    ensures
        r == if coins >= CLAN_CREATION_PRICE {
            Ok::<(), ClanError>(())
        } else {
            Err::<(), ClanError>(ClanError::NotEnoughCoins)
        },
{
    if coins < CLAN_CREATION_PRICE {
        Err(ClanError::NotEnoughCoins)
    } else {
        Ok(())
    }
}

/// Whether a player with `coins` coins may found a clan of the name.
pub fn check_creation(name: &str, coins: i32) -> (r: Result<(), ClanError>)
    ensures
        r == creation_verdict(name@, coins),
{
    match check_name(name) {
        Ok(()) => check_coins(coins),
        Err(e) => Err(e),
    }
}

/// Whether a clan of the kind takes new members by itself: an open one
/// does.
pub fn check_open(kind: ClanType) -> (r: Result<(), ClanError>)
    ensures
        r == if kind == ClanType::Open {
            Ok::<(), ClanError>(())
        } else {
            Err::<(), ClanError>(ClanError::NotOpen)
        },
{
    if kind != ClanType::Open {
        Err(ClanError::NotOpen)
    } else {
        Ok(())
    }
}

/// Whether the glory of a player reaches the minimal glory of a clan.
pub fn check_glory(glory: i32, min_glory: i32) -> (r: Result<(), ClanError>)
    ensures
        r == if glory >= min_glory {
            Ok::<(), ClanError>(())
        } else {
            Err::<(), ClanError>(ClanError::GloryTooLow)
        },
{
    if glory < min_glory {
        Err(ClanError::GloryTooLow)
    } else {
        Ok(())
    }
}

/// Whether a clan with the members has room left.
pub fn check_room(members: i32, max_members: i32) -> (r: Result<(), ClanError>)
    ensures
        r == if max_members != members {
            Ok::<(), ClanError>(())
        } else {
            Err::<(), ClanError>(ClanError::ClanFull)
        },
{
    if max_members == members {
        Err(ClanError::ClanFull)
    } else {
        Ok(())
    }
}

/// Whether a player of the glory may join a clan.
pub fn check_join(kind: ClanType, glory: i32, min_glory: i32, members: i32, max_members: i32) -> (r:
    Result<(), ClanError>)
    ensures
        r == join_verdict(kind, glory, min_glory, members, max_members),
{
    match check_open(kind) {
        Ok(()) => match check_glory(glory, min_glory) {
            Ok(()) => check_room(members, max_members),
            Err(e) => Err(e),
        },
        Err(e) => Err(e),
    }
}

/// The glories of the members of a clan, added up.
pub open spec fn total(glories: Seq<i32>) -> int
    decreases glories.len(),
{
    if glories.len() == 0 {
        0
    } else {
        total(glories.drop_last()) + glories.last()
    }
}

/// The average of the glories of the members of a clan, rounded towards
/// zero.
pub open spec fn average(glories: Seq<i32>) -> int {
    if total(glories) >= 0 {
        total(glories) / (glories.len() as int)
    } else {
        -((-total(glories)) / (glories.len() as int))
    }
}

/// The sum of a list of glories lies between the least and the greatest sum
/// that so many glories can have.
pub proof fn lemma_total_bounds(glories: Seq<i32>)
    ensures
        glories.len() * i32::MIN <= total(glories) <= glories.len() * i32::MAX,
    decreases glories.len(),
{
    if glories.len() > 0 {
        lemma_total_bounds(glories.drop_last());
        assert((glories.len() - 1) * i32::MAX + i32::MAX == glories.len() * i32::MAX)
            by (nonlinear_arith);
        assert((glories.len() - 1) * i32::MIN + i32::MIN == glories.len() * i32::MIN)
            by (nonlinear_arith);
    }
}

/// The average of the glories of the members of a clan, rounded towards
/// zero. A clan without members has no average.
pub fn average_trophies(glories: &Vec<i32>) -> (r: i32)
    requires
        glories.len() > 0,
    ensures
        r == average(glories@),
{
    let n = glories.len();
    let mut sum: i128 = 0;
    let mut i: usize = 0;
    while i < n
        invariant
            n == glories.len(),
            i <= n,
            sum == total(glories@.take(i as int)),
        decreases n - i,
    {
        proof {
            lemma_total_bounds(glories@.take(i as int));
            assert(glories@.take(i + 1).drop_last() =~= glories@.take(i as int));
            assert(i * i32::MAX <= usize::MAX * i32::MAX) by (nonlinear_arith)
                requires
                    i <= usize::MAX,
            ;
            assert(i * i32::MIN >= usize::MAX * i32::MIN) by (nonlinear_arith)
                requires
                    i <= usize::MAX,
            ;
        }
        sum = sum + glories[i] as i128;
        i += 1;
    }
    proof {
        assert(glories@.take(n as int) =~= glories@);
        lemma_total_bounds(glories@);
        assert(-(n * i32::MAX) <= n * i32::MIN + n) by (nonlinear_arith);
    }
    let count: i128 = n as i128;
    let mean: i128 = if sum >= 0 {
        sum / count
    } else {
        -((-sum) / count)
    };
    proof {
        let t = total(glories@);
        if t >= 0 {
            assert(0 <= t / (n as int) <= i32::MAX) by (nonlinear_arith)
                requires
                    0 <= t <= n * i32::MAX,
                    n > 0,
            ;
        } else {
            assert(0 <= (-t) / (n as int) <= i32::MAX + 1) by (nonlinear_arith)
                requires
                    0 < -t <= n * (i32::MAX + 1),
                    n > 0,
            ;
        }
    }
    mean as i32
}

/// What is left of the coins of a founder.
pub fn coins_after_creation(coins: i32) -> (r: i32)
    requires
        coins >= CLAN_CREATION_PRICE,
    ensures
        r == coins - CLAN_CREATION_PRICE,
        r >= 0,
{
    coins - CLAN_CREATION_PRICE
}

} // verus!
