//! Game-data cache keys: the closed set of prefixes that keep the kinds of
//! cached game data apart.

use vstd::prelude::*;

verus! {

/// The kind of game data a cache entry holds.
pub enum GameCachePrefix {
    /// Match data.
    MATCH,
    /// Lobby data.
    LOBBY,
    /// User data.
    USER,
    /// Session data.
    SESSION,
    /// Game-state data.
    STATE,
}

impl GameCachePrefix {
    /// The prefix that keys of this kind carry.
    pub fn as_str(&self) -> (r: &'static str)
        ensures
            r@ == self.spec_tag(),
    {
        match self {
            GameCachePrefix::MATCH => "match",
            GameCachePrefix::LOBBY => "lobby",
            GameCachePrefix::USER => "user",
            GameCachePrefix::SESSION => "session",
            GameCachePrefix::STATE => "state",
        }
    }

    /// The prefix `as_str` returns for each kind.
    pub open spec fn spec_tag(self) -> Seq<char> {
        match self {
            GameCachePrefix::MATCH => "match"@,
            GameCachePrefix::LOBBY => "lobby"@,
            GameCachePrefix::USER => "user"@,
            GameCachePrefix::SESSION => "session"@,
            GameCachePrefix::STATE => "state"@,
        }
    }
}

} // verus!
