//! Profile statistics as the profile endpoints report them.

use vstd::prelude::*;

use crate::sdk::Profile;

verus! {

/// Win-loss statistics of one user.
pub struct UserStats {
    /// Matches won.
    pub won: u64,
    /// Matches lost.
    pub lost: u64,
    /// Matches played.
    pub played: u64,
    /// Share of wins among played matches, in whole percent.
    pub winrate: u64,
    /// Current rating.
    pub rating: u64,
}

impl UserStats {
    /// Statistics read off a profile; the winrate is the whole-percent
    /// share of wins, zero when nothing was played.
    pub fn from_profile(profile: &Profile) -> (r: UserStats)
        ensures
            r.won == profile.won,
            r.lost == profile.lost,
            r.played == profile.played,
            r.rating == profile.rating,
            profile.played > 0 ==> r.winrate == (
                if profile.won * 100 / (profile.played as int) <= u64::MAX {
                    profile.won * 100 / (profile.played as int)
                } else {
                    u64::MAX as int
                }
            ),
            profile.played == 0 ==> r.winrate == 0,
    {
        let winrate: u64 = if profile.played > 0 {
            let scaled: u128 = (profile.won as u128) * 100;
            let rate: u128 = scaled / (profile.played as u128);
            if rate <= u64::MAX as u128 {
                rate as u64
            } else {
                u64::MAX
            }
        } else {
            0
        };
        UserStats {
            won: profile.won,
            lost: profile.lost,
            played: profile.played,
            winrate,
            rating: profile.rating,
        }
    }
}

/// Response body of the profile endpoint.
pub struct ProfileResponse {
    pub success: bool,
    pub profile: Option<crate::sdk::ProfileWithRelationship>,
    pub error: Option<String>,
}

/// Response body of the statistics endpoint.
pub struct StatsResponse {
    pub success: bool,
    pub stats: Option<UserStats>,
    pub error: Option<String>,
}

} // verus!
