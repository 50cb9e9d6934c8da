//! The player-identity lookup that decorates a notification with the host's
//! display name and avatar.
//!
//! The identity provider answers with a list of player profiles; only the
//! first is used. An empty list is a real outcome and surfaces as
//! [`DirectoryError::NotFound`] rather than a crash; a failed call surfaces
//! as [`DirectoryError::UpstreamError`] in the caller that performed it.

use vstd::prelude::*;

verus! {

/// The identity provider's whole answer.
#[derive(Debug, Clone, PartialEq)]
pub struct SteamPlayerRequest {
    pub response: SteamPlayerResponse,
}

/// The payload of the identity answer: the matching player profiles.
#[derive(Debug, Clone, PartialEq)]
pub struct SteamPlayerResponse {
    pub players: Vec<SteamPlayer>,
}

/// One player profile as the identity provider reports it.
#[derive(Debug, Clone, PartialEq)]
pub struct SteamPlayer {
    pub steamid: String,
    pub communityvisibilitystate: i64,
    pub profilestate: Option<i64>,
    pub personaname: String,
    pub profileurl: String,
    pub avatar: String,
    pub avatarmedium: String,
    pub avatarfull: String,
    pub avatarhash: String,
    pub personastate: i64,
    pub primaryclanid: Option<String>,
    pub timecreated: Option<i64>,
    pub personastateflags: Option<i64>,
}

/// Why a host identity could not be fetched.
#[derive(Debug, Clone, Copy, PartialEq, Eq, Structural)]
pub enum DirectoryError {
    /// The identity call itself failed.
    UpstreamError,
    /// The call succeeded but matched no player.
    NotFound,
}

/// The first profile of an identity answer, or [`DirectoryError::NotFound`]
/// when the answer lists none.
pub fn first_player<'a>(resp: &'a SteamPlayerResponse) -> (r: Result<
    &'a SteamPlayer,
    DirectoryError,
>)
    ensures
        (match r {
            Ok(p) => resp.players@.len() > 0 && *p == resp.players@[0],
            Err(e) => resp.players@.len() == 0 && e == DirectoryError::NotFound,
        }),
{
    if resp.players.len() > 0 {
        Ok(&resp.players[0])
    } else {
        Err(DirectoryError::NotFound)
    }
}

} // verus!
