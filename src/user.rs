//! The stored records: a user of the chat provider, and the media account
//! linked to it.

use vstd::prelude::*;

verus! {

/// A user: the chat provider's id for it, its access token there, and the
/// media account linked to it.
pub struct Model {
    pub id: String,
    pub discord_token: String,
    pub anilist_id: Option<u32>,
}

/// A media-provider account and its tokens; `expiry` is the unix time in
/// seconds at which `access_token` expires.
pub struct MediaAccount {
    pub id: u32,
    pub access_token: String,
    pub refresh_token: String,
    pub expiry: u64,
}

/// A user row as values: id, token, linked media account.
pub type UserRow = (Seq<char>, Seq<char>, Option<u32>);

/// A media-account row as values: id, access token, refresh token, expiry.
pub type MediaRow = (u32, Seq<char>, Seq<char>, u64);

impl Model {
    pub open spec fn row(&self) -> UserRow {
        (self.id@, self.discord_token@, self.anilist_id)
    }
}

impl MediaAccount {
    pub open spec fn row(&self) -> MediaRow {
        (self.id, self.access_token@, self.refresh_token@, self.expiry)
    }
}

} // verus!
