//! The identity store: users keyed by their chat-provider id, media accounts
//! keyed by their media-provider id, and the link from a user to a media
//! account, with the constraints of the relational schema.
//!
//! This is an in-memory model of the store's rules, and the laws below are
//! proved of it. The service itself writes to its database through the
//! relational mapper (insert-or-update on the primary key, update by primary
//! key), which nothing here verifies.

use vstd::prelude::*;
use crate::user::{MediaAccount, MediaRow, Model, UserRow};

verus! {

/// Why a write to the store was refused.
#[derive(Debug, Clone, Copy, PartialEq, Eq, Structural)]
pub enum StoreError {
    /// No user has the given id.
    NotFound,
    /// The write would break a uniqueness or foreign-key constraint.
    Constraint,
    /// The database could not be reached.
    Unavailable,
}

pub open spec fn has_user(rows: Seq<UserRow>, id: Seq<char>) -> bool {
    exists|i: int| 0 <= i < rows.len() && (#[trigger] rows[i]).0 == id
}

pub open spec fn user_index(rows: Seq<UserRow>, id: Seq<char>) -> int {
    choose|i: int| 0 <= i < rows.len() && (#[trigger] rows[i]).0 == id
}

/// Another user than `id` holds `token`.
pub open spec fn token_taken(rows: Seq<UserRow>, id: Seq<char>, token: Seq<char>) -> bool {
    exists|i: int| 0 <= i < rows.len() && (#[trigger] rows[i]).0 != id && rows[i].1 == token
}

/// Another user than `id` is linked to `media_id`.
pub open spec fn media_taken(rows: Seq<UserRow>, id: Seq<char>, media_id: u32) -> bool {
    exists|i: int| 0 <= i < rows.len() && (#[trigger] rows[i]).0 != id && rows[i].2 == Some(media_id)
}

pub open spec fn has_media(media: Seq<MediaRow>, id: u32) -> bool {
    exists|k: int| 0 <= k < media.len() && (#[trigger] media[k]).0 == id
}

pub open spec fn media_index(media: Seq<MediaRow>, id: u32) -> int {
    choose|k: int| 0 <= k < media.len() && (#[trigger] media[k]).0 == id
}

/// No two users share an id, a token or a linked media account.
pub open spec fn users_unique(rows: Seq<UserRow>) -> bool {
    forall|i: int, j: int|
        0 <= i < rows.len() && 0 <= j < rows.len() && i != j ==> {
            &&& (#[trigger] rows[i]).0 != (#[trigger] rows[j]).0
            &&& rows[i].1 != rows[j].1
            &&& (rows[i].2 is Some ==> rows[i].2 != rows[j].2)
        }
}

/// No two media accounts share an id.
pub open spec fn media_unique(media: Seq<MediaRow>) -> bool {
    forall|k: int, l: int|
        0 <= k < media.len() && 0 <= l < media.len() && k != l ==> (#[trigger] media[k]).0 != (
        #[trigger] media[l]).0
}

/// Every linked media account exists.
pub open spec fn links_resolve(rows: Seq<UserRow>, media: Seq<MediaRow>) -> bool {
    forall|i: int| 0 <= i < rows.len() && (#[trigger] rows[i]).2 is Some ==> has_media(media, rows[i].2.unwrap())
}

/// Inserts the user `id` with `token`, or on a user with that id already,
/// replaces its token and keeps its link.
pub open spec fn upsert_chat(rows: Seq<UserRow>, id: Seq<char>, token: Seq<char>) -> Result<
    Seq<UserRow>,
    StoreError,
> {
    if token_taken(rows, id, token) {
        Err(StoreError::Constraint)
    } else if has_user(rows, id) {
        let i = user_index(rows, id);
        Ok(rows.update(i, (id, token, rows[i].2)))
    } else {
        Ok(rows.push((id, token, None)))
    }
}

/// Links the user `id` to the media account `media_id`.
pub open spec fn link(rows: Seq<UserRow>, media: Seq<MediaRow>, id: Seq<char>, media_id: u32) -> Result<
    Seq<UserRow>,
    StoreError,
> {
    if !has_user(rows, id) {
        Err(StoreError::NotFound)
    } else if !has_media(media, media_id) || media_taken(rows, id, media_id) {
        Err(StoreError::Constraint)
    } else {
        let i = user_index(rows, id);
        Ok(rows.update(i, (rows[i].0, rows[i].1, Some(media_id))))
    }
}

/// Inserts the media account, or on one with that id already, replaces its
/// tokens and expiry.
pub open spec fn upsert_media(media: Seq<MediaRow>, row: MediaRow) -> Seq<MediaRow> {
    if has_media(media, row.0) {
        media.update(media_index(media, row.0), row)
    } else {
        media.push(row)
    }
}

/// Storing a chat account twice under one id, first with `t1` and then with
/// `t2`, leaves exactly one user with that id: it holds `t2`, and the media
/// account it was linked to before, if any.
pub proof fn lemma_upsert_chat_twice(rows: Seq<UserRow>, id: Seq<char>, t1: Seq<char>, t2: Seq<char>)
    requires
        users_unique(rows),
        upsert_chat(rows, id, t1) is Ok,
        upsert_chat(upsert_chat(rows, id, t1)->Ok_0, id, t2) is Ok,
    ensures
        ({
            let after = upsert_chat(upsert_chat(rows, id, t1)->Ok_0, id, t2)->Ok_0;
            let linked = if has_user(rows, id) {
                rows[user_index(rows, id)].2
            } else {
                None
            };
            exists|i: int|
                0 <= i < after.len() && after[i] == (id, t2, linked) && forall|j: int|
                    0 <= j < after.len() && (#[trigger] after[j]).0 == id ==> j == i
        }),
{
    let r1 = upsert_chat(rows, id, t1)->Ok_0;
    let linked = if has_user(rows, id) {
        rows[user_index(rows, id)].2
    } else {
        None
    };
    let i1: int = if has_user(rows, id) {
        user_index(rows, id)
    } else {
        rows.len() as int
    };
    assert(r1[i1] == (id, t1, linked));
    assert forall|j: int| 0 <= j < r1.len() && (#[trigger] r1[j]).0 == id implies j == i1 by {
        if j != i1 {
            assert(r1[j] == rows[j]);
            if has_user(rows, id) {
                assert(rows[i1].0 == rows[j].0);
            } else {
                assert(has_user(rows, id));
            }
        }
    }
    assert(has_user(r1, id));
    let i2 = user_index(r1, id);
    assert(i2 == i1);
    let after = upsert_chat(r1, id, t2)->Ok_0;
    assert(after == r1.update(i1, (id, t2, linked)));
    assert(after[i1] == (id, t2, linked));
    assert forall|j: int| 0 <= j < after.len() && (#[trigger] after[j]).0 == id implies j == i1 by {
        if j != i1 {
            assert(after[j] == r1[j]);
        }
    }
}

/// Linking a media account to a user id that no user has fails with
/// `NotFound`; `link_media_to_user` then leaves every row as it was.
pub proof fn lemma_link_missing_user(rows: Seq<UserRow>, media: Seq<MediaRow>, id: Seq<char>, media_id: u32)
    requires
        !has_user(rows, id),
    ensures
        link(rows, media, id, media_id) == Err::<Seq<UserRow>, StoreError>(StoreError::NotFound),
{
}

/// Users and media accounts, held in memory.
pub struct IdentityStore {
    users: Vec<Model>,
    media: Vec<MediaAccount>,
}

impl IdentityStore {
    pub closed spec fn user_rows(&self) -> Seq<UserRow> {
        self.users@.map_values(|m: Model| m.row())
    }

    pub closed spec fn media_rows(&self) -> Seq<MediaRow> {
        self.media@.map_values(|a: MediaAccount| a.row())
    }

    pub open spec fn wf(&self) -> bool {
        &&& users_unique(self.user_rows())
        &&& media_unique(self.media_rows())
        &&& links_resolve(self.user_rows(), self.media_rows())
    }

    /// An empty store.
    pub fn new() -> (r: IdentityStore)
        ensures
            r.wf(),
            r.user_rows() == Seq::<UserRow>::empty(),
            r.media_rows() == Seq::<MediaRow>::empty(),
    {
        let r = IdentityStore { users: Vec::new(), media: Vec::new() };
        assert(r.user_rows() =~= Seq::<UserRow>::empty());
        assert(r.media_rows() =~= Seq::<MediaRow>::empty());
        r
    }

    /// The users, in the order they were first stored.
    pub fn users(&self) -> (r: &Vec<Model>)
        ensures
            r@.map_values(|m: Model| m.row()) == self.user_rows(),
    {
        &self.users
    }

    /// The media accounts, in the order they were first stored.
    pub fn media_accounts(&self) -> (r: &Vec<MediaAccount>)
        ensures
            r@.map_values(|a: MediaAccount| a.row()) == self.media_rows(),
    {
        &self.media
    }

    /// Stores the chat account `id` with `token`: a new user, or on a user
    /// with that id already, its new token with its link kept. Refused when
    /// another user holds the token.
    pub fn upsert_chat_account(&mut self, id: String, token: String) -> (r: Result<(), StoreError>)
        requires
            old(self).wf(),
        ensures
            final(self).wf(),
            final(self).media_rows() == old(self).media_rows(),
            match upsert_chat(old(self).user_rows(), id@, token@) {
                Ok(rows) => r is Ok && final(self).user_rows() == rows,
                Err(e) => r == Err::<(), StoreError>(e) && final(self).user_rows() == old(self).user_rows(),
            },
    {
        let ghost rows = self.user_rows();
        let mut found: Option<usize> = None;
        let mut i: usize = 0;
        while i < self.users.len()
            invariant
                self.wf(),
                *self == *old(self),
                rows == self.user_rows(),
                rows.len() == self.users@.len(),
                i <= rows.len(),
                match found {
                    Some(k) => k < i && rows[k as int].0 == id@,
                    None => forall|j: int| 0 <= j < i ==> (#[trigger] rows[j]).0 != id@,
                },
                forall|j: int| 0 <= j < i ==> !((#[trigger] rows[j]).0 != id@ && rows[j].1 == token@),
            decreases rows.len() - i,
        {
            assert(rows[i as int] == self.users@[i as int].row());
            if self.users[i].id == id {
                found = Some(i);
            } else if self.users[i].discord_token == token {
                assert(token_taken(rows, id@, token@));
                return Err(StoreError::Constraint);
            }
            i = i + 1;
        }
        assert(!token_taken(rows, id@, token@));
        match found {
            Some(k) => {
                assert(has_user(rows, id@));
                assert(user_index(rows, id@) == k as int);
                let media_id = self.users[k].anilist_id;
                self.users.set(k, Model { id, discord_token: token, anilist_id: media_id });
                assert(self.user_rows() =~= rows.update(k as int, (id@, token@, media_id)));
            },
            None => {
                assert(!has_user(rows, id@));
                self.users.push(Model { id, discord_token: token, anilist_id: None });
                assert(self.user_rows() =~= rows.push((id@, token@, None)));
            },
        }
        Ok(())
    }

    /// Stores the media account: a new one, or on one with that id already,
    /// its new tokens and expiry.
    pub fn upsert_media_account(&mut self, account: MediaAccount)
        requires
            old(self).wf(),
        ensures
            final(self).wf(),
            final(self).user_rows() == old(self).user_rows(),
            final(self).media_rows() == upsert_media(old(self).media_rows(), account.row()),
    {
        let ghost media = self.media_rows();
        let ghost row = account.row();
        let mut found: Option<usize> = None;
        let mut i: usize = 0;
        while i < self.media.len()
            invariant
                self.wf(),
                *self == *old(self),
                row == account.row(),
                media == self.media_rows(),
                media.len() == self.media@.len(),
                i <= media.len(),
                match found {
                    Some(k) => k < i && media[k as int].0 == row.0,
                    None => forall|j: int| 0 <= j < i ==> (#[trigger] media[j]).0 != row.0,
                },
            decreases media.len() - i,
        {
            assert(media[i as int] == self.media@[i as int].row());
            if self.media[i].id == account.id {
                found = Some(i);
            }
            i = i + 1;
        }
        let ghost rows = self.user_rows();
        match found {
            Some(k) => {
                assert(has_media(media, row.0));
                assert(media_index(media, row.0) == k as int);
                self.media.set(k, account);
                assert(self.media_rows() =~= media.update(k as int, row));
                assert forall|i: int| 0 <= i < rows.len() && (#[trigger] rows[i]).2 is Some implies has_media(
                    self.media_rows(),
                    rows[i].2.unwrap(),
                ) by {
                    let m = choose|m: int| 0 <= m < media.len() && (#[trigger] media[m]).0 == rows[i].2.unwrap();
                    assert(self.media_rows()[m].0 == rows[i].2.unwrap());
                }
            },
            None => {
                assert(!has_media(media, row.0));
                self.media.push(account);
                assert(self.media_rows() =~= media.push(row));
                assert forall|i: int| 0 <= i < rows.len() && (#[trigger] rows[i]).2 is Some implies has_media(
                    self.media_rows(),
                    rows[i].2.unwrap(),
                ) by {
                    let m = choose|m: int| 0 <= m < media.len() && (#[trigger] media[m]).0 == rows[i].2.unwrap();
                    assert(self.media_rows()[m].0 == rows[i].2.unwrap());
                }
            },
        }
    }

    /// Links the user `user_id` to the media account `media_id`. Refused with
    /// `NotFound` when there is no such user, and with `Constraint` when there
    /// is no such media account or another user is linked to it.
    pub fn link_media_to_user(&mut self, user_id: &String, media_id: u32) -> (r: Result<(), StoreError>)
        requires
            old(self).wf(),
        ensures
            final(self).wf(),
            final(self).media_rows() == old(self).media_rows(),
            match link(old(self).user_rows(), old(self).media_rows(), user_id@, media_id) {
                Ok(rows) => r is Ok && final(self).user_rows() == rows,
                Err(e) => r == Err::<(), StoreError>(e) && final(self).user_rows() == old(self).user_rows(),
            },
    {
        let ghost rows = self.user_rows();
        let ghost media = self.media_rows();
        let mut found: Option<usize> = None;
        let mut taken = false;
        let mut i: usize = 0;
        while i < self.users.len()
            invariant
                self.wf(),
                *self == *old(self),
                rows == self.user_rows(),
                rows.len() == self.users@.len(),
                i <= rows.len(),
                match found {
                    Some(k) => k < i && rows[k as int].0 == user_id@,
                    None => forall|j: int| 0 <= j < i ==> (#[trigger] rows[j]).0 != user_id@,
                },
                taken == exists|j: int| 0 <= j < i && (#[trigger] rows[j]).0 != user_id@ && rows[j].2 == Some(media_id),
            decreases rows.len() - i,
        {
            assert(rows[i as int] == self.users@[i as int].row());
            if self.users[i].id == *user_id {
                found = Some(i);
            } else if self.users[i].anilist_id == Some(media_id) {
                taken = true;
            }
            i = i + 1;
        }
        let k = match found {
            Some(k) => k,
            None => {
                assert(!has_user(rows, user_id@));
                return Err(StoreError::NotFound);
            },
        };
        assert(has_user(rows, user_id@));
        assert(taken == media_taken(rows, user_id@, media_id));
        let mut exists_media = false;
        let mut m: usize = 0;
        while m < self.media.len()
            invariant
                self.wf(),
                *self == *old(self),
                media == self.media_rows(),
                media.len() == self.media@.len(),
                m <= media.len(),
                exists_media == exists|j: int| 0 <= j < m && (#[trigger] media[j]).0 == media_id,
            decreases media.len() - m,
        {
            assert(media[m as int] == self.media@[m as int].row());
            if self.media[m].id == media_id {
                exists_media = true;
            }
            m = m + 1;
        }
        assert(exists_media == has_media(media, media_id));
        if !exists_media || taken {
            return Err(StoreError::Constraint);
        }
        assert(user_index(rows, user_id@) == k as int);
        let id = self.users[k].id.clone();
        let token = self.users[k].discord_token.clone();
        self.users.set(k, Model { id, discord_token: token, anilist_id: Some(media_id) });
        assert(self.user_rows() =~= rows.update(k as int, (rows[k as int].0, rows[k as int].1, Some(media_id))));
        Ok(())
    }
}

} // verus!
