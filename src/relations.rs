//! The relationship store: follow edges between users and favorite edges
//! from users to articles. Adding an edge that exists and removing one
//! that does not are no-ops.

use vstd::prelude::*;

use crate::error::AppError;
use crate::model::{Favorite, Follow, Profile, User, copy_opt};
use crate::store::{Store, has_user, user_by_username, username_taken};

verus! {

broadcast use vstd::seq_lib::group_seq_properties, vstd::seq_lib::group_filter_ensures;

pub open spec fn has_follow(follows: Seq<Follow>, follower: i64, followee: i64) -> bool {
    exists|i: int|
        0 <= i < follows.len() && follows[i].follower_id == follower && follows[i].followee_id
            == followee
}

/// The position of the edge `follower -> followee` (meaningful when `has_follow`).
pub open spec fn follow_pos(follows: Seq<Follow>, follower: i64, followee: i64) -> int {
    choose|i: int|
        0 <= i < follows.len() && follows[i].follower_id == follower && follows[i].followee_id
            == followee
}

pub open spec fn has_favorite(favorites: Seq<Favorite>, user: i64, article: i64) -> bool {
    exists|i: int|
        0 <= i < favorites.len() && favorites[i].user_id == user && favorites[i].article_id
            == article
}

/// The position of the favorite of `article` by `user` (meaningful when `has_favorite`).
pub open spec fn favorite_pos(favorites: Seq<Favorite>, user: i64, article: i64) -> int {
    choose|i: int|
        0 <= i < favorites.len() && favorites[i].user_id == user && favorites[i].article_id
            == article
}

pub open spec fn of_article(article: i64) -> spec_fn(Favorite) -> bool {
    |f: Favorite| f.article_id == article
}

/// How many users favorite `article`.
pub open spec fn favorite_count(favorites: Seq<Favorite>, article: i64) -> nat {
    favorites.filter(of_article(article)).len()
}

pub open spec fn has_article(s: Store, id: i64) -> bool {
    exists|i: int| 0 <= i < s.articles@.len() && s.articles@[i].id == id
}

/// `after` differs from `before` in its follow edges only.
pub open spec fn same_but_follows(before: Store, after: Store) -> bool {
    &&& after.users@ == before.users@
    &&& after.articles@ == before.articles@
    &&& after.tags@ == before.tags@
    &&& after.favorites@ == before.favorites@
    &&& after.comments@ == before.comments@
    &&& after.next_id == before.next_id
    &&& after.hash_cost == before.hash_cost
}

/// `after` differs from `before` in its favorite edges and key counter only.
pub open spec fn same_but_favorites(before: Store, after: Store) -> bool {
    &&& after.users@ == before.users@
    &&& after.articles@ == before.articles@
    &&& after.tags@ == before.tags@
    &&& after.follows@ == before.follows@
    &&& after.comments@ == before.comments@
    &&& after.hash_cost == before.hash_cost
}

/// `after` is `before` without the edge `follower -> followee`.
pub open spec fn unfollowed(before: Store, after: Store, follower: i64, followee: i64) -> bool {
    &&& same_but_follows(before, after)
    &&& after.follows@ == if has_follow(before.follows@, follower, followee) {
        before.follows@.remove(follow_pos(before.follows@, follower, followee))
    } else {
        before.follows@
    }
}

/// `after` is `before` with the edge `follower -> followee` present.
pub open spec fn followed(before: Store, after: Store, follower: i64, followee: i64, now: i64) -> bool {
    &&& same_but_follows(before, after)
    &&& after.follows@ == if has_follow(before.follows@, follower, followee) {
        before.follows@
    } else {
        before.follows@.push(
            Follow { follower_id: follower, followee_id: followee, created_at: now, updated_at: now },
        )
    }
}

/// `after` is `before` without a favorite of `article` by `user`.
pub open spec fn unfavorited(before: Store, after: Store, user: i64, article: i64) -> bool {
    &&& same_but_favorites(before, after)
    &&& after.next_id == before.next_id
    &&& after.favorites@ == if has_favorite(before.favorites@, user, article) {
        before.favorites@.remove(favorite_pos(before.favorites@, user, article))
    } else {
        before.favorites@
    }
}

/// `after` is `before` with a favorite of `article` by `user` present.
pub open spec fn favorited(before: Store, after: Store, user: i64, article: i64, now: i64) -> bool {
    &&& same_but_favorites(before, after)
    &&& if has_favorite(before.favorites@, user, article) {
        after.favorites@ == before.favorites@ && after.next_id == before.next_id
    } else {
        after.favorites@ == before.favorites@.push(
            Favorite {
                id: before.next_id,
                article_id: article,
                user_id: user,
                created_at: now,
                updated_at: now,
            },
        ) && after.next_id == before.next_id + 1
    }
}

/// The profile of `u` as seen by `viewer`.
pub open spec fn profile_of(s: Store, viewer: i64, u: User) -> Profile {
    Profile {
        username: u.username,
        bio: u.bio,
        image: u.image,
        following: has_follow(s.follows@, viewer, u.id),
    }
}

/// Why `user` may not favorite `article`, if so.
pub open spec fn favorite_check(s: Store, user: i64, article: i64) -> Option<AppError> {
    if !has_user(s.users@, user) || !has_article(s, article) {
        Some(AppError::NotFound)
    } else if !has_favorite(s.favorites@, user, article) && s.next_id == i64::MAX {
        Some(AppError::StoreUnavailable)
    } else {
        None
    }
}

/// Why `follower` may not follow `followee`, if so.
pub open spec fn follow_check(s: Store, follower: i64, followee: i64) -> Option<AppError> {
    if !has_user(s.users@, follower) || !has_user(s.users@, followee) {
        Some(AppError::NotFound)
    } else if follower == followee {
        Some(AppError::ValidationError)
    } else {
        None
    }
}

impl Store {
    /// Where the edge `follower -> followee` stands.
    pub fn follow_index(&self, follower: i64, followee: i64) -> (r: Option<usize>)
        requires
            self.wf(),
        ensures
            match r {
                Some(i) => has_follow(self.follows@, follower, followee) && i == follow_pos(
                    self.follows@,
                    follower,
                    followee,
                ),
                None => !has_follow(self.follows@, follower, followee),
            },
    {
        let mut i: usize = 0;
        while i < self.follows.len()
            invariant
                self.wf(),
                i <= self.follows@.len(),
                forall|k: int|
                    0 <= k < i ==> !(self.follows@[k].follower_id == follower
                        && self.follows@[k].followee_id == followee),
            decreases self.follows@.len() - i,
        {
            let f = self.follows[i];
            if f.follower_id == follower && f.followee_id == followee {
                proof {
                    assert(has_follow(self.follows@, follower, followee));
                    let j = follow_pos(self.follows@, follower, followee);
                    assert(self.follows@[j].follower_id == self.follows@[i as int].follower_id);
                }
                return Some(i);
            }
            i = i + 1;
        }
        None
    }

    /// Where the favorite of `article` by `user` stands.
    pub fn favorite_index(&self, user: i64, article: i64) -> (r: Option<usize>)
        requires
            self.wf(),
        ensures
            match r {
                Some(i) => has_favorite(self.favorites@, user, article) && i == favorite_pos(
                    self.favorites@,
                    user,
                    article,
                ),
                None => !has_favorite(self.favorites@, user, article),
            },
    {
        let mut i: usize = 0;
        while i < self.favorites.len()
            invariant
                self.wf(),
                i <= self.favorites@.len(),
                forall|k: int|
                    0 <= k < i ==> !(self.favorites@[k].user_id == user
                        && self.favorites@[k].article_id == article),
            decreases self.favorites@.len() - i,
        {
            let f = self.favorites[i];
            if f.user_id == user && f.article_id == article {
                proof {
                    assert(has_favorite(self.favorites@, user, article));
                    let j = favorite_pos(self.favorites@, user, article);
                    assert(self.favorites@[j].user_id == self.favorites@[i as int].user_id);
                }
                return Some(i);
            }
            i = i + 1;
        }
        None
    }

    /// Whether an article with key `id` exists.
    pub fn article_index(&self, id: i64) -> (r: Option<usize>)
        requires
            self.wf(),
        ensures
            match r {
                Some(i) => i < self.articles@.len() && self.articles@[i as int].id == id,
                None => !has_article(*self, id),
            },
            r is Some <==> has_article(*self, id),
    {
        let mut i: usize = 0;
        while i < self.articles.len()
            invariant
                i <= self.articles@.len(),
                forall|k: int| 0 <= k < i ==> self.articles@[k].id != id,
            decreases self.articles@.len() - i,
        {
            if self.articles[i].id == id {
                return Some(i);
            }
            i = i + 1;
        }
        None
    }

    /// Whether `follower` follows `followee`.
    pub fn is_following(&self, follower: i64, followee: i64) -> (r: bool)
        requires
            self.wf(),
        ensures
            r == has_follow(self.follows@, follower, followee),
    {
        self.follow_index(follower, followee).is_some()
    }

    /// Adds the edge `follower -> followee`; an existing edge is kept as
    /// it is. Following oneself is refused.
    pub fn follow_user(&mut self, follower: i64, followee: i64, now: i64) -> (r: Result<(), AppError>)
        requires
            old(self).wf(),
        ensures
            final(self).wf(),
            match follow_check(*old(self), follower, followee) {
                Some(e) => r == Err::<(), AppError>(e) && *final(self) == *old(self),
                None => r is Ok && followed(*old(self), *final(self), follower, followee, now),
            },
            r is Ok ==> has_follow(final(self).follows@, follower, followee),
    {
        if self.user_index(follower).is_none() || self.user_index(followee).is_none() {
            return Err(AppError::NotFound);
        }
        if follower == followee {
            return Err(AppError::ValidationError);
        }
        if self.follow_index(follower, followee).is_some() {
            return Ok(());
        }
        let ghost before = *self;
        let edge = Follow { follower_id: follower, followee_id: followee, created_at: now, updated_at: now };
        self.follows.push(edge);
        proof {
            let fs = self.follows@;
            let n = before.follows@.len() as int;
            assert(fs[n] == edge);
            assert forall|i: int, j: int|
                0 <= i < fs.len() && 0 <= j < fs.len() && #[trigger] fs[i].follower_id
                    == #[trigger] fs[j].follower_id && fs[i].followee_id == fs[j].followee_id implies i
                == j by {
                if i == n && j < n {
                    assert(before.follows@[j] == fs[j]);
                } else if j == n && i < n {
                    assert(before.follows@[i] == fs[i]);
                }
            }
        }
        Ok(())
    }

    /// Removes the edge `follower -> followee`, if it exists.
    pub fn unfollow_user(&mut self, follower: i64, followee: i64)
        requires
            old(self).wf(),
        ensures
            final(self).wf(),
            unfollowed(*old(self), *final(self), follower, followee),
            !has_follow(final(self).follows@, follower, followee),
    {
        match self.follow_index(follower, followee) {
            None => {},
            Some(k) => {
                let ghost before = *self;
                self.follows.remove(k);
                proof {
                    let fs = self.follows@;
                    let old_fs = before.follows@;
                    assert forall|i: int, j: int|
                        0 <= i < fs.len() && 0 <= j < fs.len() && #[trigger] fs[i].follower_id
                            == #[trigger] fs[j].follower_id && fs[i].followee_id
                            == fs[j].followee_id implies i == j by {
                        let oi = if i < k { i } else { i + 1 };
                        let oj = if j < k { j } else { j + 1 };
                        assert(fs[i] == old_fs[oi]);
                        assert(fs[j] == old_fs[oj]);
                    }
                    if has_follow(fs, follower, followee) {
                        let i = choose|i: int|
                            0 <= i < fs.len() && fs[i].follower_id == follower
                                && fs[i].followee_id == followee;
                        let oi = if i < k { i } else { i + 1 };
                        assert(fs[i] == old_fs[oi]);
                        assert(old_fs[k as int].follower_id == old_fs[oi].follower_id);
                    }
                }
            },
        }
    }

    /// The favorite information of `article` for `viewer`.
    pub fn favorite_info(&self, viewer: i64, article: i64) -> (r: crate::model::FavoriteInfo)
        requires
            self.wf(),
        ensures
            r.is_favorited == has_favorite(self.favorites@, viewer, article),
            r.favorites_count == favorite_count(self.favorites@, article),
    {
        crate::model::FavoriteInfo {
            is_favorited: self.favorite_index(viewer, article).is_some(),
            favorites_count: self.fetch_favorites_count_by_article_id(article),
        }
    }

    /// How many users favorite `article`.
    pub fn fetch_favorites_count_by_article_id(&self, article: i64) -> (r: u64)
        ensures
            r == favorite_count(self.favorites@, article),
    {
        let mut count: u64 = 0;
        let mut i: usize = 0;
        while i < self.favorites.len()
            invariant
                i <= self.favorites@.len(),
                count == self.favorites@.subrange(0, i as int).filter(of_article(article)).len(),
                count <= i,
            decreases self.favorites@.len() - i,
        {
            proof {
                let s = self.favorites@;
                assert(s.subrange(0, i + 1) == s.subrange(0, i as int).push(s[i as int]));
                s.subrange(0, i as int).lemma_filter_push(s[i as int], of_article(article));
            }
            if self.favorites[i].article_id == article {
                count = count + 1;
            }
            i = i + 1;
        }
        proof {
            assert(self.favorites@.subrange(0, i as int) == self.favorites@);
        }
        count
    }

    /// Adds a favorite of `article` by `user`; an existing one is kept.
    pub fn favorite(&mut self, user: i64, article: i64, now: i64) -> (r: Result<(), AppError>)
        requires
            old(self).wf(),
        ensures
            final(self).wf(),
            match favorite_check(*old(self), user, article) {
                Some(e) => r == Err::<(), AppError>(e) && *final(self) == *old(self),
                None => r is Ok && favorited(*old(self), *final(self), user, article, now),
            },
            r is Ok ==> has_favorite(final(self).favorites@, user, article),
    {
        if self.user_index(user).is_none() || self.article_index(article).is_none() {
            return Err(AppError::NotFound);
        }
        if self.favorite_index(user, article).is_some() {
            return Ok(());
        }
        if self.next_id == i64::MAX {
            return Err(AppError::StoreUnavailable);
        }
        let ghost before = *self;
        let edge = Favorite {
            id: self.next_id,
            article_id: article,
            user_id: user,
            created_at: now,
            updated_at: now,
        };
        self.favorites.push(edge);
        self.next_id = self.next_id + 1;
        proof {
            let fs = self.favorites@;
            let n = before.favorites@.len() as int;
            assert(fs[n] == edge);
            let k = choose|k: int| 0 <= k < before.articles@.len() && before.articles@[k].id == article;
            assert(before.articles@[k].id < before.next_id);
            assert forall|i: int, j: int|
                0 <= i < fs.len() && 0 <= j < fs.len() && #[trigger] fs[i].user_id
                    == #[trigger] fs[j].user_id && fs[i].article_id == fs[j].article_id implies i
                == j by {
                if i == n && j < n {
                    assert(before.favorites@[j] == fs[j]);
                } else if j == n && i < n {
                    assert(before.favorites@[i] == fs[i]);
                }
            }
            assert forall|i: int| 0 <= i < self.articles@.len() implies has_user(
                self.users@,
                (#[trigger] self.articles@[i]).author_id,
            ) by {
                assert(has_user(before.users@, before.articles@[i].author_id));
            }
        }
        Ok(())
    }

    /// Removes the favorite of `article` by `user`, if it exists.
    pub fn unfavorite(&mut self, user: i64, article: i64)
        requires
            old(self).wf(),
        ensures
            final(self).wf(),
            unfavorited(*old(self), *final(self), user, article),
            !has_favorite(final(self).favorites@, user, article),
    {
        match self.favorite_index(user, article) {
            None => {},
            Some(k) => {
                let ghost before = *self;
                self.favorites.remove(k);
                proof {
                    let fs = self.favorites@;
                    let old_fs = before.favorites@;
                    assert forall|i: int, j: int|
                        0 <= i < fs.len() && 0 <= j < fs.len() && #[trigger] fs[i].user_id
                            == #[trigger] fs[j].user_id && fs[i].article_id
                            == fs[j].article_id implies i == j by {
                        let oi = if i < k { i } else { i + 1 };
                        let oj = if j < k { j } else { j + 1 };
                        assert(fs[i] == old_fs[oi]);
                        assert(fs[j] == old_fs[oj]);
                    }
                    assert forall|i: int| 0 <= i < fs.len() implies 0 < (#[trigger] fs[i]).id
                        < self.next_id && fs[i].article_id < self.next_id by {
                        let oi = if i < k { i } else { i + 1 };
                        assert(fs[i] == old_fs[oi]);
                    }
                    if has_favorite(fs, user, article) {
                        let i = choose|i: int|
                            0 <= i < fs.len() && fs[i].user_id == user && fs[i].article_id
                                == article;
                        let oi = if i < k { i } else { i + 1 };
                        assert(fs[i] == old_fs[oi]);
                        assert(old_fs[k as int].user_id == old_fs[oi].user_id);
                    }
                }
            },
        }
    }

    /// The profile of the user named `username` as seen by `me`.
    pub fn fetch_by_name(&self, me: i64, username: &str) -> (r: Result<Profile, AppError>)
        requires
            self.wf(),
        ensures
            r == if username_taken(self.users@, username@) {
                Ok(profile_of(*self, me, user_by_username(self.users@, username@)))
            } else {
                Err::<Profile, AppError>(AppError::NotFound)
            },
    {
        let key = username.to_owned();
        match self.username_index(&key) {
            None => Err(AppError::NotFound),
            Some(i) => Ok(self.profile(me, &self.users[i])),
        }
    }

    /// The profile of `u` as seen by `viewer`.
    pub fn profile(&self, viewer: i64, u: &User) -> (r: Profile)
        requires
            self.wf(),
        ensures
            r == profile_of(*self, viewer, *u),
    {
        Profile {
            username: u.username.clone(),
            bio: copy_opt(&u.bio),
            image: copy_opt(&u.image),
            following: self.is_following(viewer, u.id),
        }
    }

    /// The profile of user `id` as seen by `viewer`.
    pub fn fetch_profile_by_id(&self, viewer: i64, id: i64) -> (r: Result<Profile, AppError>)
        requires
            self.wf(),
        ensures
            r == if has_user(self.users@, id) {
                Ok(profile_of(*self, viewer, crate::store::user_of(self.users@, id)))
            } else {
                Err::<Profile, AppError>(AppError::NotFound)
            },
    {
        match self.user_index(id) {
            None => Err(AppError::NotFound),
            Some(i) => {
                proof {
                    let j = crate::store::user_pos(self.users@, id);
                    assert(self.users@[j].id == self.users@[i as int].id);
                }
                Ok(self.profile(viewer, &self.users[i]))
            },
        }
    }

    /// `me` follows the user named `username`; returns that user's profile.
    pub fn follow(&mut self, me: i64, username: &str, now: i64) -> (r: Result<Profile, AppError>)
        requires
            old(self).wf(),
        ensures
            final(self).wf(),
            !username_taken(old(self).users@, username@) ==> r == Err::<Profile, AppError>(
                AppError::NotFound,
            ) && *final(self) == *old(self),
            username_taken(old(self).users@, username@) ==> {
                let target = user_by_username(old(self).users@, username@);
                match follow_check(*old(self), me, target.id) {
                    Some(e) => r == Err::<Profile, AppError>(e) && *final(self) == *old(self),
                    None => followed(*old(self), *final(self), me, target.id, now) && r == Ok::<
                        Profile,
                        AppError,
                    >(profile_of(*final(self), me, target)),
                }
            },
    {
        let key = username.to_owned();
        let i = match self.username_index(&key) {
            None => {
                return Err(AppError::NotFound);
            },
            Some(i) => i,
        };
        let target = self.users[i].copied();
        match self.follow_user(me, target.id, now) {
            Err(e) => Err(e),
            Ok(()) => Ok(self.profile(me, &target)),
        }
    }

    /// `me` stops following the user named `username`; returns that user's
    /// profile. Not following is no error.
    pub fn unfollow(&mut self, me: i64, username: &str) -> (r: Result<Profile, AppError>)
        requires
            old(self).wf(),
        ensures
            final(self).wf(),
            !username_taken(old(self).users@, username@) ==> r == Err::<Profile, AppError>(
                AppError::NotFound,
            ) && *final(self) == *old(self),
            username_taken(old(self).users@, username@) ==> {
                let target = user_by_username(old(self).users@, username@);
                &&& unfollowed(*old(self), *final(self), me, target.id)
                &&& r == Ok::<Profile, AppError>(profile_of(*final(self), me, target))
                &&& !r->Ok_0.following
            },
    {
        let key = username.to_owned();
        let i = match self.username_index(&key) {
            None => {
                return Err(AppError::NotFound);
            },
            Some(i) => i,
        };
        let target = self.users[i].copied();
        self.unfollow_user(me, target.id);
        Ok(self.profile(me, &target))
    }
}

} // verus!
