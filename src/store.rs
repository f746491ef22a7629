//! The relational store: one table per kind of row, the rules that tie
//! them together, and the credential operations on users.

use vstd::prelude::*;

use crate::error::AppError;
use crate::model::{Article, Comment, Favorite, Follow, Tag, User};
use crate::password::{hash_password, password_verifies, verify_password};
use crate::slug::slugify;

verus! {

/// All rows of the relational store, held in memory. Keys are handed out
/// from `next_id`, which only grows.
pub struct Store {
    pub users: Vec<User>,
    pub articles: Vec<Article>,
    pub tags: Vec<Tag>,
    pub follows: Vec<Follow>,
    pub favorites: Vec<Favorite>,
    pub comments: Vec<Comment>,
    pub next_id: i64,
    /// The bcrypt work factor new password hashes are made with.
    pub hash_cost: u32,
}

pub open spec fn has_user(users: Seq<User>, id: i64) -> bool {
    exists|i: int| 0 <= i < users.len() && users[i].id == id
}

/// The user with key `id` (meaningful when `has_user`).
pub open spec fn user_of(users: Seq<User>, id: i64) -> User {
    users[choose|i: int| 0 <= i < users.len() && users[i].id == id]
}

pub open spec fn email_taken(users: Seq<User>, email: Seq<char>) -> bool {
    exists|i: int| 0 <= i < users.len() && users[i].email@ == email
}

/// The user registered with `email` (meaningful when `email_taken`).
pub open spec fn user_by_email(users: Seq<User>, email: Seq<char>) -> User {
    users[choose|i: int| 0 <= i < users.len() && users[i].email@ == email]
}

pub open spec fn username_taken(users: Seq<User>, name: Seq<char>) -> bool {
    exists|i: int| 0 <= i < users.len() && users[i].username@ == name
}

/// The user named `name` (meaningful when `username_taken`).
pub open spec fn user_by_username(users: Seq<User>, name: Seq<char>) -> User {
    users[choose|i: int| 0 <= i < users.len() && users[i].username@ == name]
}

pub open spec fn users_wf(users: Seq<User>, next_id: i64) -> bool {
    &&& forall|i: int| 0 <= i < users.len() ==> 0 < (#[trigger] users[i]).id < next_id
    &&& forall|i: int, j: int|
        0 <= i < users.len() && 0 <= j < users.len() && #[trigger] users[i].id
            == #[trigger] users[j].id ==> i == j
    &&& forall|i: int, j: int|
        0 <= i < users.len() && 0 <= j < users.len() && #[trigger] users[i].email@
            == #[trigger] users[j].email@ ==> i == j
    &&& forall|i: int, j: int|
        0 <= i < users.len() && 0 <= j < users.len() && #[trigger] users[i].username@
            == #[trigger] users[j].username@ ==> i == j
}

/// Articles stand in creation order: their creation times never decrease.
pub open spec fn created_in_order(articles: Seq<Article>) -> bool {
    forall|i: int, j: int|
        0 <= i <= j < articles.len() ==> (#[trigger] articles[i]).created_at <= (
        #[trigger] articles[j]).created_at
}

pub open spec fn articles_wf(articles: Seq<Article>, users: Seq<User>, next_id: i64) -> bool {
    &&& created_in_order(articles)
    &&& forall|i: int|
        0 <= i < articles.len() ==> 0 < (#[trigger] articles[i]).id < next_id && has_user(
            users,
            articles[i].author_id,
        ) && articles[i].slug@ == slugify(articles[i].title@)
    &&& forall|i: int, j: int|
        0 <= i < articles.len() && 0 <= j < articles.len() && #[trigger] articles[i].id
            == #[trigger] articles[j].id ==> i == j
    &&& forall|i: int, j: int|
        0 <= i < articles.len() && 0 <= j < articles.len() && #[trigger] articles[i].slug@
            == #[trigger] articles[j].slug@ ==> i == j
}

pub open spec fn comments_wf(comments: Seq<Comment>, users: Seq<User>) -> bool {
    forall|i: int| 0 <= i < comments.len() ==> has_user(users, (#[trigger] comments[i]).author_id)
}

pub open spec fn edges_wf(
    tags: Seq<Tag>,
    follows: Seq<Follow>,
    favorites: Seq<Favorite>,
    comments: Seq<Comment>,
    next_id: i64,
) -> bool {
    &&& forall|i: int|
        0 <= i < tags.len() ==> 0 < (#[trigger] tags[i]).id < next_id && tags[i].article_id
            < next_id
    &&& forall|i: int, j: int|
        0 <= i < follows.len() && 0 <= j < follows.len() && #[trigger] follows[i].follower_id
            == #[trigger] follows[j].follower_id && follows[i].followee_id
            == follows[j].followee_id ==> i == j
    &&& forall|i: int|
        0 <= i < favorites.len() ==> 0 < (#[trigger] favorites[i]).id < next_id
            && favorites[i].article_id < next_id
    &&& forall|i: int, j: int|
        0 <= i < favorites.len() && 0 <= j < favorites.len() && #[trigger] favorites[i].user_id
            == #[trigger] favorites[j].user_id && favorites[i].article_id
            == favorites[j].article_id ==> i == j
    &&& forall|i: int|
        0 <= i < comments.len() ==> 0 < (#[trigger] comments[i]).id < next_id
            && comments[i].article_id < next_id
    &&& forall|i: int, j: int|
        0 <= i < comments.len() && 0 <= j < comments.len() && #[trigger] comments[i].id
            == #[trigger] comments[j].id ==> i == j
}

/// Why a signup with these values is refused, if it is.
pub open spec fn signup_check(s: Store, email: Seq<char>, username: Seq<char>) -> Option<AppError> {
    if email_taken(s.users@, email) || username_taken(s.users@, username) {
        Some(AppError::DuplicateConstraint)
    } else if email.len() == 0 || username.len() == 0 {
        Some(AppError::ValidationError)
    } else if s.next_id == i64::MAX {
        Some(AppError::StoreUnavailable)
    } else {
        None
    }
}

/// `after` is `before` with `user` registered under `email` and `username`:
/// a fresh key, the given password hash, no bio or image, both times `now`.
pub open spec fn signed_up(
    before: Store,
    after: Store,
    email: Seq<char>,
    username: Seq<char>,
    password_hash: Seq<char>,
    now: i64,
    user: User,
) -> bool {
    &&& user.id == before.next_id
    &&& user.email@ == email
    &&& user.username@ == username
    &&& user.password@ == password_hash
    &&& user.bio is None
    &&& user.image is None
    &&& user.created_at == now
    &&& user.updated_at == now
    &&& after.users@ == before.users@.push(user)
    &&& after.next_id == before.next_id + 1
    &&& after.articles@ == before.articles@
    &&& after.tags@ == before.tags@
    &&& after.follows@ == before.follows@
    &&& after.favorites@ == before.favorites@
    &&& after.comments@ == before.comments@
    &&& after.hash_cost == before.hash_cost
}

/// What signing in with `email` and `password` gives.
pub open spec fn signin_result(s: Store, email: Seq<char>, password: Seq<char>) -> Result<
    User,
    AppError,
> {
    if !email_taken(s.users@, email) {
        Err(AppError::NotFound)
    } else if password_verifies(password, user_by_email(s.users@, email).password@) {
        Ok(user_by_email(s.users@, email))
    } else {
        Err(AppError::InvalidCredentials)
    }
}

/// Fields of a user that a partial update may change; `None` leaves the
/// field as it is. `password` holds a raw password.
#[derive(Debug, Clone)]
pub struct UpdatableUser {
    pub email: Option<String>,
    pub username: Option<String>,
    pub password: Option<String>,
    pub bio: Option<String>,
    pub image: Option<String>,
}

/// `new` is `old` with the given fields replaced (`password` already hashed).
pub open spec fn updated_user(
    old: User,
    email: Option<String>,
    username: Option<String>,
    password_hash: Option<String>,
    bio: Option<String>,
    image: Option<String>,
    now: i64,
) -> User {
    User {
        id: old.id,
        email: match email {
            Some(e) => e,
            None => old.email,
        },
        username: match username {
            Some(u) => u,
            None => old.username,
        },
        password: match password_hash {
            Some(p) => p,
            None => old.password,
        },
        bio: match bio {
            Some(b) => Some(b),
            None => old.bio,
        },
        image: match image {
            Some(i) => Some(i),
            None => old.image,
        },
        created_at: old.created_at,
        updated_at: now,
    }
}

/// Why a partial update of user `id` is refused, if it is.
pub open spec fn update_check(s: Store, id: i64, email: Option<String>, username: Option<String>) -> Option<
    AppError,
> {
    if !has_user(s.users@, id) {
        Some(AppError::NotFound)
    } else if (email matches Some(e) && email_taken(s.users@, e@) && user_by_email(
        s.users@,
        e@,
    ).id != id) || (username matches Some(u) && username_taken(s.users@, u@)
        && user_by_username(s.users@, u@).id != id) {
        Some(AppError::DuplicateConstraint)
    } else if (email matches Some(e) && e@.len() == 0) || (username matches Some(u) && u@.len()
        == 0) {
        Some(AppError::ValidationError)
    } else {
        None
    }
}

/// The position of the user with key `id`.
pub open spec fn user_pos(users: Seq<User>, id: i64) -> int {
    choose|i: int| 0 <= i < users.len() && users[i].id == id
}

impl Store {
    /// The rules every state of the store keeps: keys are positive, below
    /// `next_id` and unique; emails, usernames and slugs are unique; each
    /// article's author exists; at most one follow edge per ordered pair
    /// and one favorite per user and article; each slug is the slug of its
    /// article's title, articles stand in creation order, and each
    /// comment's author exists.
    pub open spec fn wf(&self) -> bool {
        &&& 0 < self.next_id
        &&& users_wf(self.users@, self.next_id)
        &&& articles_wf(self.articles@, self.users@, self.next_id)
        &&& edges_wf(self.tags@, self.follows@, self.favorites@, self.comments@, self.next_id)
        &&& comments_wf(self.comments@, self.users@)
    }

    /// An empty store hashing passwords at work factor `hash_cost`.
    pub fn new(hash_cost: u32) -> (r: Store)
        ensures
            r.hash_cost == hash_cost,
            r.wf(),
            r.users@.len() == 0,
            r.articles@.len() == 0,
            r.tags@.len() == 0,
            r.follows@.len() == 0,
            r.favorites@.len() == 0,
            r.comments@.len() == 0,
            r.next_id == 1,
    {
        Store {
            users: Vec::new(),
            articles: Vec::new(),
            tags: Vec::new(),
            follows: Vec::new(),
            favorites: Vec::new(),
            comments: Vec::new(),
            next_id: 1,
            hash_cost,
        }
    }

    /// The position of the user with key `id`.
    pub fn user_index(&self, id: i64) -> (r: Option<usize>)
        requires
            self.wf(),
        ensures
            match r {
                Some(i) => i < self.users@.len() && self.users@[i as int].id == id && i
                    == user_pos(self.users@, id),
                None => !has_user(self.users@, id),
            },
    {
        let mut i: usize = 0;
        while i < self.users.len()
            invariant
                self.wf(),
                i <= self.users@.len(),
                forall|k: int| 0 <= k < i ==> self.users@[k].id != id,
            decreases self.users@.len() - i,
        {
            if self.users[i].id == id {
                proof {
                    assert(has_user(self.users@, id));
                    let j = user_pos(self.users@, id);
                    assert(self.users@[j].id == self.users@[i as int].id);
                }
                return Some(i);
            }
            i = i + 1;
        }
        None
    }

    /// The position of the user registered with `email`.
    pub fn email_index(&self, email: &String) -> (r: Option<usize>)
        requires
            self.wf(),
        ensures
            match r {
                Some(i) => i < self.users@.len() && self.users@[i as int] == user_by_email(
                    self.users@,
                    email@,
                ) && email_taken(self.users@, email@),
                None => !email_taken(self.users@, email@),
            },
    {
        let mut i: usize = 0;
        while i < self.users.len()
            invariant
                self.wf(),
                i <= self.users@.len(),
                forall|k: int| 0 <= k < i ==> self.users@[k].email@ != email@,
            decreases self.users@.len() - i,
        {
            if self.users[i].email.eq(email) {
                proof {
                    assert(email_taken(self.users@, email@));
                    let j = choose|j: int|
                        0 <= j < self.users@.len() && self.users@[j].email@ == email@;
                    assert(self.users@[j].email@ == self.users@[i as int].email@);
                }
                return Some(i);
            }
            i = i + 1;
        }
        None
    }

    /// The position of the user named `name`.
    pub fn username_index(&self, name: &String) -> (r: Option<usize>)
        requires
            self.wf(),
        ensures
            match r {
                Some(i) => i < self.users@.len() && self.users@[i as int] == user_by_username(
                    self.users@,
                    name@,
                ) && username_taken(self.users@, name@),
                None => !username_taken(self.users@, name@),
            },
    {
        let mut i: usize = 0;
        while i < self.users.len()
            invariant
                self.wf(),
                i <= self.users@.len(),
                forall|k: int| 0 <= k < i ==> self.users@[k].username@ != name@,
            decreases self.users@.len() - i,
        {
            if self.users[i].username.eq(name) {
                proof {
                    assert(username_taken(self.users@, name@));
                    let j = choose|j: int|
                        0 <= j < self.users@.len() && self.users@[j].username@ == name@;
                    assert(self.users@[j].username@ == self.users@[i as int].username@);
                }
                return Some(i);
            }
            i = i + 1;
        }
        None
    }

    /// The user with key `id`.
    pub fn find_by_id(&self, id: i64) -> (r: Result<User, AppError>)
        requires
            self.wf(),
        ensures
            r == if has_user(self.users@, id) {
                Ok(user_of(self.users@, id))
            } else {
                Err::<User, AppError>(AppError::NotFound)
            },
    {
        match self.user_index(id) {
            Some(i) => Ok(self.users[i].copied()),
            None => Err(AppError::NotFound),
        }
    }

    /// The user named `name`.
    pub fn find_by_username(&self, name: &str) -> (r: Result<User, AppError>)
        requires
            self.wf(),
        ensures
            r == if username_taken(self.users@, name@) {
                Ok(user_by_username(self.users@, name@))
            } else {
                Err::<User, AppError>(AppError::NotFound)
            },
    {
        let key = name.to_owned();
        match self.username_index(&key) {
            Some(i) => Ok(self.users[i].copied()),
            None => Err(AppError::NotFound),
        }
    }

    /// Registers a user whose password is already hashed.
    pub fn signup_with_hash(&mut self, email: &str, username: &str, password_hash: String, now: i64) -> (r:
        Result<User, AppError>)
        requires
            old(self).wf(),
        ensures
            final(self).wf(),
            match signup_check(*old(self), email@, username@) {
                Some(e) => r == Err::<User, AppError>(e) && *final(self) == *old(self),
                None => r matches Ok(u) && signed_up(
                    *old(self),
                    *final(self),
                    email@,
                    username@,
                    password_hash@,
                    now,
                    u,
                ),
            },
    {
        let email_s = email.to_owned();
        let username_s = username.to_owned();
        let e = self.email_index(&email_s);
        let u = self.username_index(&username_s);
        if e.is_some() || u.is_some() {
            return Err(AppError::DuplicateConstraint);
        }
        if email.unicode_len() == 0 || username.unicode_len() == 0 {
            return Err(AppError::ValidationError);
        }
        if self.next_id == i64::MAX {
            return Err(AppError::StoreUnavailable);
        }
        let user = User {
            id: self.next_id,
            username: username_s,
            email: email_s,
            password: password_hash,
            bio: None,
            image: None,
            created_at: now,
            updated_at: now,
        };
        let result = user.copied();
        let ghost before = *self;
        self.users.push(user);
        self.next_id = self.next_id + 1;
        proof {
            let users = self.users@;
            let n = before.users@.len() as int;
            assert forall|i: int, j: int|
                0 <= i < users.len() && 0 <= j < users.len() && #[trigger] users[i].email@
                    == #[trigger] users[j].email@ implies i == j by {
                if i == n && j < n {
                    assert(before.users@[j].email@ == email@);
                } else if j == n && i < n {
                    assert(before.users@[i].email@ == email@);
                }
            }
            assert forall|i: int, j: int|
                0 <= i < users.len() && 0 <= j < users.len() && #[trigger] users[i].username@
                    == #[trigger] users[j].username@ implies i == j by {
                if i == n && j < n {
                    assert(before.users@[j].username@ == username@);
                } else if j == n && i < n {
                    assert(before.users@[i].username@ == username@);
                }
            }
            assert forall|i: int| 0 <= i < self.articles@.len() implies has_user(
                users,
                #[trigger] self.articles@[i].author_id,
            ) by {
                assert(has_user(before.users@, before.articles@[i].author_id));
                let k = choose|k: int|
                    0 <= k < before.users@.len() && before.users@[k].id
                        == before.articles@[i].author_id;
                assert(users[k] == before.users@[k]);
            }
            assert forall|i: int| 0 <= i < self.comments@.len() implies has_user(
                users,
                (#[trigger] self.comments@[i]).author_id,
            ) by {
                assert(has_user(before.users@, before.comments@[i].author_id));
                let k = choose|k: int|
                    0 <= k < before.users@.len() && before.users@[k].id
                        == before.comments@[i].author_id;
                assert(users[k] == before.users@[k]);
            }
        }
        Ok(result)
    }

    /// Registers a user: the raw password is hashed and never stored.
    pub fn signup(&mut self, email: &str, username: &str, password: &str, now: i64) -> (r: Result<
        User,
        AppError,
    >)
        requires
            old(self).wf(),
        ensures
            final(self).wf(),
            match signup_check(*old(self), email@, username@) {
                Some(e) => r == Err::<User, AppError>(e) && *final(self) == *old(self),
                None => match r {
                    Ok(u) => signed_up(
                        *old(self),
                        *final(self),
                        email@,
                        username@,
                        u.password@,
                        now,
                        u,
                    ) && password_verifies(password@, u.password@),
                    Err(e) => e == AppError::StoreUnavailable && *final(self) == *old(self),
                },
            },
    {
        let email_s = email.to_owned();
        let username_s = username.to_owned();
        if self.email_index(&email_s).is_some() || self.username_index(&username_s).is_some() {
            return Err(AppError::DuplicateConstraint);
        }
        if email.unicode_len() == 0 || username.unicode_len() == 0 {
            return Err(AppError::ValidationError);
        }
        if self.next_id == i64::MAX {
            return Err(AppError::StoreUnavailable);
        }
        match hash_password(password, self.hash_cost) {
            Some(h) => {
                let ghost hv = h@;
                let r = self.signup_with_hash(email, username, h, now);
                r
            },
            None => Err(AppError::StoreUnavailable),
        }
    }

    /// The user registered with `email`, when `password` matches its hash.
    pub fn check_credentials(&self, email: &str, password: &str) -> (r: Result<User, AppError>)
        requires
            self.wf(),
        ensures
            r == signin_result(*self, email@, password@),
    {
        let key = email.to_owned();
        match self.email_index(&key) {
            None => Err(AppError::NotFound),
            Some(i) => {
                if verify_password(password, self.users[i].password.as_str()) {
                    Ok(self.users[i].copied())
                } else {
                    Err(AppError::InvalidCredentials)
                }
            },
        }
    }

    /// Why a partial update of user `id` would be refused, if it would.
    pub fn check_update(&self, id: i64, email: &Option<String>, username: &Option<String>) -> (r:
        Option<AppError>)
        requires
            self.wf(),
        ensures
            r == update_check(*self, id, *email, *username),
    {
        if self.user_index(id).is_none() {
            return Some(AppError::NotFound);
        }
        if let Some(e) = email {
            if let Some(k) = self.email_index(e) {
                if self.users[k].id != id {
                    return Some(AppError::DuplicateConstraint);
                }
            }
        }
        if let Some(u) = username {
            if let Some(k) = self.username_index(u) {
                if self.users[k].id != id {
                    return Some(AppError::DuplicateConstraint);
                }
            }
        }
        if let Some(e) = email {
            if e.as_str().unicode_len() == 0 {
                return Some(AppError::ValidationError);
            }
        }
        if let Some(u) = username {
            if u.as_str().unicode_len() == 0 {
                return Some(AppError::ValidationError);
            }
        }
        None
    }

    /// Applies a partial update to user `id` whose password, if any, is
    /// already hashed.
    pub fn update_with_hash(
        &mut self,
        id: i64,
        email: Option<String>,
        username: Option<String>,
        password_hash: Option<String>,
        bio: Option<String>,
        image: Option<String>,
        now: i64,
    ) -> (r: Result<User, AppError>)
        requires
            old(self).wf(),
        ensures
            final(self).wf(),
            match update_check(*old(self), id, email, username) {
                Some(e) => r == Err::<User, AppError>(e) && *final(self) == *old(self),
                None => {
                    let pos = user_pos(old(self).users@, id);
                    let u = updated_user(
                        old(self).users@[pos],
                        email,
                        username,
                        password_hash,
                        bio,
                        image,
                        now,
                    );
                    &&& r == Ok::<User, AppError>(u)
                    &&& final(self).users@ == old(self).users@.update(pos, u)
                    &&& final(self).next_id == old(self).next_id
                    &&& final(self).articles@ == old(self).articles@
                    &&& final(self).tags@ == old(self).tags@
                    &&& final(self).follows@ == old(self).follows@
                    &&& final(self).favorites@ == old(self).favorites@
                    &&& final(self).comments@ == old(self).comments@
                },
            },
    {
        let pos = match self.user_index(id) {
            Some(i) => i,
            None => {
                return Err(AppError::NotFound);
            },
        };
        if let Some(e) = &email {
            if let Some(k) = self.email_index(e) {
                if self.users[k].id != id {
                    return Err(AppError::DuplicateConstraint);
                }
            }
        }
        if let Some(u) = &username {
            if let Some(k) = self.username_index(u) {
                if self.users[k].id != id {
                    return Err(AppError::DuplicateConstraint);
                }
            }
        }
        if let Some(e) = &email {
            if e.as_str().unicode_len() == 0 {
                return Err(AppError::ValidationError);
            }
        }
        if let Some(u) = &username {
            if u.as_str().unicode_len() == 0 {
                return Err(AppError::ValidationError);
            }
        }
        let old_user = self.users[pos].copied();
        let user = User {
            id: old_user.id,
            email: match email {
                Some(e) => e,
                None => old_user.email,
            },
            username: match username {
                Some(u) => u,
                None => old_user.username,
            },
            password: match password_hash {
                Some(p) => p,
                None => old_user.password,
            },
            bio: match bio {
                Some(b) => Some(b),
                None => old_user.bio,
            },
            image: match image {
                Some(i) => Some(i),
                None => old_user.image,
            },
            created_at: old_user.created_at,
            updated_at: now,
        };
        let result = user.copied();
        let ghost before = *self;
        self.users.set(pos, user);
        proof {
            let users = self.users@;
            let p = pos as int;
            assert forall|i: int, j: int|
                0 <= i < users.len() && 0 <= j < users.len() && #[trigger] users[i].email@
                    == #[trigger] users[j].email@ implies i == j by {
                if i == p && j != p {
                    assert(email_taken(before.users@, users[p].email@) ==> user_by_email(before.users@, users[p].email@).id == id);
                    assert(before.users@[j].email@ == users[p].email@);
                } else if j == p && i != p {
                    assert(before.users@[i].email@ == users[p].email@);
                }
            }
            assert forall|i: int, j: int|
                0 <= i < users.len() && 0 <= j < users.len() && #[trigger] users[i].username@
                    == #[trigger] users[j].username@ implies i == j by {
                if i == p && j != p {
                    assert(before.users@[j].username@ == users[p].username@);
                } else if j == p && i != p {
                    assert(before.users@[i].username@ == users[p].username@);
                }
            }
            assert forall|i: int| 0 <= i < self.articles@.len() implies has_user(
                users,
                #[trigger] self.articles@[i].author_id,
            ) by {
                assert(has_user(before.users@, before.articles@[i].author_id));
                let k = choose|k: int|
                    0 <= k < before.users@.len() && before.users@[k].id
                        == before.articles@[i].author_id;
                assert(users[k].id == before.users@[k].id);
            }
            assert forall|i: int| 0 <= i < self.comments@.len() implies has_user(
                users,
                (#[trigger] self.comments@[i]).author_id,
            ) by {
                assert(has_user(before.users@, before.comments@[i].author_id));
                let k = choose|k: int|
                    0 <= k < before.users@.len() && before.users@[k].id
                        == before.comments@[i].author_id;
                assert(users[k].id == before.users@[k].id);
            }
        }
        Ok(result)
    }
}

} // verus!
