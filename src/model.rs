//! The rows of the relational store, with plain values only: ids are
//! positive `i64` keys handed out by the store, times are Unix seconds.

use vstd::prelude::*;

verus! {

/// A copy of an optional string that is equal to it.
pub fn copy_opt(s: &Option<String>) -> (r: Option<String>)
    ensures
        r == *s,
{
    match s {
        Some(x) => Some(x.clone()),
        None => None,
    }
}

/// A registered account. `password` holds the salted hash, never the raw
/// password.
#[derive(Debug, Clone)]
pub struct User {
    pub id: i64,
    pub username: String,
    pub email: String,
    pub password: String,
    pub bio: Option<String>,
    pub image: Option<String>,
    pub created_at: i64,
    pub updated_at: i64,
}

impl User {
    /// A field-by-field copy.
    pub fn copied(&self) -> (r: User)
        ensures
            r == *self,
    {
        User {
            id: self.id,
            username: self.username.clone(),
            email: self.email.clone(),
            password: self.password.clone(),
            bio: copy_opt(&self.bio),
            image: copy_opt(&self.image),
            created_at: self.created_at,
            updated_at: self.updated_at,
        }
    }
}

/// An article; `slug` is derived from `title`.
#[derive(Debug, Clone)]
pub struct Article {
    pub id: i64,
    pub author_id: i64,
    pub slug: String,
    pub title: String,
    pub description: String,
    pub body: String,
    pub created_at: i64,
    pub updated_at: i64,
}

impl Article {
    /// A field-by-field copy.
    pub fn copied(&self) -> (r: Article)
        ensures
            r == *self,
    {
        Article {
            id: self.id,
            author_id: self.author_id,
            slug: self.slug.clone(),
            title: self.title.clone(),
            description: self.description.clone(),
            body: self.body.clone(),
            created_at: self.created_at,
            updated_at: self.updated_at,
        }
    }
}

/// A tag row, scoped to one article.
#[derive(Debug, Clone)]
pub struct Tag {
    pub id: i64,
    pub article_id: i64,
    pub name: String,
    pub created_at: i64,
    pub updated_at: i64,
}

impl Tag {
    /// A field-by-field copy.
    pub fn copied(&self) -> (r: Tag)
        ensures
            r == *self,
    {
        Tag {
            id: self.id,
            article_id: self.article_id,
            name: self.name.clone(),
            created_at: self.created_at,
            updated_at: self.updated_at,
        }
    }
}

/// A directed follow edge.
#[derive(Debug, Clone, Copy, PartialEq, Eq, Structural)]
pub struct Follow {
    pub follower_id: i64,
    pub followee_id: i64,
    pub created_at: i64,
    pub updated_at: i64,
}

/// A directed "likes" edge from a user to an article.
#[derive(Debug, Clone, Copy, PartialEq, Eq, Structural)]
pub struct Favorite {
    pub id: i64,
    pub article_id: i64,
    pub user_id: i64,
    pub created_at: i64,
    pub updated_at: i64,
}

/// A comment on an article.
#[derive(Debug, Clone)]
pub struct Comment {
    pub id: i64,
    pub article_id: i64,
    pub author_id: i64,
    pub body: String,
    pub created_at: i64,
    pub updated_at: i64,
}

impl Comment {
    /// A field-by-field copy.
    pub fn copied(&self) -> (r: Comment)
        ensures
            r == *self,
    {
        Comment {
            id: self.id,
            article_id: self.article_id,
            author_id: self.author_id,
            body: self.body.clone(),
            created_at: self.created_at,
            updated_at: self.updated_at,
        }
    }
}

/// A user as seen by a viewer.
#[derive(Debug, Clone)]
pub struct Profile {
    pub username: String,
    pub bio: Option<String>,
    pub image: Option<String>,
    pub following: bool,
}

/// Favorite information of an article relative to a viewer.
#[derive(Debug, Clone, Copy, PartialEq, Eq, Structural)]
pub struct FavoriteInfo {
    pub is_favorited: bool,
    pub favorites_count: u64,
}

} // verus!
