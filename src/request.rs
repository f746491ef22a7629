//! Request payloads, as the handlers receive them.

use vstd::prelude::*;

verus! {

/// The fields of a signup.
#[derive(Debug, Clone)]
pub struct SigupUser {
    pub email: String,
    pub username: String,
    pub password: String,
}

#[derive(Debug, Clone)]
pub struct Signup {
    pub user: SigupUser,
}

/// The fields of a signin.
#[derive(Debug, Clone)]
pub struct SigninUser {
    pub email: String,
    pub password: String,
}

#[derive(Debug, Clone)]
pub struct Signin {
    pub user: SigninUser,
}

/// The fields of a partial user update; `None` leaves a field unchanged.
#[derive(Debug, Clone)]
pub struct UpdateUser {
    pub email: Option<String>,
    pub username: Option<String>,
    pub password: Option<String>,
    pub bio: Option<String>,
    pub image: Option<String>,
}

#[derive(Debug, Clone)]
pub struct Update {
    pub user: UpdateUser,
}

/// The fields of a new article.
#[derive(Debug, Clone)]
pub struct ArticleContent {
    pub title: String,
    pub description: String,
    pub body: String,
    pub tag_list: Option<Vec<String>>,
}

#[derive(Debug, Clone)]
pub struct CreateArticleRequest {
    pub article: ArticleContent,
}

/// The fields of a partial article update.
#[derive(Debug, Clone)]
pub struct UpdateArticleContent {
    pub title: Option<String>,
    pub description: Option<String>,
    pub body: Option<String>,
}

#[derive(Debug, Clone)]
pub struct UpdateArticleRequest {
    pub article: UpdateArticleContent,
}

/// The field of a new comment.
#[derive(Debug, Clone)]
pub struct CommentContent {
    pub body: String,
}

#[derive(Debug, Clone)]
pub struct CreateCommentRequest {
    pub comment: CommentContent,
}

} // verus!
