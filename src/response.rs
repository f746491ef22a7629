//! Response assembly: pure mappings from enriched rows to the nested views
//! that are rendered as JSON.

use vstd::prelude::*;

use crate::articles::ArticleEntry;
use crate::model::{Comment, Profile, Tag, User, copy_opt};
use crate::store::Store;

verus! {

/// The text of a Unix time, `YYYY-MM-DD HH:MM:SS` in UTC, when it is in
/// the representable range.
pub uninterp spec fn timestamp_text(secs: i64) -> Option<Seq<char>>;

/// Relies on `chrono::DateTime::from_timestamp` and the `Display` of
/// `NaiveDateTime`: the UTC date and time of `secs`, `None` out of
/// chrono's range.
#[verifier::external_body]
fn format_timestamp(secs: i64) -> (r: Option<String>)
    ensures
        r is Some <==> timestamp_text(secs) is Some,
        r matches Some(t) ==> timestamp_text(secs) == Some(t@),
{
    match chrono::DateTime::from_timestamp(secs, 0) {
        Some(d) => Some(d.naive_utc().to_string()),
        None => None,
    }
}

/// The text of a time, empty when it is out of range.
pub open spec fn time_text(secs: i64) -> Seq<char> {
    match timestamp_text(secs) {
        Some(t) => t,
        None => Seq::empty(),
    }
}

/// The text of a time, empty when it is out of range.
pub fn time_string(secs: i64) -> (r: String)
    ensures
        r@ == time_text(secs),
{
    match format_timestamp(secs) {
        Some(t) => t,
        None => String::new(),
    }
}

/// The names of `tags`, in order.
pub open spec fn names_of(tags: Seq<Tag>) -> Seq<Seq<char>> {
    tags.map_values(|t: Tag| t.name@)
}

pub open spec fn views_of(v: Seq<String>) -> Seq<Seq<char>> {
    v.map_values(|s: String| s@)
}

/// The names of `tags`, in order.
pub fn tag_names(tags: &Vec<Tag>) -> (r: Vec<String>)
    ensures
        views_of(r@) == names_of(tags@),
{
    let mut out: Vec<String> = Vec::new();
    let mut i: usize = 0;
    while i < tags.len()
        invariant
            i <= tags@.len(),
            views_of(out@) == names_of(tags@.subrange(0, i as int)),
        decreases tags@.len() - i,
    {
        let ghost prev = out@;
        out.push(tags[i].name.clone());
        proof {
            assert(views_of(out@) =~= views_of(prev).push(tags@[i as int].name@));
            assert(names_of(tags@.subrange(0, i + 1)) =~= names_of(tags@.subrange(0, i as int)).push(
                tags@[i as int].name@,
            ));
        }
        i = i + 1;
    }
    proof {
        assert(tags@.subrange(0, i as int) == tags@);
    }
    out
}

/// An author as shown inside an article.
#[derive(Debug, Clone)]
pub struct AuthorContent {
    pub username: String,
    pub bio: Option<String>,
    pub image: Option<String>,
    pub following: bool,
}

/// One article as rendered.
#[derive(Debug, Clone)]
pub struct ArticleContent {
    pub slug: String,
    pub title: String,
    pub description: String,
    pub body: String,
    pub tag_list: Vec<String>,
    pub created_at: String,
    pub updated_at: String,
    pub favorited: bool,
    pub favorites_count: u64,
    pub author: AuthorContent,
}

/// A response holding one article.
#[derive(Debug, Clone)]
pub struct SingleArticleResponse {
    pub article: ArticleContent,
}

/// A response holding a page of articles and the count of all matching.
#[derive(Debug, Clone)]
pub struct MultipleArticlesResponse {
    pub articles: Vec<ArticleContent>,
    pub articles_count: u64,
}

/// The list of tag names.
#[derive(Debug, Clone)]
pub struct TagsResponse {
    pub tags: Vec<String>,
}

/// A user with a fresh token, as rendered after signup, signin or update.
#[derive(Debug, Clone)]
pub struct AuthUser {
    pub email: String,
    pub token: String,
    pub username: String,
    pub bio: Option<String>,
    pub image: Option<String>,
}

#[derive(Debug, Clone)]
pub struct UserResponse {
    pub user: AuthUser,
}

/// A profile as rendered.
#[derive(Debug, Clone)]
pub struct ProfileResponse {
    pub profile: Profile,
}

/// The author of a comment as rendered.
#[derive(Debug, Clone)]
pub struct InnerAuthor {
    pub username: String,
    pub bio: Option<String>,
    pub image: Option<String>,
    pub following: bool,
}

/// One comment as rendered.
#[derive(Debug, Clone)]
pub struct InnerComment {
    pub id: i64,
    pub body: String,
    pub author: InnerAuthor,
    pub created_at: String,
    pub updated_at: String,
}

#[derive(Debug, Clone)]
pub struct SingleCommentResponse {
    pub comment: InnerComment,
}

#[derive(Debug, Clone)]
pub struct MultipleCommentsResponse {
    pub comments: Vec<InnerComment>,
}

/// The messages of an error response.
#[derive(Debug, Clone)]
pub struct Inner {
    pub body: Vec<String>,
}

/// A structured error response: `{"errors": {"body": [message]}}`.
#[derive(Debug, Clone)]
pub struct ErrorResponse {
    pub errors: Inner,
}

/// `c` renders `p`.
pub open spec fn author_renders(c: AuthorContent, p: Profile) -> bool {
    &&& c.username == p.username
    &&& c.bio == p.bio
    &&& c.image == p.image
    &&& c.following == p.following
}

/// `c` renders the enriched article `e`.
pub open spec fn article_renders(c: ArticleContent, e: ArticleEntry) -> bool {
    &&& c.slug == e.article.slug
    &&& c.title == e.article.title
    &&& c.description == e.article.description
    &&& c.body == e.article.body
    &&& views_of(c.tag_list@) == names_of(e.tags@)
    &&& c.created_at@ == time_text(e.article.created_at)
    &&& c.updated_at@ == time_text(e.article.updated_at)
    &&& c.favorited == e.favorite.is_favorited
    &&& c.favorites_count == e.favorite.favorites_count
    &&& author_renders(c.author, e.author)
}

/// `c` renders comment `comment` with its author's profile.
pub open spec fn comment_renders(c: InnerComment, comment: Comment, p: Profile) -> bool {
    &&& c.id == comment.id
    &&& c.body == comment.body
    &&& c.created_at@ == time_text(comment.created_at)
    &&& c.updated_at@ == time_text(comment.updated_at)
    &&& c.author.username == p.username
    &&& c.author.bio == p.bio
    &&& c.author.image == p.image
    &&& c.author.following == p.following
}

impl AuthorContent {
    pub fn from(p: &Profile) -> (r: AuthorContent)
        ensures
            author_renders(r, *p),
    {
        AuthorContent {
            username: p.username.clone(),
            bio: copy_opt(&p.bio),
            image: copy_opt(&p.image),
            following: p.following,
        }
    }
}

impl ArticleContent {
    /// Renders an enriched article.
    pub fn from(e: &ArticleEntry) -> (r: ArticleContent)
        ensures
            article_renders(r, *e),
    {
        ArticleContent {
            slug: e.article.slug.clone(),
            title: e.article.title.clone(),
            description: e.article.description.clone(),
            body: e.article.body.clone(),
            tag_list: tag_names(&e.tags),
            created_at: time_string(e.article.created_at),
            updated_at: time_string(e.article.updated_at),
            favorited: e.favorite.is_favorited,
            favorites_count: e.favorite.favorites_count,
            author: AuthorContent::from(&e.author),
        }
    }
}

impl SingleArticleResponse {
    /// Renders an enriched article.
    pub fn from(e: &ArticleEntry) -> (r: SingleArticleResponse)
        ensures
            article_renders(r.article, *e),
    {
        SingleArticleResponse { article: ArticleContent::from(e) }
    }
}

impl MultipleArticlesResponse {
    /// Renders a page of enriched articles with the count of all matching.
    pub fn from(entries: &Vec<ArticleEntry>, articles_count: u64) -> (r: MultipleArticlesResponse)
        ensures
            r.articles_count == articles_count,
            r.articles@.len() == entries@.len(),
            forall|k: int|
                0 <= k < entries@.len() ==> article_renders(#[trigger] r.articles@[k], entries@[k]),
    {
        let mut articles: Vec<ArticleContent> = Vec::new();
        let mut i: usize = 0;
        while i < entries.len()
            invariant
                i <= entries@.len(),
                articles@.len() == i,
                forall|k: int| 0 <= k < i ==> article_renders(#[trigger] articles@[k], entries@[k]),
            decreases entries@.len() - i,
        {
            articles.push(ArticleContent::from(&entries[i]));
            i = i + 1;
        }
        MultipleArticlesResponse { articles, articles_count }
    }
}

impl TagsResponse {
    /// The distinct tag names of the store, in order of first use.
    pub fn from_store(store: &Store) -> (r: TagsResponse)
        ensures
            views_of(r.tags@).no_duplicates(),
            forall|x: Seq<char>| views_of(r.tags@).contains(x) <==> names_of(store.tags@).contains(x),
    {
        TagsResponse { tags: store.list() }
    }
}

impl UserResponse {
    /// Renders a user with a token.
    pub fn from(user: &User, token: String) -> (r: UserResponse)
        ensures
            r.user.email == user.email,
            r.user.token == token,
            r.user.username == user.username,
            r.user.bio == user.bio,
            r.user.image == user.image,
    {
        UserResponse {
            user: AuthUser {
                email: user.email.clone(),
                token,
                username: user.username.clone(),
                bio: copy_opt(&user.bio),
                image: copy_opt(&user.image),
            },
        }
    }
}

impl InnerComment {
    /// Renders a comment with its author's profile.
    pub fn from(comment: &Comment, p: &Profile) -> (r: InnerComment)
        ensures
            comment_renders(r, *comment, *p),
    {
        InnerComment {
            id: comment.id,
            body: comment.body.clone(),
            author: InnerAuthor {
                username: p.username.clone(),
                bio: copy_opt(&p.bio),
                image: copy_opt(&p.image),
                following: p.following,
            },
            created_at: time_string(comment.created_at),
            updated_at: time_string(comment.updated_at),
        }
    }
}

impl SingleCommentResponse {
    pub fn from(comment: &Comment, p: &Profile) -> (r: SingleCommentResponse)
        ensures
            comment_renders(r.comment, *comment, *p),
    {
        SingleCommentResponse { comment: InnerComment::from(comment, p) }
    }
}

impl MultipleCommentsResponse {
    /// Renders comments, each with its author's profile, in order.
    pub fn from(list: &Vec<(Comment, Profile)>) -> (r: MultipleCommentsResponse)
        ensures
            r.comments@.len() == list@.len(),
            forall|k: int|
                0 <= k < list@.len() ==> comment_renders(
                    #[trigger] r.comments@[k],
                    list@[k].0,
                    list@[k].1,
                ),
    {
        let mut comments: Vec<InnerComment> = Vec::new();
        let mut i: usize = 0;
        while i < list.len()
            invariant
                i <= list@.len(),
                comments@.len() == i,
                forall|k: int|
                    0 <= k < i ==> comment_renders(#[trigger] comments@[k], list@[k].0, list@[k].1),
            decreases list@.len() - i,
        {
            let (c, p) = &list[i];
            comments.push(InnerComment::from(c, p));
            i = i + 1;
        }
        MultipleCommentsResponse { comments }
    }
}

impl ErrorResponse {
    /// An error response holding one message.
    pub fn from(msg: &str) -> (r: ErrorResponse)
        ensures
            r.errors.body@.len() == 1,
            r.errors.body@[0]@ == msg@,
    {
        ErrorResponse { errors: Inner { body: vec![msg.to_owned()] } }
    }
}

} // verus!
