//! Articles with their tags, and the enriched view of one article
//! relative to a viewer: author profile, favorite information and tags.

use vstd::prelude::*;

use crate::error::AppError;
use crate::model::{Article, Comment, Favorite, FavoriteInfo, Profile, Tag};
use crate::relations::{
    favorite_check, favorite_count, favorited, has_article, has_favorite, profile_of, unfavorited,
};
use crate::slug::{convert_title_to_slug, slugify};
use crate::store::{Store, created_in_order, has_user, user_of};

verus! {

broadcast use vstd::seq_lib::group_seq_properties, vstd::seq_lib::group_filter_ensures;

/// An article enriched for a viewer.
#[derive(Debug, Clone)]
pub struct ArticleEntry {
    pub article: Article,
    pub author: Profile,
    pub favorite: FavoriteInfo,
    pub tags: Vec<Tag>,
}

pub open spec fn tag_of(article: i64) -> spec_fn(Tag) -> bool {
    |t: Tag| t.article_id == article
}

/// The tags of `article`, in the order they were stored.
pub open spec fn tags_of(s: Store, article: i64) -> Seq<Tag> {
    s.tags@.filter(tag_of(article))
}

/// The article with key `id` (meaningful when `has_article`).
pub open spec fn article_of(s: Store, id: i64) -> Article {
    s.articles@[choose|i: int| 0 <= i < s.articles@.len() && s.articles@[i].id == id]
}

/// `e` is article `a` enriched for `viewer`.
pub open spec fn entry_of(s: Store, viewer: i64, a: Article, e: ArticleEntry) -> bool {
    &&& e.article == a
    &&& e.author == profile_of(s, viewer, user_of(s.users@, a.author_id))
    &&& e.favorite.is_favorited == has_favorite(s.favorites@, viewer, a.id)
    &&& e.favorite.favorites_count == favorite_count(s.favorites@, a.id)
    &&& e.tags@ == tags_of(s, a.id)
}

/// The tag rows created for `names`, keyed from `first_id` on.
pub open spec fn new_tags(names: Seq<String>, article: i64, first_id: i64, now: i64) -> Seq<Tag> {
    Seq::new(
        names.len(),
        |k: int|
            Tag {
                id: (first_id + k) as i64,
                article_id: article,
                name: names[k],
                created_at: now,
                updated_at: now,
            },
    )
}

pub open spec fn tag_names(tags: Seq<Tag>) -> Seq<Seq<char>> {
    tags.map_values(|t: Tag| t.name@)
}

pub open spec fn slug_taken(s: Store, slug: Seq<char>) -> bool {
    exists|i: int| 0 <= i < s.articles@.len() && s.articles@[i].slug@ == slug
}

/// Why `author` may not create an article titled `title` with `n_tags` tags.
pub open spec fn create_check(s: Store, author: i64, title: Seq<char>, n_tags: int) -> Option<AppError> {
    if !has_user(s.users@, author) {
        Some(AppError::NotFound)
    } else if slugify(title).len() == 0 {
        Some(AppError::ValidationError)
    } else if slug_taken(s, slugify(title)) {
        Some(AppError::DuplicateConstraint)
    } else if s.next_id + 1 + n_tags > i64::MAX {
        Some(AppError::StoreUnavailable)
    } else {
        None
    }
}

/// The creation time an article created at `now` gets: `now`, or the
/// newest article's creation time when the clock reads earlier, so that
/// creation times never decrease.
pub open spec fn creation_time(s: Store, now: i64) -> i64 {
    if s.articles@.len() > 0 && now < s.articles@.last().created_at {
        s.articles@.last().created_at
    } else {
        now
    }
}

/// `after` is `before` with a new article by `author` and its tags, stored
/// together.
pub open spec fn created(
    before: Store,
    after: Store,
    author: i64,
    title: Seq<char>,
    description: Seq<char>,
    body: Seq<char>,
    names: Seq<String>,
    now: i64,
) -> bool {
    let id = before.next_id;
    let a = article_at(after, before.articles@.len() as int);
    &&& after.articles@.len() == before.articles@.len() + 1
    &&& after.articles@.drop_last() == before.articles@
    &&& a.id == id
    &&& a.author_id == author
    &&& a.slug@ == slugify(title)
    &&& a.title@ == title
    &&& a.description@ == description
    &&& a.body@ == body
    &&& a.created_at == creation_time(before, now)
    &&& a.updated_at == creation_time(before, now)
    &&& after.tags@ == before.tags@ + new_tags(names, id, (id + 1) as i64, now)
    &&& after.next_id == id + 1 + names.len()
    &&& after.users@ == before.users@
    &&& after.follows@ == before.follows@
    &&& after.favorites@ == before.favorites@
    &&& after.comments@ == before.comments@
    &&& after.hash_cost == before.hash_cost
}

pub open spec fn article_at(s: Store, i: int) -> Article {
    s.articles@[i]
}

/// Why `me` may not change or remove article `id`, if so.
pub open spec fn owner_check(s: Store, me: i64, id: i64) -> Option<AppError> {
    if !has_article(s, id) {
        Some(AppError::NotFound)
    } else if article_of(s, id).author_id != me {
        Some(AppError::Unauthorized)
    } else {
        None
    }
}

/// All elements kept: the filter is the sequence itself.
pub proof fn lemma_filter_all<A>(s: Seq<A>, p: spec_fn(A) -> bool)
    requires
        forall|i: int| 0 <= i < s.len() ==> p(s[i]),
    ensures
        s.filter(p) == s,
    decreases s.len(),
{
    reveal(Seq::filter);
    if s.len() > 0 {
        lemma_filter_all(s.drop_last(), p);
        assert(s.drop_last().push(s.last()) == s);
    }
}

/// No element kept: the filter is empty.
pub proof fn lemma_filter_none<A>(s: Seq<A>, p: spec_fn(A) -> bool)
    requires
        forall|i: int| 0 <= i < s.len() ==> !p(s[i]),
    ensures
        s.filter(p) == Seq::<A>::empty(),
    decreases s.len(),
{
    reveal(Seq::filter);
    if s.len() > 0 {
        lemma_filter_none(s.drop_last(), p);
    }
}

impl Store {
    /// The tags of `article`, in the order they were stored.
    pub fn fetch_list_by_article_id(&self, article: i64) -> (r: Vec<Tag>)
        ensures
            r@ == tags_of(*self, article),
    {
        let mut out: Vec<Tag> = Vec::new();
        let mut i: usize = 0;
        while i < self.tags.len()
            invariant
                i <= self.tags@.len(),
                out@ == self.tags@.subrange(0, i as int).filter(tag_of(article)),
            decreases self.tags@.len() - i,
        {
            proof {
                let s = self.tags@;
                assert(s.subrange(0, i + 1) == s.subrange(0, i as int).push(s[i as int]));
                s.subrange(0, i as int).lemma_filter_push(s[i as int], tag_of(article));
            }
            if self.tags[i].article_id == article {
                out.push(self.tags[i].copied());
            }
            i = i + 1;
        }
        proof {
            assert(self.tags@.subrange(0, i as int) == self.tags@);
        }
        out
    }

    /// Article `a` enriched for `viewer`.
    pub fn entry(&self, viewer: i64, a: &Article) -> (r: ArticleEntry)
        requires
            self.wf(),
            has_user(self.users@, a.author_id),
        ensures
            entry_of(*self, viewer, *a, r),
    {
        let k = self.user_index(a.author_id);
        let author = match k {
            Some(k) => self.profile(viewer, &self.users[k]),
            None => {
                proof {
                    assert(false);
                }
                self.profile(viewer, &self.users[0])
            },
        };
        proof {
            let j = choose|j: int| 0 <= j < self.users@.len() && self.users@[j].id == a.author_id;
            assert(self.users@[j].id == self.users@[k->Some_0 as int].id);
        }
        ArticleEntry {
            article: a.copied(),
            author,
            favorite: self.favorite_info(viewer, a.id),
            tags: self.fetch_list_by_article_id(a.id),
        }
    }

    /// The position of the article with key `id`, which exists.
    fn article_pos(&self, id: i64) -> (r: usize)
        requires
            self.wf(),
            has_article(*self, id),
        ensures
            r < self.articles@.len(),
            self.articles@[r as int] == article_of(*self, id),
    {
        match self.article_index(id) {
            Some(i) => {
                proof {
                    let j = choose|j: int|
                        0 <= j < self.articles@.len() && self.articles@[j].id == id;
                    assert(self.articles@[j].id == self.articles@[i as int].id);
                }
                i
            },
            None => {
                proof {
                    assert(false);
                }
                0
            },
        }
    }

    /// Article `id` enriched for `viewer`.
    pub fn fetch_article(&self, viewer: i64, id: i64) -> (r: Result<ArticleEntry, AppError>)
        requires
            self.wf(),
        ensures
            !has_article(*self, id) ==> r == Err::<ArticleEntry, AppError>(AppError::NotFound),
            has_article(*self, id) ==> (r matches Ok(e) && entry_of(
                *self,
                viewer,
                article_of(*self, id),
                e,
            )),
    {
        if self.article_index(id).is_none() {
            return Err(AppError::NotFound);
        }
        let i = self.article_pos(id);
        Ok(self.entry(viewer, &self.articles[i]))
    }

    /// Whether an article already has this slug.
    fn slug_index(&self, slug: &String) -> (r: Option<usize>)
        ensures
            match r {
                Some(i) => i < self.articles@.len() && self.articles@[i as int].slug@ == slug@,
                None => !slug_taken(*self, slug@),
            },
    {
        let mut i: usize = 0;
        while i < self.articles.len()
            invariant
                i <= self.articles@.len(),
                forall|k: int| 0 <= k < i ==> self.articles@[k].slug@ != slug@,
            decreases self.articles@.len() - i,
        {
            if self.articles[i].slug.eq(slug) {
                return Some(i);
            }
            i = i + 1;
        }
        None
    }

    /// Creates an article by `me` together with its tags, all or nothing,
    /// and returns it enriched for `me`. The slug is derived from the title
    /// and must be non-empty and unused.
    pub fn create(
        &mut self,
        me: i64,
        title: &str,
        description: &str,
        body: &str,
        tag_list: &Option<Vec<String>>,
        now: i64,
    ) -> (r: Result<ArticleEntry, AppError>)
        requires
            old(self).wf(),
        ensures
            final(self).wf(),
            ({
                let names = match tag_list {
                    Some(v) => v@,
                    None => Seq::<String>::empty(),
                };
                match create_check(*old(self), me, title@, names.len() as int) {
                    Some(e) => r == Err::<ArticleEntry, AppError>(e) && *final(self) == *old(self),
                    None => {
                        &&& created(
                            *old(self),
                            *final(self),
                            me,
                            title@,
                            description@,
                            body@,
                            names,
                            now,
                        )
                        &&& r matches Ok(e) && entry_of(
                            *final(self),
                            me,
                            article_at(*final(self), old(self).articles@.len() as int),
                            e,
                        )
                    },
                }
            }),
    {
        let empty: Vec<String> = Vec::new();
        let names = match tag_list {
            Some(v) => v,
            None => &empty,
        };
        if self.user_index(me).is_none() {
            return Err(AppError::NotFound);
        }
        let slug = convert_title_to_slug(title);
        if slug.as_str().unicode_len() == 0 {
            return Err(AppError::ValidationError);
        }
        if self.slug_index(&slug).is_some() {
            return Err(AppError::DuplicateConstraint);
        }
        let room: u64 = (i64::MAX - self.next_id) as u64;
        if names.len() as u64 >= room {
            return Err(AppError::StoreUnavailable);
        }
        let ghost before = *self;
        let id = self.next_id;
        let n_articles = self.articles.len();
        let created_at = if n_articles > 0 && now < self.articles[n_articles - 1].created_at {
            self.articles[n_articles - 1].created_at
        } else {
            now
        };
        let article = Article {
            id,
            author_id: me,
            slug,
            title: title.to_owned(),
            description: description.to_owned(),
            body: body.to_owned(),
            created_at,
            updated_at: created_at,
        };
        self.articles.push(article);
        let mut k: usize = 0;
        while k < names.len()
            invariant
                k <= names@.len(),
                id == before.next_id,
                0 < id,
                before.next_id + 1 + names@.len() <= i64::MAX,
                self.tags@ == before.tags@ + new_tags(names@.subrange(0, k as int), id, (id + 1) as i64, now),
                self.next_id == before.next_id,
                self.hash_cost == before.hash_cost,
                self.users@ == before.users@,
                self.follows@ == before.follows@,
                self.favorites@ == before.favorites@,
                self.comments@ == before.comments@,
                self.articles@ == before.articles@.push(article),
            decreases names@.len() - k,
        {
            assert(id + 1 + k < i64::MAX);
            let tag = Tag {
                id: id + 1 + k as i64,
                article_id: id,
                name: names[k].clone(),
                created_at: now,
                updated_at: now,
            };
            self.tags.push(tag);
            proof {
                assert(new_tags(names@.subrange(0, k + 1), id, (id + 1) as i64, now) =~= new_tags(
                    names@.subrange(0, k as int),
                    id,
                    (id + 1) as i64,
                    now,
                ).push(tag));
            }
            k = k + 1;
        }
        self.next_id = id + 1 + names.len() as i64;
        proof {
            assert(names@.subrange(0, k as int) == names@);
            assert(self.articles@.drop_last() == before.articles@);
            let arts = self.articles@;
            let n = before.articles@.len() as int;
            assert(arts[n] == article);
            assert(has_user(self.users@, me));
            assert forall|i: int, j: int|
                0 <= i < arts.len() && 0 <= j < arts.len() && #[trigger] arts[i].id
                    == #[trigger] arts[j].id implies i == j by {
                if i < n {
                    assert(arts[i] == before.articles@[i]);
                }
                if j < n {
                    assert(arts[j] == before.articles@[j]);
                }
            }
            assert forall|i: int, j: int|
                0 <= i < arts.len() && 0 <= j < arts.len() && #[trigger] arts[i].slug@
                    == #[trigger] arts[j].slug@ implies i == j by {
                if i < n {
                    assert(arts[i] == before.articles@[i]);
                }
                if j < n {
                    assert(arts[j] == before.articles@[j]);
                }
            }
            assert forall|i: int| 0 <= i < arts.len() implies 0 < (#[trigger] arts[i]).id
                < self.next_id && has_user(self.users@, arts[i].author_id) && arts[i].slug@
                == slugify(arts[i].title@) by {
                if i < n {
                    assert(arts[i] == before.articles@[i]);
                }
            }
            assert forall|i: int, j: int| 0 <= i <= j < arts.len() implies (#[trigger] arts[i]).created_at
                <= (#[trigger] arts[j]).created_at by {
                if j < n {
                    assert(arts[i] == before.articles@[i]);
                    assert(arts[j] == before.articles@[j]);
                } else if i < n {
                    assert(arts[i] == before.articles@[i]);
                    assert(before.articles@[i].created_at <= before.articles@[n - 1].created_at);
                }
            }
            let ts = self.tags@;
            let m = before.tags@.len() as int;
            assert forall|i: int| 0 <= i < ts.len() implies 0 < (#[trigger] ts[i]).id
                < self.next_id && ts[i].article_id < self.next_id by {
                if i < m {
                    assert(ts[i] == before.tags@[i]);
                }
            }
        }
        let e = self.entry(me, &self.articles[self.articles.len() - 1]);
        Ok(e)
    }
}

pub open spec fn other_tag(article: i64) -> spec_fn(Tag) -> bool {
    |t: Tag| t.article_id != article
}

pub open spec fn other_favorite(article: i64) -> spec_fn(Favorite) -> bool {
    |f: Favorite| f.article_id != article
}

pub open spec fn other_comment(article: i64) -> spec_fn(Comment) -> bool {
    |c: Comment| c.article_id != article
}

/// The position of article `id` (meaningful when `has_article`).
pub open spec fn article_pos_of(s: Store, id: i64) -> int {
    choose|i: int| 0 <= i < s.articles@.len() && s.articles@[i].id == id
}

/// Why `me` may not edit article `id` with this new title, if so.
pub open spec fn update_article_check(s: Store, me: i64, id: i64, title: Option<String>) -> Option<AppError> {
    match owner_check(s, me, id) {
        Some(e) => Some(e),
        None => match title {
            Some(t) => if slugify(t@).len() == 0 {
                Some(AppError::ValidationError)
            } else if exists|i: int|
                0 <= i < s.articles@.len() && s.articles@[i].slug@ == slugify(t@)
                    && s.articles@[i].id != id {
                Some(AppError::DuplicateConstraint)
            } else {
                None
            },
            None => None,
        },
    }
}

/// `new` is `old` with the given fields replaced and its slug following
/// its title.
pub open spec fn edited(
    old: Article,
    new: Article,
    title: Option<String>,
    description: Option<String>,
    body: Option<String>,
    now: i64,
) -> bool {
    &&& new.id == old.id
    &&& new.author_id == old.author_id
    &&& new.title == match title {
        Some(t) => t,
        None => old.title,
    }
    &&& new.slug@ == slugify(new.title@)
    &&& new.description == match description {
        Some(d) => d,
        None => old.description,
    }
    &&& new.body == match body {
        Some(b) => b,
        None => old.body,
    }
    &&& new.created_at == old.created_at
    &&& new.updated_at == now
}

/// `after` is `before` without article `id` and the tags, favorites and
/// comments that belong to it.
pub open spec fn deleted(before: Store, after: Store, id: i64) -> bool {
    &&& after.articles@ == before.articles@.remove(article_pos_of(before, id))
    &&& after.tags@ == before.tags@.filter(other_tag(id))
    &&& after.favorites@ == before.favorites@.filter(other_favorite(id))
    &&& after.comments@ == before.comments@.filter(other_comment(id))
    &&& after.users@ == before.users@
    &&& after.follows@ == before.follows@
    &&& after.next_id == before.next_id
    &&& after.hash_cost == before.hash_cost
}

/// A filter keeps keys distinct.
pub proof fn lemma_filter_distinct<A, K>(s: Seq<A>, p: spec_fn(A) -> bool, key: spec_fn(A) -> K)
    requires
        forall|i: int, j: int|
            0 <= i < s.len() && 0 <= j < s.len() && key(s[i]) == key(s[j]) ==> i == j,
    ensures
        forall|i: int, j: int|
            0 <= i < s.filter(p).len() && 0 <= j < s.filter(p).len() && key(s.filter(p)[i]) == key(
                s.filter(p)[j],
            ) ==> i == j,
    decreases s.len(),
{
    reveal(Seq::filter);
    if s.len() > 0 {
        let d = s.drop_last();
        lemma_filter_distinct(d, p, key);
        let f0 = d.filter(p);
        if p(s.last()) {
            let f = f0.push(s.last());
            assert forall|i: int, j: int|
                0 <= i < f.len() && 0 <= j < f.len() && key(f[i]) == key(f[j]) implies i == j by {
                if i < f0.len() && j == f0.len() {
                    assert(f0.contains(f0[i]));
                    d.lemma_filter_contains_rev(p, f0[i]);
                    let k = choose|k: int| 0 <= k < d.len() && d[k] == f0[i];
                    assert(s[k] == f0[i]);
                    assert(key(s[k]) == key(s[s.len() - 1]));
                } else if j < f0.len() && i == f0.len() {
                    assert(f0.contains(f0[j]));
                    d.lemma_filter_contains_rev(p, f0[j]);
                    let k = choose|k: int| 0 <= k < d.len() && d[k] == f0[j];
                    assert(s[k] == f0[j]);
                    assert(key(s[k]) == key(s[s.len() - 1]));
                }
            }
        }
    }
}

/// Every element of a filter comes from the sequence.
pub proof fn lemma_filter_from<A>(s: Seq<A>, p: spec_fn(A) -> bool, i: int)
    requires
        0 <= i < s.filter(p).len(),
    ensures
        exists|k: int| 0 <= k < s.len() && s[k] == s.filter(p)[i],
{
    assert(s.filter(p).contains(s.filter(p)[i]));
    s.lemma_filter_contains_rev(p, s.filter(p)[i]);
}

impl Store {
    /// Changes article `id` of `me`: only the given fields, the slug
    /// following a new title; returns it enriched for `me`.
    pub fn update_article(
        &mut self,
        me: i64,
        id: i64,
        title: Option<String>,
        description: Option<String>,
        body: Option<String>,
        now: i64,
    ) -> (r: Result<ArticleEntry, AppError>)
        requires
            old(self).wf(),
        ensures
            final(self).wf(),
            match update_article_check(*old(self), me, id, title) {
                Some(e) => r == Err::<ArticleEntry, AppError>(e) && *final(self) == *old(self),
                None => {
                    let pos = article_pos_of(*old(self), id);
                    &&& final(self).articles@.len() == old(self).articles@.len()
                    &&& forall|i: int|
                        0 <= i < old(self).articles@.len() && i != pos ==> final(self).articles@[i]
                            == old(self).articles@[i]
                    &&& edited(
                        old(self).articles@[pos],
                        final(self).articles@[pos],
                        title,
                        description,
                        body,
                        now,
                    )
                    &&& final(self).users@ == old(self).users@
                    &&& final(self).tags@ == old(self).tags@
                    &&& final(self).follows@ == old(self).follows@
                    &&& final(self).favorites@ == old(self).favorites@
                    &&& final(self).comments@ == old(self).comments@
                    &&& final(self).next_id == old(self).next_id
                    &&& r matches Ok(e) && entry_of(*final(self), me, final(self).articles@[pos], e)
                },
            },
    {
        if self.article_index(id).is_none() {
            return Err(AppError::NotFound);
        }
        let pos = self.article_pos(id);
        if self.articles[pos].author_id != me {
            return Err(AppError::Unauthorized);
        }
        let new_slug = match &title {
            Some(t) => {
                let slug = convert_title_to_slug(t.as_str());
                if slug.as_str().unicode_len() == 0 {
                    return Err(AppError::ValidationError);
                }
                match self.slug_index(&slug) {
                    Some(k) => {
                        if self.articles[k].id != id {
                            return Err(AppError::DuplicateConstraint);
                        }
                    },
                    None => {},
                }
                proof {
                    if exists|i: int|
                        0 <= i < self.articles@.len() && self.articles@[i].slug@ == slug@
                            && self.articles@[i].id != id {
                        let i = choose|i: int|
                            0 <= i < self.articles@.len() && self.articles@[i].slug@ == slug@
                                && self.articles@[i].id != id;
                        assert(false);
                    }
                }
                slug
            },
            None => self.articles[pos].slug.clone(),
        };
        let ghost before = *self;
        let old_article = self.articles[pos].copied();
        let article = Article {
            id: old_article.id,
            author_id: old_article.author_id,
            slug: new_slug,
            title: match title {
                Some(t) => t,
                None => old_article.title,
            },
            description: match description {
                Some(d) => d,
                None => old_article.description,
            },
            body: match body {
                Some(b) => b,
                None => old_article.body,
            },
            created_at: old_article.created_at,
            updated_at: now,
        };
        self.articles.set(pos, article);
        proof {
            let arts = self.articles@;
            let p = pos as int;
            assert forall|i: int, j: int|
                0 <= i < arts.len() && 0 <= j < arts.len() && #[trigger] arts[i].id
                    == #[trigger] arts[j].id implies i == j by {
                assert(arts[i].id == before.articles@[i].id);
                assert(arts[j].id == before.articles@[j].id);
            }
            assert forall|i: int, j: int|
                0 <= i < arts.len() && 0 <= j < arts.len() && #[trigger] arts[i].slug@
                    == #[trigger] arts[j].slug@ implies i == j by {
                if i == p && j != p {
                    assert(arts[j] == before.articles@[j]);
                } else if j == p && i != p {
                    assert(arts[i] == before.articles@[i]);
                }
            }
            assert forall|i: int| 0 <= i < arts.len() implies 0 < (#[trigger] arts[i]).id
                < self.next_id && has_user(self.users@, arts[i].author_id) && arts[i].slug@
                == slugify(arts[i].title@) by {
                assert(arts[i].id == before.articles@[i].id);
                assert(arts[i].author_id == before.articles@[i].author_id);
            }
            assert forall|i: int, j: int| 0 <= i <= j < arts.len() implies (#[trigger] arts[i]).created_at
                <= (#[trigger] arts[j]).created_at by {
                assert(arts[i].created_at == before.articles@[i].created_at);
                assert(arts[j].created_at == before.articles@[j].created_at);
            }
        }
        let e = self.entry(me, &self.articles[pos]);
        Ok(e)
    }

    /// Removes article `id` of `me` with its tags, favorites and comments.
    pub fn delete_article(&mut self, me: i64, id: i64) -> (r: Result<(), AppError>)
        requires
            old(self).wf(),
        ensures
            final(self).wf(),
            match owner_check(*old(self), me, id) {
                Some(e) => r == Err::<(), AppError>(e) && *final(self) == *old(self),
                None => r is Ok && deleted(*old(self), *final(self), id),
            },
    {
        if self.article_index(id).is_none() {
            return Err(AppError::NotFound);
        }
        let pos = self.article_pos(id);
        if self.articles[pos].author_id != me {
            return Err(AppError::Unauthorized);
        }
        let ghost before = *self;
        self.articles.remove(pos);

        let mut tags: Vec<Tag> = Vec::new();
        let mut i: usize = 0;
        while i < self.tags.len()
            invariant
                i <= self.tags@.len(),
                tags@ == self.tags@.subrange(0, i as int).filter(other_tag(id)),
            decreases self.tags@.len() - i,
        {
            proof {
                let s = self.tags@;
                assert(s.subrange(0, i + 1) == s.subrange(0, i as int).push(s[i as int]));
                s.subrange(0, i as int).lemma_filter_push(s[i as int], other_tag(id));
            }
            if self.tags[i].article_id != id {
                tags.push(self.tags[i].copied());
            }
            i = i + 1;
        }
        proof {
            assert(self.tags@.subrange(0, i as int) == self.tags@);
        }
        self.tags = tags;

        let mut favorites: Vec<Favorite> = Vec::new();
        let mut i: usize = 0;
        while i < self.favorites.len()
            invariant
                i <= self.favorites@.len(),
                favorites@ == self.favorites@.subrange(0, i as int).filter(other_favorite(id)),
            decreases self.favorites@.len() - i,
        {
            proof {
                let s = self.favorites@;
                assert(s.subrange(0, i + 1) == s.subrange(0, i as int).push(s[i as int]));
                s.subrange(0, i as int).lemma_filter_push(s[i as int], other_favorite(id));
            }
            if self.favorites[i].article_id != id {
                favorites.push(self.favorites[i]);
            }
            i = i + 1;
        }
        proof {
            assert(self.favorites@.subrange(0, i as int) == self.favorites@);
        }
        self.favorites = favorites;

        let mut comments: Vec<Comment> = Vec::new();
        let mut i: usize = 0;
        while i < self.comments.len()
            invariant
                i <= self.comments@.len(),
                comments@ == self.comments@.subrange(0, i as int).filter(other_comment(id)),
            decreases self.comments@.len() - i,
        {
            proof {
                let s = self.comments@;
                assert(s.subrange(0, i + 1) == s.subrange(0, i as int).push(s[i as int]));
                s.subrange(0, i as int).lemma_filter_push(s[i as int], other_comment(id));
            }
            if self.comments[i].article_id != id {
                comments.push(self.comments[i].copied());
            }
            i = i + 1;
        }
        proof {
            assert(self.comments@.subrange(0, i as int) == self.comments@);
        }
        self.comments = comments;

        proof {
            let arts = self.articles@;
            let oa = before.articles@;
            let p = pos as int;
            assert forall|i: int, j: int|
                0 <= i < arts.len() && 0 <= j < arts.len() && #[trigger] arts[i].id
                    == #[trigger] arts[j].id implies i == j by {
                let oi = if i < p { i } else { i + 1 };
                let oj = if j < p { j } else { j + 1 };
                assert(arts[i] == oa[oi]);
                assert(arts[j] == oa[oj]);
            }
            assert forall|i: int, j: int|
                0 <= i < arts.len() && 0 <= j < arts.len() && #[trigger] arts[i].slug@
                    == #[trigger] arts[j].slug@ implies i == j by {
                let oi = if i < p { i } else { i + 1 };
                let oj = if j < p { j } else { j + 1 };
                assert(arts[i] == oa[oi]);
                assert(arts[j] == oa[oj]);
            }
            assert forall|i: int| 0 <= i < arts.len() implies 0 < (#[trigger] arts[i]).id
                < self.next_id && has_user(self.users@, arts[i].author_id) && arts[i].slug@
                == slugify(arts[i].title@) by {
                let oi = if i < p { i } else { i + 1 };
                assert(arts[i] == oa[oi]);
            }
            assert forall|i: int, j: int| 0 <= i <= j < arts.len() implies (#[trigger] arts[i]).created_at
                <= (#[trigger] arts[j]).created_at by {
                let oi = if i < p { i } else { i + 1 };
                let oj = if j < p { j } else { j + 1 };
                assert(arts[i] == oa[oi]);
                assert(arts[j] == oa[oj]);
            }
            let ts = self.tags@;
            assert forall|i: int| 0 <= i < ts.len() implies 0 < (#[trigger] ts[i]).id
                < self.next_id && ts[i].article_id < self.next_id by {
                lemma_filter_from(before.tags@, other_tag(id), i);
            }
            let fs = self.favorites@;
            assert forall|i: int| 0 <= i < fs.len() implies 0 < (#[trigger] fs[i]).id
                < self.next_id && fs[i].article_id < self.next_id by {
                lemma_filter_from(before.favorites@, other_favorite(id), i);
            }
            let fav_key = |f: Favorite| (f.user_id, f.article_id);
            lemma_filter_distinct(before.favorites@, other_favorite(id), fav_key);
            assert forall|i: int, j: int|
                0 <= i < fs.len() && 0 <= j < fs.len() && #[trigger] fs[i].user_id
                    == #[trigger] fs[j].user_id && fs[i].article_id == fs[j].article_id implies i
                == j by {
                assert(fav_key(fs[i]) == fav_key(fs[j]));
            }
            let cs = self.comments@;
            assert forall|i: int| 0 <= i < cs.len() implies 0 < (#[trigger] cs[i]).id
                < self.next_id && cs[i].article_id < self.next_id && has_user(
                self.users@,
                cs[i].author_id,
            ) by {
                lemma_filter_from(before.comments@, other_comment(id), i);
            }
            let com_key = |c: Comment| c.id;
            lemma_filter_distinct(before.comments@, other_comment(id), com_key);
            assert forall|i: int, j: int|
                0 <= i < cs.len() && 0 <= j < cs.len() && #[trigger] cs[i].id
                    == #[trigger] cs[j].id implies i == j by {
                assert(com_key(cs[i]) == com_key(cs[j]));
            }
        }
        Ok(())
    }
}

impl Store {
    /// `me` favorites article `id`; returns it enriched for `me`.
    pub fn favorite_article(&mut self, me: i64, id: i64, now: i64) -> (r: Result<ArticleEntry, AppError>)
        requires
            old(self).wf(),
        ensures
            final(self).wf(),
            match favorite_check(*old(self), me, id) {
                Some(e) => r == Err::<ArticleEntry, AppError>(e) && *final(self) == *old(self),
                None => favorited(*old(self), *final(self), me, id, now) && (r matches Ok(e)
                    && entry_of(*final(self), me, article_of(*final(self), id), e)
                    && e.favorite.is_favorited),
            },
    {
        match self.favorite(me, id, now) {
            Err(e) => Err(e),
            Ok(()) => self.fetch_article(me, id),
        }
    }

    /// `me` stops favoriting article `id`; returns it enriched for `me`.
    pub fn unfavorite_article(&mut self, me: i64, id: i64) -> (r: Result<ArticleEntry, AppError>)
        requires
            old(self).wf(),
        ensures
            final(self).wf(),
            unfavorited(*old(self), *final(self), me, id),
            !has_article(*old(self), id) ==> r == Err::<ArticleEntry, AppError>(AppError::NotFound),
            has_article(*old(self), id) ==> (r matches Ok(e) && entry_of(
                *final(self),
                me,
                article_of(*final(self), id),
                e,
            ) && !e.favorite.is_favorited),
    {
        self.unfavorite(me, id);
        self.fetch_article(me, id)
    }
}

} // verus!
