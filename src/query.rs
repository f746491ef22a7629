//! The article aggregation query: filtered, paginated listings enriched
//! for the viewer, with the total count of matching articles, and the
//! feed of articles by followed authors. Both list the most recently
//! created articles first.

use vstd::prelude::*;

use crate::articles::{ArticleEntry, entry_of};
use crate::model::Article;
use crate::relations::{has_favorite, has_follow};
use crate::store::{Store, created_in_order, has_user, user_by_username, username_taken};

verus! {

broadcast use vstd::seq_lib::group_seq_properties, vstd::seq_lib::group_filter_ensures;

/// The page size used when none is given.
pub const DEFAULT_LIMIT: i64 = 20;

/// The largest offset honoured by the listing.
pub const MAX_OFFSET: i64 = 100;

/// Optional filters of the listing, each narrowing it further.
#[derive(Debug, Clone)]
pub struct ArticleFilter {
    /// Articles carrying a tag of this name.
    pub tag: Option<String>,
    /// Articles written by the user of this name.
    pub author: Option<String>,
    /// Articles favorited by the user of this name.
    pub favorited: Option<String>,
}

/// Parameters of a listing.
#[derive(Debug, Clone)]
pub struct FetchArticlesList {
    pub filter: ArticleFilter,
    pub offset: i64,
    pub limit: i64,
}

/// Parameters of the feed.
#[derive(Debug, Clone, Copy)]
pub struct FetchFollowedArticles {
    pub offset: i64,
    pub limit: i64,
}

pub open spec fn has_tag_named(s: Store, article: i64, name: Seq<char>) -> bool {
    exists|i: int|
        0 <= i < s.tags@.len() && s.tags@[i].article_id == article && s.tags@[i].name@ == name
}

/// Whether article `a` passes every filter that is given.
pub open spec fn matches_filter(s: Store, f: ArticleFilter, a: Article) -> bool {
    &&& (f.tag matches Some(t) ==> has_tag_named(s, a.id, t@))
    &&& (f.author matches Some(name) ==> username_taken(s.users@, name@) && user_by_username(
        s.users@,
        name@,
    ).id == a.author_id)
    &&& (f.favorited matches Some(name) ==> username_taken(s.users@, name@) && has_favorite(
        s.favorites@,
        user_by_username(s.users@, name@).id,
        a.id,
    ))
}

pub open spec fn filter_pred(s: Store, f: ArticleFilter) -> spec_fn(Article) -> bool {
    |a: Article| matches_filter(s, f, a)
}

pub open spec fn feed_pred(s: Store, viewer: i64) -> spec_fn(Article) -> bool {
    |a: Article| has_follow(s.follows@, viewer, a.author_id)
}

/// The articles that pass `p`, most recently created first.
pub open spec fn newest_first(s: Store, p: spec_fn(Article) -> bool) -> Seq<Article> {
    s.articles@.filter(p).reverse()
}

/// The listing, before pagination.
pub open spec fn listing(s: Store, f: ArticleFilter) -> Seq<Article> {
    newest_first(s, filter_pred(s, f))
}

/// The feed of `viewer`, before pagination.
pub open spec fn feed(s: Store, viewer: i64) -> Seq<Article> {
    newest_first(s, feed_pred(s, viewer))
}

pub open spec fn page_start(len: int, offset: int) -> int {
    if offset < 0 {
        0
    } else if offset > len {
        len
    } else {
        offset
    }
}

pub open spec fn page_end(len: int, offset: int, limit: int) -> int {
    let start = page_start(len, offset);
    if limit < 0 {
        start
    } else if start + limit > len {
        len
    } else {
        start + limit
    }
}

/// The window `offset .. offset + limit` of `items`, cut to its bounds.
pub open spec fn page<A>(items: Seq<A>, offset: int, limit: int) -> Seq<A> {
    items.subrange(page_start(items.len() as int, offset), page_end(items.len() as int, offset, limit))
}

/// `entries` enrich `articles`, one by one, for `viewer`.
pub open spec fn entries_of(s: Store, viewer: i64, articles: Seq<Article>, entries: Seq<ArticleEntry>) -> bool {
    &&& entries.len() == articles.len()
    &&& forall|k: int| 0 <= k < articles.len() ==> entry_of(s, viewer, articles[k], #[trigger] entries[k])
}

/// Most recently created first: creation times never increase.
pub open spec fn latest_first(s: Seq<Article>) -> bool {
    forall|i: int, j: int|
        0 <= i <= j < s.len() ==> (#[trigger] s[i]).created_at >= (#[trigger] s[j]).created_at
}

/// Entries whose articles come most recently created first.
pub open spec fn entries_latest_first(entries: Seq<ArticleEntry>) -> bool {
    forall|i: int, j: int|
        0 <= i <= j < entries.len() ==> (#[trigger] entries[i]).article.created_at >= (
        #[trigger] entries[j]).article.created_at
}

/// A filter keeps creation order.
pub proof fn lemma_filter_in_order(s: Seq<Article>, p: spec_fn(Article) -> bool)
    requires
        created_in_order(s),
    ensures
        created_in_order(s.filter(p)),
    decreases s.len(),
{
    reveal(Seq::filter);
    if s.len() > 0 {
        let d = s.drop_last();
        assert forall|i: int, j: int| 0 <= i <= j < d.len() implies (#[trigger] d[i]).created_at
            <= (#[trigger] d[j]).created_at by {
            assert(d[i] == s[i] && d[j] == s[j]);
        }
        lemma_filter_in_order(d, p);
        let f0 = d.filter(p);
        if p(s.last()) {
            let f = f0.push(s.last());
            assert forall|i: int, j: int| 0 <= i <= j < f.len() implies (#[trigger] f[i]).created_at
                <= (#[trigger] f[j]).created_at by {
                if j == f0.len() && i < f0.len() {
                    assert(f0.contains(f0[i]));
                    d.lemma_filter_contains_rev(p, f0[i]);
                    let k = choose|k: int| 0 <= k < d.len() && d[k] == f0[i];
                    assert(s[k] == f0[i]);
                    assert(s[k].created_at <= s[s.len() - 1].created_at);
                } else if j < f0.len() {
                    assert(f[i] == f0[i] && f[j] == f0[j]);
                }
            }
        }
    }
}

/// The articles passing `p`, most recent first, come in creation order
/// reversed.
pub proof fn lemma_newest_first_by_time(s: Store, p: spec_fn(Article) -> bool)
    requires
        created_in_order(s.articles@),
    ensures
        latest_first(newest_first(s, p)),
{
    let m = s.articles@.filter(p);
    lemma_filter_in_order(s.articles@, p);
    let l = newest_first(s, p);
    assert forall|i: int, j: int| 0 <= i <= j < l.len() implies (#[trigger] l[i]).created_at
        >= (#[trigger] l[j]).created_at by {
        assert(l[i] == m[m.len() - 1 - i]);
        assert(l[j] == m[m.len() - 1 - j]);
    }
}

/// A page of a latest-first sequence, enriched, is latest first.
pub proof fn lemma_page_latest_first(
    s: Store,
    viewer: i64,
    items: Seq<Article>,
    offset: int,
    limit: int,
    entries: Seq<ArticleEntry>,
)
    requires
        latest_first(items),
        entries_of(s, viewer, page(items, offset, limit), entries),
    ensures
        entries_latest_first(entries),
{
    let start = page_start(items.len() as int, offset);
    let pg = page(items, offset, limit);
    assert forall|i: int, j: int| 0 <= i <= j < entries.len() implies (#[trigger] entries[i]).article.created_at
        >= (#[trigger] entries[j]).article.created_at by {
        assert(entries[i].article == pg[i]);
        assert(entries[j].article == pg[j]);
        assert(pg[i] == items[start + i]);
        assert(pg[j] == items[start + j]);
    }
}

/// The offset and limit a listing uses for the given query values: the
/// offset defaults to 0 and is clamped to `0 ..= MAX_OFFSET`; the limit
/// defaults to `DEFAULT_LIMIT` and is at least 0.
pub fn resolve_pagination(offset: Option<i64>, limit: Option<i64>) -> (r: (i64, i64))
    ensures
        r.0 == match offset {
            None => 0,
            Some(o) => if o < 0 {
                0
            } else if o > MAX_OFFSET {
                MAX_OFFSET
            } else {
                o
            },
        },
        r.1 == match limit {
            None => DEFAULT_LIMIT,
            Some(l) => if l < 0 {
                0
            } else {
                l
            },
        },
{
    let o = match offset {
        None => 0,
        Some(o) => if o < 0 {
            0
        } else if o > MAX_OFFSET {
            MAX_OFFSET
        } else {
            o
        },
    };
    let l = match limit {
        None => DEFAULT_LIMIT,
        Some(l) => if l < 0 {
            0
        } else {
            l
        },
    };
    (o, l)
}

fn contains_id(ids: &Vec<i64>, x: i64) -> (r: bool)
    ensures
        r == ids@.contains(x),
{
    let mut i: usize = 0;
    while i < ids.len()
        invariant
            i <= ids@.len(),
            forall|k: int| 0 <= k < i ==> ids@[k] != x,
        decreases ids@.len() - i,
    {
        if ids[i] == x {
            assert(ids@[i as int] == x);
            return true;
        }
        i = i + 1;
    }
    false
}

/// Converts a clamped page bound to a position.
fn bound(v: i64, len: usize) -> (r: usize)
    ensures
        r == page_start(len as int, v as int),
{
    if v < 0 {
        0
    } else if v as u64 > len as u64 {
        len
    } else {
        v as usize
    }
}

impl Store {
    /// The keys of the articles tagged `name`.
    fn tagged_article_ids(&self, name: &String) -> (r: Vec<i64>)
        ensures
            forall|x: i64| r@.contains(x) <==> has_tag_named(*self, x, name@),
    {
        let mut out: Vec<i64> = Vec::new();
        let mut i: usize = 0;
        while i < self.tags.len()
            invariant
                i <= self.tags@.len(),
                forall|x: i64|
                    out@.contains(x) <==> exists|k: int|
                        0 <= k < i && self.tags@[k].article_id == x && self.tags@[k].name@
                            == name@,
            decreases self.tags@.len() - i,
        {
            if self.tags[i].name.eq(name) {
                out.push(self.tags[i].article_id);
            }
            proof {
                assert forall|x: i64|
                    (exists|k: int| 0 <= k < i + 1 && self.tags@[k].article_id == x && self.tags@[k].name@ == name@) implies out@.contains(x) by {
                    let k = choose|k: int| 0 <= k < i + 1 && self.tags@[k].article_id == x && self.tags@[k].name@ == name@;
                    if k == i {
                        assert(out@[out@.len() - 1] == x);
                    }
                }
            }
            i = i + 1;
        }
        out
    }

    /// The keys of the articles favorited by user `user`.
    pub fn fetch_favorited_article_ids_by_user_id(&self, user: i64) -> (r: Vec<i64>)
        requires
            self.wf(),
        ensures
            forall|x: i64| r@.contains(x) <==> has_favorite(self.favorites@, user, x),
            r@.no_duplicates(),
    {
        let mut out: Vec<i64> = Vec::new();
        let mut i: usize = 0;
        while i < self.favorites.len()
            invariant
                self.wf(),
                out@.no_duplicates(),
                i <= self.favorites@.len(),
                forall|x: i64|
                    out@.contains(x) <==> exists|k: int|
                        0 <= k < i && self.favorites@[k].user_id == user
                            && self.favorites@[k].article_id == x,
            decreases self.favorites@.len() - i,
        {
            let ghost prev = out@;
            if self.favorites[i].user_id == user {
                proof {
                    let x = self.favorites@[i as int].article_id;
                    if prev.contains(x) {
                        let k = choose|k: int|
                            0 <= k < i && self.favorites@[k].user_id == user
                                && self.favorites@[k].article_id == x;
                        assert(self.favorites@[k].user_id == self.favorites@[i as int].user_id);
                    }
                }
                out.push(self.favorites[i].article_id);
                proof {
                    assert forall|a: int, b: int|
                        0 <= a < out@.len() && 0 <= b < out@.len() && a != b implies out@[a]
                        != out@[b] by {
                        if a < prev.len() && b < prev.len() {
                            assert(prev[a] != prev[b]);
                        } else if a == prev.len() {
                            assert(prev.contains(out@[b]) || b == a);
                        } else {
                            assert(prev.contains(out@[a]) || b == a);
                        }
                    }
                }
            }
            proof {
                assert forall|x: i64|
                    (exists|k: int| 0 <= k < i + 1 && self.favorites@[k].user_id == user && self.favorites@[k].article_id == x) implies out@.contains(x) by {
                    let k = choose|k: int| 0 <= k < i + 1 && self.favorites@[k].user_id == user && self.favorites@[k].article_id == x;
                    if k == i {
                        assert(out@[out@.len() - 1] == x);
                    }
                }
            }
            i = i + 1;
        }
        out
    }

    /// The keys of the users `viewer` follows.
    fn followee_ids(&self, viewer: i64) -> (r: Vec<i64>)
        ensures
            forall|x: i64| r@.contains(x) <==> has_follow(self.follows@, viewer, x),
    {
        let mut out: Vec<i64> = Vec::new();
        let mut i: usize = 0;
        while i < self.follows.len()
            invariant
                i <= self.follows@.len(),
                forall|x: i64|
                    out@.contains(x) <==> exists|k: int|
                        0 <= k < i && self.follows@[k].follower_id == viewer
                            && self.follows@[k].followee_id == x,
            decreases self.follows@.len() - i,
        {
            if self.follows[i].follower_id == viewer {
                out.push(self.follows[i].followee_id);
            }
            proof {
                assert forall|x: i64|
                    (exists|k: int| 0 <= k < i + 1 && self.follows@[k].follower_id == viewer && self.follows@[k].followee_id == x) implies out@.contains(x) by {
                    let k = choose|k: int| 0 <= k < i + 1 && self.follows@[k].follower_id == viewer && self.follows@[k].followee_id == x;
                    if k == i {
                        assert(out@[out@.len() - 1] == x);
                    }
                }
            }
            i = i + 1;
        }
        out
    }

    /// The articles passing `p`, in storage order, where `p` holds of an
    /// article exactly when its key passes the candidate sets.
    fn select_articles(
        &self,
        p: Ghost<spec_fn(Article) -> bool>,
        tag_ids: &Option<Vec<i64>>,
        author_id: Option<i64>,
        fav_ids: &Option<Vec<i64>>,
    ) -> (r: Vec<Article>)
        requires
            forall|k: int|
                0 <= k < self.articles@.len() ==> (p@(#[trigger] self.articles@[k]) <==> ((
                tag_ids matches Some(ids) ==> ids@.contains(self.articles@[k].id)) && (
                author_id matches Some(x) ==> self.articles@[k].author_id == x) && (
                fav_ids matches Some(ids) ==> ids@.contains(self.articles@[k].id)))),
        ensures
            r@ == self.articles@.filter(p@),
    {
        let mut out: Vec<Article> = Vec::new();
        let mut i: usize = 0;
        while i < self.articles.len()
            invariant
                i <= self.articles@.len(),
                out@ == self.articles@.subrange(0, i as int).filter(p@),
                forall|k: int|
                    0 <= k < self.articles@.len() ==> (p@(#[trigger] self.articles@[k]) <==> ((
                    tag_ids matches Some(ids) ==> ids@.contains(self.articles@[k].id)) && (
                    author_id matches Some(x) ==> self.articles@[k].author_id == x) && (
                    fav_ids matches Some(ids) ==> ids@.contains(self.articles@[k].id)))),
            decreases self.articles@.len() - i,
        {
            proof {
                let s = self.articles@;
                assert(s.subrange(0, i + 1) == s.subrange(0, i as int).push(s[i as int]));
                s.subrange(0, i as int).lemma_filter_push(s[i as int], p@);
            }
            let a = &self.articles[i];
            let keep_tag = match tag_ids {
                Some(ids) => contains_id(ids, a.id),
                None => true,
            };
            let keep_author = match author_id {
                Some(x) => a.author_id == x,
                None => true,
            };
            let keep_fav = match fav_ids {
                Some(ids) => contains_id(ids, a.id),
                None => true,
            };
            proof {
                assert(p@(self.articles@[i as int]) == (keep_tag && keep_author && keep_fav));
            }
            if keep_tag && keep_author && keep_fav {
                out.push(a.copied());
            }
            i = i + 1;
        }
        proof {
            assert(self.articles@.subrange(0, i as int) == self.articles@);
        }
        out
    }

    /// Enriches the window `offset .. offset + limit` of `matched` read
    /// from its end, that is most recent first.
    fn enrich_page(&self, viewer: i64, matched: &Vec<Article>, offset: i64, limit: i64) -> (r: Vec<
        ArticleEntry,
    >)
        requires
            self.wf(),
            forall|k: int|
                0 <= k < matched@.len() ==> has_user(self.users@, (#[trigger] matched@[k]).author_id),
        ensures
            entries_of(*self, viewer, page(matched@.reverse(), offset as int, limit as int), r@),
    {
        let n = matched.len();
        let start = bound(offset, n);
        let ghost items = matched@.reverse();
        let ghost want = page(items, offset as int, limit as int);
        let end: usize = if limit < 0 {
            start
        } else if limit as u64 > (n - start) as u64 {
            n
        } else {
            start + limit as usize
        };
        assert(end == page_end(n as int, offset as int, limit as int));
        let mut out: Vec<ArticleEntry> = Vec::new();
        let mut k: usize = start;
        while k < end
            invariant
                start <= k <= end <= n,
                n == matched@.len(),
                items == matched@.reverse(),
                want == items.subrange(start as int, end as int),
                out@.len() == k - start,
                self.wf(),
                forall|j: int|
                    0 <= j < matched@.len() ==> has_user(self.users@, (#[trigger] matched@[j]).author_id),
                forall|j: int| 0 <= j < out@.len() ==> entry_of(*self, viewer, want[j], #[trigger] out@[j]),
            decreases end - k,
        {
            let a = &matched[n - 1 - k];
            proof {
                assert(items[k as int] == matched@[n - 1 - k]);
                assert(want[k - start] == items[k as int]);
            }
            let e = self.entry(viewer, a);
            out.push(e);
            k = k + 1;
        }
        out
    }

    /// A page of the articles passing every given filter, most recent
    /// first, each enriched for `viewer`, and the number of all articles
    /// passing the filters, whatever the page.
    pub fn fetch_articles_list(&self, viewer: i64, params: &FetchArticlesList) -> (r: (
        Vec<ArticleEntry>,
        u64,
    ))
        requires
            self.wf(),
        ensures
            entries_of(
                *self,
                viewer,
                page(listing(*self, params.filter), params.offset as int, params.limit as int),
                r.0@,
            ),
            r.1 == listing(*self, params.filter).len(),
            latest_first(listing(*self, params.filter)),
            entries_latest_first(r.0@),
    {
        let f = &params.filter;
        let ghost p = filter_pred(*self, *f);
        let tag_ids: Option<Vec<i64>> = match &f.tag {
            Some(t) => Some(self.tagged_article_ids(t)),
            None => None,
        };
        let author_id: Option<i64> = match &f.author {
            Some(name) => match self.username_index(name) {
                Some(k) => Some(self.users[k].id),
                None => Some(0),
            },
            None => None,
        };
        let fav_ids: Option<Vec<i64>> = match &f.favorited {
            Some(name) => match self.username_index(name) {
                Some(k) => Some(self.fetch_favorited_article_ids_by_user_id(self.users[k].id)),
                None => Some(Vec::new()),
            },
            None => None,
        };
        proof {
            assert forall|k: int| 0 <= k < self.articles@.len() implies (p(
                #[trigger] self.articles@[k],
            ) <==> ((tag_ids matches Some(ids) ==> ids@.contains(self.articles@[k].id)) && (
            author_id matches Some(x) ==> self.articles@[k].author_id == x) && (
            fav_ids matches Some(ids) ==> ids@.contains(self.articles@[k].id)))) by {
                let a = self.articles@[k];
                assert(has_user(self.users@, a.author_id));
                let j = choose|j: int| 0 <= j < self.users@.len() && self.users@[j].id == a.author_id;
                assert(self.users@[j].id > 0);
            }
        }
        let matched = self.select_articles(Ghost(p), &tag_ids, author_id, &fav_ids);
        proof {
            assert forall|k: int| 0 <= k < matched@.len() implies has_user(
                self.users@,
                (#[trigger] matched@[k]).author_id,
            ) by {
                crate::articles::lemma_filter_from(self.articles@, p, k);
            }
        }
        let entries = self.enrich_page(viewer, &matched, params.offset, params.limit);
        proof {
            lemma_newest_first_by_time(*self, p);
            lemma_page_latest_first(
                *self,
                viewer,
                matched@.reverse(),
                params.offset as int,
                params.limit as int,
                entries@,
            );
        }
        (entries, matched.len() as u64)
    }

    /// A page of the articles whose authors `viewer` follows, most recent
    /// first, each enriched for `viewer`, and the number of all of them.
    pub fn fetch_following_articles(&self, viewer: i64, params: &FetchFollowedArticles) -> (r: (
        Vec<ArticleEntry>,
        u64,
    ))
        requires
            self.wf(),
        ensures
            entries_of(
                *self,
                viewer,
                page(feed(*self, viewer), params.offset as int, params.limit as int),
                r.0@,
            ),
            r.1 == feed(*self, viewer).len(),
            latest_first(feed(*self, viewer)),
            entries_latest_first(r.0@),
    {
        let ghost p = feed_pred(*self, viewer);
        let followees = self.followee_ids(viewer);
        let none: Option<Vec<i64>> = None;
        let mut matched: Vec<Article> = Vec::new();
        let mut i: usize = 0;
        while i < self.articles.len()
            invariant
                i <= self.articles@.len(),
                matched@ == self.articles@.subrange(0, i as int).filter(p),
                p == feed_pred(*self, viewer),
                forall|x: i64| followees@.contains(x) <==> has_follow(self.follows@, viewer, x),
            decreases self.articles@.len() - i,
        {
            proof {
                let s = self.articles@;
                assert(s.subrange(0, i + 1) == s.subrange(0, i as int).push(s[i as int]));
                s.subrange(0, i as int).lemma_filter_push(s[i as int], p);
            }
            if contains_id(&followees, self.articles[i].author_id) {
                matched.push(self.articles[i].copied());
            }
            i = i + 1;
        }
        proof {
            assert(self.articles@.subrange(0, i as int) == self.articles@);
            assert forall|k: int| 0 <= k < matched@.len() implies has_user(
                self.users@,
                (#[trigger] matched@[k]).author_id,
            ) by {
                crate::articles::lemma_filter_from(self.articles@, p, k);
            }
        }
        let entries = self.enrich_page(viewer, &matched, params.offset, params.limit);
        proof {
            lemma_newest_first_by_time(*self, p);
            lemma_page_latest_first(
                *self,
                viewer,
                matched@.reverse(),
                params.offset as int,
                params.limit as int,
                entries@,
            );
        }
        (entries, matched.len() as u64)
    }
}

} // verus!
