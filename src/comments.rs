//! Comments on articles: created by a user, listed per article with the
//! author's profile, deleted by their author.

use vstd::prelude::*;

use crate::error::AppError;
use crate::model::{Comment, Profile};
use crate::relations::{has_article, profile_of};
use crate::slug::slugify;
use crate::store::{Store, has_user, user_of};

verus! {

broadcast use vstd::seq_lib::group_seq_properties, vstd::seq_lib::group_filter_ensures;

pub open spec fn comment_of(article: i64) -> spec_fn(Comment) -> bool {
    |c: Comment| c.article_id == article
}

/// The comments on `article`, oldest first.
pub open spec fn comments_of(s: Store, article: i64) -> Seq<Comment> {
    s.comments@.filter(comment_of(article))
}

pub open spec fn has_comment(s: Store, article: i64, id: i64) -> bool {
    exists|i: int|
        0 <= i < s.comments@.len() && s.comments@[i].id == id && s.comments@[i].article_id
            == article
}

/// The position of comment `id` (meaningful when it exists).
pub open spec fn comment_pos(s: Store, id: i64) -> int {
    choose|i: int| 0 <= i < s.comments@.len() && s.comments@[i].id == id
}

/// Why `me` may not comment on `article`, if so.
pub open spec fn comment_check(s: Store, me: i64, article: i64, body: Seq<char>) -> Option<AppError> {
    if !has_user(s.users@, me) || !has_article(s, article) {
        Some(AppError::NotFound)
    } else if body.len() == 0 {
        Some(AppError::ValidationError)
    } else if s.next_id == i64::MAX {
        Some(AppError::StoreUnavailable)
    } else {
        None
    }
}

/// Why `me` may not delete comment `id` of `article`, if so.
pub open spec fn delete_comment_check(s: Store, me: i64, article: i64, id: i64) -> Option<AppError> {
    if !has_comment(s, article, id) {
        Some(AppError::NotFound)
    } else if s.comments@[comment_pos(s, id)].author_id != me {
        Some(AppError::Unauthorized)
    } else {
        None
    }
}

/// `listed` holds the comments on `article`, each with its author's
/// profile as seen by `viewer`.
pub open spec fn comments_listed(s: Store, viewer: i64, article: i64, listed: Seq<(Comment, Profile)>) -> bool {
    let cs = comments_of(s, article);
    &&& listed.len() == cs.len()
    &&& forall|k: int|
        0 <= k < cs.len() ==> (#[trigger] listed[k]).0 == cs[k] && listed[k].1 == profile_of(
            s,
            viewer,
            user_of(s.users@, cs[k].author_id),
        )
}

impl Store {
    /// Adds a comment by `me` on `article`; returns it with `me`'s profile.
    pub fn create_comment(&mut self, me: i64, article: i64, body: &str, now: i64) -> (r: Result<
        (Comment, Profile),
        AppError,
    >)
        requires
            old(self).wf(),
        ensures
            final(self).wf(),
            match comment_check(*old(self), me, article, body@) {
                Some(e) => r == Err::<(Comment, Profile), AppError>(e) && *final(self) == *old(self),
                None => {
                    let c = Comment {
                        id: old(self).next_id,
                        article_id: article,
                        author_id: me,
                        body: r->Ok_0.0.body,
                        created_at: now,
                        updated_at: now,
                    };
                    &&& r is Ok
                    &&& r->Ok_0.0 == c
                    &&& c.body@ == body@
                    &&& r->Ok_0.1 == profile_of(*final(self), me, user_of(final(self).users@, me))
                    &&& final(self).comments@ == old(self).comments@.push(c)
                    &&& final(self).next_id == old(self).next_id + 1
                    &&& final(self).users@ == old(self).users@
                    &&& final(self).articles@ == old(self).articles@
                    &&& final(self).tags@ == old(self).tags@
                    &&& final(self).follows@ == old(self).follows@
                    &&& final(self).favorites@ == old(self).favorites@
                },
            },
    {
        let k = match self.user_index(me) {
            Some(k) => k,
            None => {
                return Err(AppError::NotFound);
            },
        };
        let pos = match self.article_index(article) {
            Some(p) => p,
            None => {
                return Err(AppError::NotFound);
            },
        };
        if body.unicode_len() == 0 {
            return Err(AppError::ValidationError);
        }
        if self.next_id == i64::MAX {
            return Err(AppError::StoreUnavailable);
        }
        let ghost before = *self;
        let comment = Comment {
            id: self.next_id,
            article_id: article,
            author_id: me,
            body: body.to_owned(),
            created_at: now,
            updated_at: now,
        };
        let result = comment.copied();
        self.comments.push(comment);
        self.next_id = self.next_id + 1;
        proof {
            let cs = self.comments@;
            let n = before.comments@.len() as int;
            assert(cs[n] == comment);
            assert(self.articles@[pos as int].id < before.next_id);
            assert(has_user(self.users@, me)) by {
                assert(self.users@[k as int].id == me);
            }
            assert forall|i: int| 0 <= i < cs.len() implies 0 < (#[trigger] cs[i]).id
                < self.next_id && cs[i].article_id < self.next_id && has_user(
                self.users@,
                cs[i].author_id,
            ) by {
                if i < n {
                    assert(cs[i] == before.comments@[i]);
                }
            }
            assert forall|i: int, j: int|
                0 <= i < cs.len() && 0 <= j < cs.len() && #[trigger] cs[i].id
                    == #[trigger] cs[j].id implies i == j by {
                if i < n {
                    assert(cs[i] == before.comments@[i]);
                }
                if j < n {
                    assert(cs[j] == before.comments@[j]);
                }
            }
            assert forall|i: int| 0 <= i < self.articles@.len() implies has_user(
                self.users@,
                (#[trigger] self.articles@[i]).author_id,
            ) && self.articles@[i].slug@ == slugify(self.articles@[i].title@) by {
                assert(self.articles@[i] == before.articles@[i]);
            }
        }
        let profile = self.profile(me, &self.users[k]);
        proof {
            let j = choose|j: int| 0 <= j < self.users@.len() && self.users@[j].id == me;
            assert(self.users@[j].id == self.users@[k as int].id);
        }
        Ok((result, profile))
    }

    /// The position of comment `id` of `article`.
    pub fn comment_index(&self, article: i64, id: i64) -> (r: Option<usize>)
        requires
            self.wf(),
        ensures
            match r {
                Some(k) => has_comment(*self, article, id) && k == comment_pos(*self, id)
                    && self.comments@[k as int].article_id == article,
                None => !has_comment(*self, article, id),
            },
    {
        let mut i: usize = 0;
        while i < self.comments.len()
            invariant
                self.wf(),
                i <= self.comments@.len(),
                forall|k: int|
                    0 <= k < i ==> !(self.comments@[k].id == id && self.comments@[k].article_id
                        == article),
            decreases self.comments@.len() - i,
        {
            if self.comments[i].id == id && self.comments[i].article_id == article {
                proof {
                    assert(has_comment(*self, article, id));
                    assert(self.comments@[i as int].id == id);
                    let j = comment_pos(*self, id);
                    assert(self.comments@[j].id == self.comments@[i as int].id);
                }
                return Some(i);
            }
            i = i + 1;
        }
        None
    }

    /// Removes comment `id` of `article`, written by `me`.
    pub fn delete_comment(&mut self, me: i64, article: i64, id: i64) -> (r: Result<(), AppError>)
        requires
            old(self).wf(),
        ensures
            final(self).wf(),
            match delete_comment_check(*old(self), me, article, id) {
                Some(e) => r == Err::<(), AppError>(e) && *final(self) == *old(self),
                None => {
                    &&& r is Ok
                    &&& final(self).comments@ == old(self).comments@.remove(
                        comment_pos(*old(self), id),
                    )
                    &&& final(self).next_id == old(self).next_id
                    &&& final(self).users@ == old(self).users@
                    &&& final(self).articles@ == old(self).articles@
                    &&& final(self).tags@ == old(self).tags@
                    &&& final(self).follows@ == old(self).follows@
                    &&& final(self).favorites@ == old(self).favorites@
                },
            },
    {
        let k = match self.comment_index(article, id) {
            Some(k) => k,
            None => {
                return Err(AppError::NotFound);
            },
        };
        if self.comments[k].author_id != me {
            return Err(AppError::Unauthorized);
        }
        let ghost before = *self;
        self.comments.remove(k);
        proof {
            let cs = self.comments@;
            let oc = before.comments@;
            assert forall|i: int| 0 <= i < cs.len() implies 0 < (#[trigger] cs[i]).id
                < self.next_id && cs[i].article_id < self.next_id && has_user(
                self.users@,
                cs[i].author_id,
            ) by {
                let oi = if i < k { i } else { i + 1 };
                assert(cs[i] == oc[oi]);
            }
            assert forall|i: int, j: int|
                0 <= i < cs.len() && 0 <= j < cs.len() && #[trigger] cs[i].id
                    == #[trigger] cs[j].id implies i == j by {
                let oi = if i < k { i } else { i + 1 };
                let oj = if j < k { j } else { j + 1 };
                assert(cs[i] == oc[oi]);
                assert(cs[j] == oc[oj]);
            }
        }
        Ok(())
    }

    /// The comments on `article`, oldest first, each with its author's
    /// profile as seen by `viewer`.
    pub fn fetch_comments_list(&self, viewer: i64, article: i64) -> (r: Result<
        Vec<(Comment, Profile)>,
        AppError,
    >)
        requires
            self.wf(),
        ensures
            !has_article(*self, article) ==> r == Err::<Vec<(Comment, Profile)>, AppError>(
                AppError::NotFound,
            ),
            has_article(*self, article) ==> (r matches Ok(v) && comments_listed(
                *self,
                viewer,
                article,
                v@,
            )),
    {
        if self.article_index(article).is_none() {
            return Err(AppError::NotFound);
        }
        let mut out: Vec<(Comment, Profile)> = Vec::new();
        let mut i: usize = 0;
        while i < self.comments.len()
            invariant
                self.wf(),
                i <= self.comments@.len(),
                out@.len() == self.comments@.subrange(0, i as int).filter(comment_of(article)).len(),
                forall|k: int|
                    0 <= k < out@.len() ==> {
                        let c = self.comments@.subrange(0, i as int).filter(comment_of(article))[k];
                        (#[trigger] out@[k]).0 == c && out@[k].1 == profile_of(
                            *self,
                            viewer,
                            user_of(self.users@, c.author_id),
                        )
                    },
            decreases self.comments@.len() - i,
        {
            let ghost f0 = self.comments@.subrange(0, i as int).filter(comment_of(article));
            proof {
                let s = self.comments@;
                assert(s.subrange(0, i + 1) == s.subrange(0, i as int).push(s[i as int]));
                s.subrange(0, i as int).lemma_filter_push(s[i as int], comment_of(article));
            }
            if self.comments[i].article_id == article {
                let c = &self.comments[i];
                let k = match self.user_index(c.author_id) {
                    Some(k) => k,
                    None => {
                        proof {
                            assert(has_user(self.users@, self.comments@[i as int].author_id));
                        }
                        0
                    },
                };
                proof {
                    assert(has_user(self.users@, self.comments@[i as int].author_id));
                    let j = choose|j: int|
                        0 <= j < self.users@.len() && self.users@[j].id == c.author_id;
                    assert(self.users@[j].id == self.users@[k as int].id);
                }
                let profile = self.profile(viewer, &self.users[k]);
                out.push((c.copied(), profile));
                proof {
                    let f1 = self.comments@.subrange(0, i + 1).filter(comment_of(article));
                    assert(f1 == f0.push(self.comments@[i as int]));
                    assert forall|m: int| 0 <= m < out@.len() implies {
                        let c = f1[m];
                        (#[trigger] out@[m]).0 == c && out@[m].1 == profile_of(
                            *self,
                            viewer,
                            user_of(self.users@, c.author_id),
                        )
                    } by {
                        if m < f0.len() {
                            assert(f1[m] == f0[m]);
                        }
                    }
                }
            }
            i = i + 1;
        }
        proof {
            assert(self.comments@.subrange(0, i as int) == self.comments@);
        }
        Ok(out)
    }
}

} // verus!
