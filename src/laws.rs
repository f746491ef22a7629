//! Properties that relate several operations of the library.

use vstd::prelude::*;

use crate::articles::{created, lemma_filter_all, lemma_filter_none, new_tags, tag_of, tags_of};
use crate::auth::{
    AuthOutcome, auth_outcome, bearer_rest, is_white_space, skips_verify, starts_with, trim_end,
    trim_start, trimmed,
};
use crate::model::{Article, User};
use crate::password::password_verifies;
use crate::query::{ArticleFilter, feed, feed_pred, filter_pred, listing, matches_filter};
use crate::relations::{
    favorite_count, favorite_pos, favorited, follow_pos, has_favorite, has_follow, of_article,
    unfavorited, unfollowed,
};
use crate::response::{names_of, views_of};
use crate::store::{Store, email_taken, signed_up, signin_result, user_by_email};
use crate::token::{ONE_DAY, claims_result, decoded_fields, issued_fields};

verus! {

broadcast use vstd::seq_lib::group_seq_properties, vstd::seq_lib::group_filter_ensures;

/// After a signup with a password, signing in with the same email and
/// password gives back the user that was created, and the token issued
/// at signin (at `signin_at`) decodes, until it expires, to that user.
pub proof fn signup_then_signin(
    before: Store,
    after: Store,
    email: Seq<char>,
    username: Seq<char>,
    password: Seq<char>,
    now: i64,
    user: User,
    token: Seq<char>,
    key: Seq<u8>,
    signin_at: i64,
    decode_at: i64,
)
    requires
        before.wf(),
        after.wf(),
        signed_up(before, after, email, username, user.password@, now, user),
        password_verifies(password, user.password@),
        signin_at <= i64::MAX - ONE_DAY,
        decoded_fields(token, key) == issued_fields(user.id, signin_at, (signin_at + ONE_DAY) as i64),
        decode_at <= signin_at + ONE_DAY,
    ensures
        signin_result(after, email, password) == Ok::<User, crate::error::AppError>(user),
        claims_result(decoded_fields(token, key), decode_at) matches Ok(c) && c.user_id == user.id,
{
    let users = after.users@;
    let n = before.users@.len() as int;
    assert(users[n] == user);
    assert(email_taken(users, email));
    let k = choose|k: int| 0 <= k < users.len() && users[k].email@ == email;
    assert(users[k].email@ == users[n].email@);
    assert(user_by_email(users, email) == user);
}

/// The header `Bearer <token>` carries `<token>`, when the token has no
/// white space at either end.
pub proof fn bearer_header_carries_token(token: Seq<char>)
    requires
        token.len() > 0,
        !is_white_space(token[0]),
        !is_white_space(token.last()),
    ensures
        bearer_rest("Bearer "@ + token) == Some(seq![' '] + token),
        trimmed(seq![' '] + token) == token,
{
    reveal_strlit("Bearer ");
    reveal_strlit("Bearer");
    reveal_strlit("bearer");
    let h = "Bearer "@ + token;
    assert(h.subrange(0, 6) =~= "Bearer"@);
    assert(starts_with(h, "Bearer"@));
    assert(h.subrange(6, h.len() as int) =~= seq![' '] + token);
    let t = seq![' '] + token;
    assert(is_white_space(t[0]));
    assert(t.drop_first() =~= token);
    assert(trim_start(token) == token);
    assert(trim_start(t) == token);
    assert(trim_end(token) == token);
}

/// A token whose expiry is its issue time plus a day, and lies before
/// `now`, is rejected on every non-public route, whether or not its
/// signature is valid.
pub proof fn expired_tokens_are_rejected(
    s: Store,
    is_options: bool,
    path: Seq<char>,
    header: Seq<char>,
    key: Seq<u8>,
    now: i64,
    user_id: i64,
    iat: i64,
)
    requires
        !skips_verify(is_options, path),
        bearer_rest(header) is Some,
        iat + ONE_DAY < now,
        decoded_fields(trimmed(bearer_rest(header)->Some_0), key) is Ok ==> decoded_fields(
            trimmed(bearer_rest(header)->Some_0),
            key,
        ) == issued_fields(user_id, iat, (iat + ONE_DAY) as i64),
    ensures
        auth_outcome(s, is_options, path, Some(header), key, now) == AuthOutcome::Rejected,
{
}

/// The count a listing reports is the number of stored articles that
/// pass its filters, and the listing holds exactly those articles; no
/// offset or limit enters it.
pub proof fn listing_counts_matching_articles(s: Store, f: ArticleFilter)
    ensures
        listing(s, f).len() == s.articles@.filter(filter_pred(s, f)).len(),
        forall|k: int|
            0 <= k < listing(s, f).len() ==> matches_filter(s, f, #[trigger] listing(s, f)[k])
                && s.articles@.contains(listing(s, f)[k]),
        forall|i: int|
            0 <= i < s.articles@.len() && matches_filter(s, f, s.articles@[i]) ==> listing(
                s,
                f,
            ).contains(#[trigger] s.articles@[i]),
{
    let m = s.articles@.filter(filter_pred(s, f));
    let l = listing(s, f);
    assert(l.len() == m.len());
    assert forall|k: int| 0 <= k < l.len() implies matches_filter(s, f, #[trigger] l[k])
        && s.articles@.contains(l[k]) by {
        let j = m.len() - 1 - k;
        assert(l[k] == m[j]);
        assert(filter_pred(s, f)(m[j]));
        assert(m.contains(m[j]));
        s.articles@.lemma_filter_contains_rev(filter_pred(s, f), m[j]);
    }
    assert forall|i: int|
        0 <= i < s.articles@.len() && matches_filter(s, f, s.articles@[i]) implies l.contains(
        #[trigger] s.articles@[i],
    ) by {
        assert(filter_pred(s, f)(s.articles@[i]));
        assert(m.contains(s.articles@[i]));
        let j = choose|j: int| 0 <= j < m.len() && m[j] == s.articles@[i];
        assert(l[m.len() - 1 - j] == m[j]);
    }
}

/// Unfollowing twice in a row leaves no edge after either call, and the
/// second call changes nothing.
pub proof fn unfollow_twice(s0: Store, s1: Store, s2: Store, follower: i64, followee: i64)
    requires
        s0.wf(),
        unfollowed(s0, s1, follower, followee),
        unfollowed(s1, s2, follower, followee),
    ensures
        !has_follow(s1.follows@, follower, followee),
        !has_follow(s2.follows@, follower, followee),
        s2 == s1 || (s2.follows@ == s1.follows@ && s2.users@ == s1.users@ && s2.articles@
            == s1.articles@ && s2.tags@ == s1.tags@ && s2.favorites@ == s1.favorites@
            && s2.comments@ == s1.comments@ && s2.next_id == s1.next_id),
{
    let fs = s0.follows@;
    if has_follow(fs, follower, followee) {
        let k = follow_pos(fs, follower, followee);
        let rest = fs.remove(k);
        if has_follow(rest, follower, followee) {
            let i = choose|i: int|
                0 <= i < rest.len() && rest[i].follower_id == follower && rest[i].followee_id
                    == followee;
            let oi = if i < k { i } else { i + 1 };
            assert(rest[i] == fs[oi]);
            assert(fs[k].follower_id == fs[oi].follower_id);
        }
    }
}

/// The tags stored with a new article are exactly the given names, in
/// the given order.
pub proof fn created_tags_round_trip(
    before: Store,
    after: Store,
    author: i64,
    title: Seq<char>,
    description: Seq<char>,
    body: Seq<char>,
    names: Seq<String>,
    now: i64,
)
    requires
        before.wf(),
        created(before, after, author, title, description, body, names, now),
    ensures
        names_of(tags_of(after, before.next_id)) == views_of(names),
{
    let id = before.next_id;
    let fresh = new_tags(names, id, (id + 1) as i64, now);
    assert(after.tags@ == before.tags@ + fresh);
    assert forall|i: int| 0 <= i < before.tags@.len() implies !tag_of(id)(before.tags@[i]) by {
        assert(before.tags@[i].article_id < id);
    }
    lemma_filter_none(before.tags@, tag_of(id));
    lemma_filter_all(fresh, tag_of(id));
    assert(tags_of(after, id) == before.tags@.filter(tag_of(id)) + fresh.filter(tag_of(id)));
    assert(tags_of(after, id) =~= fresh);
    assert(names_of(fresh) =~= views_of(names));
}

/// Favoriting an article adds one to its count and marks it favorited
/// for the user; unfavoriting it then restores the favorites as they were.
pub proof fn favorite_then_unfavorite(
    s0: Store,
    s1: Store,
    s2: Store,
    user: i64,
    article: i64,
    now: i64,
)
    requires
        s1.wf(),
        !has_favorite(s0.favorites@, user, article),
        favorited(s0, s1, user, article, now),
        unfavorited(s1, s2, user, article),
    ensures
        has_favorite(s1.favorites@, user, article),
        favorite_count(s1.favorites@, article) == favorite_count(s0.favorites@, article) + 1,
        !has_favorite(s2.favorites@, user, article),
        s2.favorites@ == s0.favorites@,
        favorite_count(s2.favorites@, article) == favorite_count(s0.favorites@, article),
{
    let f0 = s0.favorites@;
    let f1 = s1.favorites@;
    let n = f0.len() as int;
    assert(f1[n].user_id == user && f1[n].article_id == article);
    assert(has_favorite(f1, user, article));
    f0.lemma_filter_push(f1[n], of_article(article));
    let k = favorite_pos(f1, user, article);
    assert(f1[k].user_id == f1[n].user_id && f1[k].article_id == f1[n].article_id);
    assert(k == n);
    assert(f1.remove(n) =~= f0);
}

/// A follow edge puts every article of the followed author in the
/// viewer's feed; after unfollowing, none of them is left there.
pub proof fn feed_follows_edges(s0: Store, s1: Store, viewer: i64, author: i64, a: Article)
    requires
        s0.wf(),
        s0.articles@.contains(a),
        a.author_id == author,
        unfollowed(s0, s1, viewer, author),
    ensures
        has_follow(s0.follows@, viewer, author) ==> feed(s0, viewer).contains(a),
        !feed(s1, viewer).contains(a),
{
    let m0 = s0.articles@.filter(feed_pred(s0, viewer));
    if has_follow(s0.follows@, viewer, author) {
        let i = choose|i: int| 0 <= i < s0.articles@.len() && s0.articles@[i] == a;
        assert(feed_pred(s0, viewer)(s0.articles@[i]));
        assert(m0.contains(a));
        let j = choose|j: int| 0 <= j < m0.len() && m0[j] == a;
        assert(feed(s0, viewer)[m0.len() - 1 - j] == a);
    }
    unfollow_twice(s0, s1, s1, viewer, author);
    let m1 = s1.articles@.filter(feed_pred(s1, viewer));
    if feed(s1, viewer).contains(a) {
        let k = choose|k: int| 0 <= k < feed(s1, viewer).len() && feed(s1, viewer)[k] == a;
        assert(m1[m1.len() - 1 - k] == a);
        assert(feed_pred(s1, viewer)(m1[m1.len() - 1 - k]));
    }
}

} // verus!
