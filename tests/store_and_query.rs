use conduit::articles::ArticleEntry;
use conduit::auth::{access_auth_user, authenticate, bearer_token, should_skip_verify, Authentication, AuthOutcome};
use conduit::error::AppError;
use conduit::query::{resolve_pagination, ArticleFilter, FetchArticlesList, FetchFollowedArticles};
use conduit::response::{time_string, ArticleContent, ErrorResponse, MultipleArticlesResponse, MultipleCommentsResponse, TagsResponse, UserResponse, tag_names};
use conduit::slug::convert_title_to_slug;
use conduit::store::{Store, UpdatableUser};
use conduit::token::{decode, generate, Claims, TokenError, ONE_DAY};

const KEY: &[u8] = b"0123456789abcdef";
const NOW: i64 = 1_700_000_000;

fn store() -> Store {
    Store::new(4)
}

fn user(s: &mut Store, name: &str) -> i64 {
    let email = format!("{}@example.com", name);
    s.signup(&email, name, "secret", NOW).unwrap().id
}

fn no_filter() -> ArticleFilter {
    ArticleFilter { tag: None, author: None, favorited: None }
}

fn list(s: &Store, viewer: i64, filter: ArticleFilter, offset: i64, limit: i64) -> (Vec<ArticleEntry>, u64) {
    s.fetch_articles_list(viewer, &FetchArticlesList { filter, offset, limit })
}

fn titles(entries: &[ArticleEntry]) -> Vec<String> {
    entries.iter().map(|e| e.article.title.clone()).collect()
}

#[test]
fn slug_of_hello_world() {
    assert_eq!(convert_title_to_slug("Hello World"), "hello-world");
}

#[test]
fn slug_joins_words_with_single_dashes() {
    assert_eq!(convert_title_to_slug("  Rust, Verus & You!  "), "rust-verus-you");
    assert_eq!(convert_title_to_slug("A1 b2"), "a1-b2");
    assert_eq!(convert_title_to_slug("!!!"), "");
    assert_eq!(convert_title_to_slug(""), "");
}

#[test]
fn signup_then_signin_gives_token_for_the_user() {
    let mut s = store();
    let u = s.signup("ann@example.com", "ann", "pw-123", NOW).unwrap();
    assert_eq!(u.id, 1);
    assert_eq!(u.email, "ann@example.com");
    assert_ne!(u.password, "pw-123");
    let (v, token) = s.signin("ann@example.com", "pw-123", KEY, NOW).unwrap();
    assert_eq!(v.id, u.id);
    let claims = decode(&token, KEY, NOW).unwrap();
    assert_eq!(claims, Claims { user_id: u.id, iat: NOW, exp: NOW + ONE_DAY });
}

#[test]
fn signup_errors() {
    let mut s = store();
    user(&mut s, "ann");
    assert_eq!(s.signup("ann@example.com", "other", "pw", NOW).unwrap_err(), AppError::DuplicateConstraint);
    assert_eq!(s.signup("new@example.com", "ann", "pw", NOW).unwrap_err(), AppError::DuplicateConstraint);
    assert_eq!(s.signup("", "bob", "pw", NOW).unwrap_err(), AppError::ValidationError);
    assert_eq!(s.signup("ann@example.com", "other", "", NOW).unwrap_err(), AppError::DuplicateConstraint);
    assert_eq!(s.signup("ann@example.com", "", "pw", NOW).unwrap_err(), AppError::DuplicateConstraint);
    assert_eq!(s.users.len(), 1);
    let mut bad_cost = Store::new(2);
    assert_eq!(bad_cost.signup("a@b.c", "a", "pw", NOW).unwrap_err(), AppError::StoreUnavailable);
    assert!(bad_cost.users.is_empty());
}

#[test]
fn empty_password_is_accepted() {
    let mut s = store();
    let u = s.signup("bob@example.com", "bob", "", NOW).unwrap();
    assert_ne!(u.password, "");
    assert_eq!(s.check_credentials("bob@example.com", "").unwrap().id, u.id);
    let pw = UpdatableUser { email: None, username: None, password: Some(String::new()), bio: None, image: None };
    s.update(u.id, pw, NOW).unwrap();
    assert!(s.check_credentials("bob@example.com", "").is_ok());
}

#[test]
fn signin_errors() {
    let mut s = store();
    user(&mut s, "ann");
    assert_eq!(s.signin("ann@example.com", "wrong", KEY, NOW).unwrap_err(), AppError::InvalidCredentials);
    assert_eq!(s.signin("nobody@example.com", "secret", KEY, NOW).unwrap_err(), AppError::NotFound);
    assert_eq!(s.check_credentials("ann@example.com", "secret").unwrap().username, "ann");
}

#[test]
fn partial_user_update() {
    let mut s = store();
    let ann = user(&mut s, "ann");
    user(&mut s, "bob");
    let changes = UpdatableUser { email: None, username: None, password: None, bio: Some("hi".to_string()), image: None };
    let u = s.update(ann, changes, NOW + 5).unwrap();
    assert_eq!(u.bio.as_deref(), Some("hi"));
    assert_eq!(u.username, "ann");
    assert_eq!(u.email, "ann@example.com");
    assert_eq!(u.updated_at, NOW + 5);
    let taken = UpdatableUser { email: None, username: Some("bob".to_string()), password: None, bio: None, image: None };
    assert_eq!(s.update(ann, taken, NOW).unwrap_err(), AppError::DuplicateConstraint);
    let pw = UpdatableUser { email: None, username: None, password: Some("new-pw".to_string()), bio: None, image: None };
    s.update(ann, pw, NOW).unwrap();
    assert!(s.check_credentials("ann@example.com", "new-pw").is_ok());
    assert_eq!(s.check_credentials("ann@example.com", "secret").unwrap_err(), AppError::InvalidCredentials);
    let missing = UpdatableUser { email: None, username: None, password: None, bio: None, image: None };
    assert_eq!(s.update(99, missing, NOW).unwrap_err(), AppError::NotFound);
}

#[test]
fn token_round_trip_and_errors() {
    let t = generate(7, NOW, KEY);
    assert_eq!(decode(&t, KEY, NOW + ONE_DAY).unwrap().user_id, 7);
    assert_eq!(decode(&t, KEY, NOW + ONE_DAY + 1).unwrap_err(), TokenError::Expired);
    assert_eq!(decode(&t, b"another key", NOW).unwrap_err(), TokenError::InvalidSignature);
    assert_eq!(decode("not a token", KEY, NOW).unwrap_err(), TokenError::Malformed);
    assert_eq!(Claims::new(7, NOW).exp, NOW + ONE_DAY);
}

#[test]
fn auth_allows_public_routes_and_probes() {
    let s = store();
    assert!(should_skip_verify(false, "/api/tags"));
    assert!(should_skip_verify(false, "/api/users/login"));
    assert!(should_skip_verify(true, "/api/articles"));
    assert!(!should_skip_verify(false, "/api/user"));
    assert!(matches!(authenticate(&s, false, "/api/users", None, KEY, NOW), AuthOutcome::AllowedAnonymous));
    assert!(matches!(authenticate(&s, false, "/api/articles", None, KEY, NOW), AuthOutcome::Rejected));
}

#[test]
fn auth_resolves_bearer_tokens() {
    let mut s = store();
    let ann = user(&mut s, "ann");
    let t = generate(ann, NOW, KEY);
    let header = format!("Bearer  {} ", t);
    assert_eq!(bearer_token(&header), Some(t.as_str()));
    assert_eq!(bearer_token("Basic abc"), None);
    let out = authenticate(&s, false, "/api/user", Some(&header), KEY, NOW);
    assert_eq!(access_auth_user(&out).unwrap().id, ann);
    let lower = format!("bearer {}", t);
    assert!(matches!(authenticate(&s, false, "/api/user", Some(&lower), KEY, NOW), AuthOutcome::AllowedAuthenticated(_)));
    let auth = Authentication::new(KEY.to_vec());
    assert!(matches!(auth.check(&s, false, "/api/user", Some(&header), NOW), AuthOutcome::AllowedAuthenticated(_)));
    assert!(matches!(authenticate(&s, false, "/api/user", Some("Token abc"), KEY, NOW), AuthOutcome::Rejected));
    assert_eq!(access_auth_user(&AuthOutcome::Rejected).unwrap_err(), AppError::Unauthorized);
}

#[test]
fn auth_rejects_expired_and_unknown() {
    let mut s = store();
    let ann = user(&mut s, "ann");
    let old = generate(ann, NOW - ONE_DAY - 10, KEY);
    let header = format!("Bearer {}", old);
    assert!(matches!(authenticate(&s, false, "/api/user", Some(&header), KEY, NOW), AuthOutcome::Rejected));
    let forged = generate(ann, NOW - ONE_DAY - 10, b"other");
    let header = format!("Bearer {}", forged);
    assert!(matches!(authenticate(&s, false, "/api/user", Some(&header), KEY, NOW), AuthOutcome::Rejected));
    let ghost = generate(42, NOW, KEY);
    let header = format!("Bearer {}", ghost);
    assert!(matches!(authenticate(&s, false, "/api/user", Some(&header), KEY, NOW), AuthOutcome::Rejected));
}

#[test]
fn unfollow_twice_is_idempotent() {
    let mut s = store();
    let ann = user(&mut s, "ann");
    let bob = user(&mut s, "bob");
    assert!(s.follow(ann, "bob", NOW).unwrap().following);
    assert!(s.follow(ann, "bob", NOW).unwrap().following);
    assert_eq!(s.follows.len(), 1);
    assert!(s.is_following(ann, bob));
    assert!(!s.unfollow(ann, "bob").unwrap().following);
    assert!(!s.is_following(ann, bob));
    let second = s.unfollow(ann, "bob");
    assert!(second.is_ok());
    assert!(!s.is_following(ann, bob));
    assert_eq!(s.unfollow(ann, "nobody").unwrap_err(), AppError::NotFound);
    assert_eq!(s.follow(ann, "ann", NOW).unwrap_err(), AppError::ValidationError);
}

#[test]
fn profile_by_name_shows_follow_flag() {
    let mut s = store();
    let ann = user(&mut s, "ann");
    user(&mut s, "bob");
    assert!(!s.fetch_by_name(ann, "bob").unwrap().following);
    s.follow(ann, "bob", NOW).unwrap();
    let p = s.fetch_by_name(ann, "bob").unwrap();
    assert!(p.following);
    assert_eq!(p.username, "bob");
    assert_eq!(s.fetch_by_name(ann, "carl").unwrap_err(), AppError::NotFound);
}

#[test]
fn create_then_fetch_returns_the_tags() {
    let mut s = store();
    let ann = user(&mut s, "ann");
    let tags = Some(vec!["a".to_string(), "b".to_string()]);
    let e = s.create(ann, "Tagged", "d", "b", &tags, NOW).unwrap();
    let fetched = s.fetch_article(ann, e.article.id).unwrap();
    let mut names: Vec<String> = fetched.tags.iter().map(|t| t.name.clone()).collect();
    names.sort();
    assert_eq!(names, vec!["a".to_string(), "b".to_string()]);
    assert!(fetched.tags.iter().all(|t| t.article_id == e.article.id));
    assert_eq!(tag_names(&fetched.tags), vec!["a".to_string(), "b".to_string()]);
}

#[test]
fn create_article_errors() {
    let mut s = store();
    let ann = user(&mut s, "ann");
    s.create(ann, "Hello World", "d", "b", &None, NOW).unwrap();
    assert_eq!(s.create(ann, "hello world!", "d", "b", &None, NOW).unwrap_err(), AppError::DuplicateConstraint);
    assert_eq!(s.create(ann, "???", "d", "b", &None, NOW).unwrap_err(), AppError::ValidationError);
    assert_eq!(s.create(99, "Other", "d", "b", &None, NOW).unwrap_err(), AppError::NotFound);
    assert_eq!(s.articles.len(), 1);
}

#[test]
fn favorite_scenario() {
    let mut s = store();
    let u1 = user(&mut s, "u1");
    let u2 = user(&mut s, "u2");
    let a = s.create(u1, "Hello World", "d", "b", &None, NOW).unwrap();
    assert_eq!(a.article.slug, "hello-world");
    s.favorite(u2, a.article.id, NOW).unwrap();
    let (page, count) = list(&s, u2, no_filter(), 0, 20);
    assert_eq!(count, 1);
    assert!(page[0].favorite.is_favorited);
    assert_eq!(page[0].favorite.favorites_count, 1);
    s.unfavorite(u2, a.article.id);
    let (page, _) = list(&s, u2, no_filter(), 0, 20);
    assert!(!page[0].favorite.is_favorited);
    assert_eq!(page[0].favorite.favorites_count, 0);
    assert_eq!(s.favorite(u2, 999, NOW).unwrap_err(), AppError::NotFound);
}

#[test]
fn feed_scenario() {
    let mut s = store();
    let u1 = user(&mut s, "u1");
    let u2 = user(&mut s, "u2");
    s.follow(u1, "u2", NOW).unwrap();
    let b = s.create(u2, "Article B", "d", "b", &None, NOW).unwrap();
    let params = FetchFollowedArticles { offset: 0, limit: 20 };
    let (feed, count) = s.fetch_following_articles(u1, &params);
    assert_eq!(count, 1);
    assert_eq!(feed[0].article.id, b.article.id);
    assert!(feed[0].author.following);
    s.unfollow(u1, "u2").unwrap();
    let (feed, count) = s.fetch_following_articles(u1, &params);
    assert_eq!(count, 0);
    assert!(feed.is_empty());
}

#[test]
fn listing_count_ignores_pagination_and_filters_apply() {
    let mut s = store();
    let ann = user(&mut s, "ann");
    let bob = user(&mut s, "bob");
    let rust = Some(vec!["rust".to_string()]);
    s.create(ann, "First", "d", "b", &rust, NOW).unwrap();
    s.create(bob, "Second", "d", "b", &None, NOW + 1).unwrap();
    let third = s.create(ann, "Third", "d", "b", &rust, NOW + 2).unwrap();
    s.favorite(bob, third.article.id, NOW).unwrap();

    let (page, count) = list(&s, ann, no_filter(), 0, 20);
    assert_eq!(count, 3);
    assert_eq!(titles(&page), vec!["Third", "Second", "First"]);
    let (page, count) = list(&s, ann, no_filter(), 1, 1);
    assert_eq!(count, 3);
    assert_eq!(titles(&page), vec!["Second"]);
    let (page, count) = list(&s, ann, no_filter(), 5, 1);
    assert_eq!(count, 3);
    assert!(page.is_empty());

    let by_tag = ArticleFilter { tag: Some("rust".to_string()), author: None, favorited: None };
    let (page, count) = list(&s, ann, by_tag, 0, 1);
    assert_eq!(count, 2);
    assert_eq!(titles(&page), vec!["Third"]);
    let by_author = ArticleFilter { tag: None, author: Some("bob".to_string()), favorited: None };
    assert_eq!(titles(&list(&s, ann, by_author, 0, 20).0), vec!["Second"]);
    let by_fav = ArticleFilter { tag: None, author: None, favorited: Some("bob".to_string()) };
    assert_eq!(titles(&list(&s, ann, by_fav, 0, 20).0), vec!["Third"]);
    let unknown = ArticleFilter { tag: None, author: Some("zed".to_string()), favorited: None };
    assert_eq!(list(&s, ann, unknown, 0, 20).1, 0);
    let both = ArticleFilter { tag: Some("rust".to_string()), author: Some("ann".to_string()), favorited: Some("bob".to_string()) };
    assert_eq!(titles(&list(&s, ann, both, 0, 20).0), vec!["Third"]);
}

#[test]
fn pagination_defaults_and_clamps() {
    assert_eq!(resolve_pagination(None, None), (0, 20));
    assert_eq!(resolve_pagination(Some(500), Some(5)), (100, 5));
    assert_eq!(resolve_pagination(Some(-3), Some(-1)), (0, 0));
    assert_eq!(resolve_pagination(Some(7), None), (7, 20));
}

#[test]
fn update_and_delete_article() {
    let mut s = store();
    let ann = user(&mut s, "ann");
    let bob = user(&mut s, "bob");
    let tags = Some(vec!["x".to_string()]);
    let a = s.create(ann, "Old Title", "d", "b", &tags, NOW).unwrap();
    let id = a.article.id;
    assert_eq!(s.update_article(bob, id, None, None, None, NOW).unwrap_err(), AppError::Unauthorized);
    let e = s.update_article(ann, id, Some("New Title".to_string()), None, Some("nb".to_string()), NOW + 9).unwrap();
    assert_eq!(e.article.slug, "new-title");
    assert_eq!(e.article.description, "d");
    assert_eq!(e.article.body, "nb");
    assert_eq!(e.article.updated_at, NOW + 9);
    assert_eq!(e.tags.len(), 1);
    s.favorite(bob, id, NOW).unwrap();
    s.create_comment(bob, id, "nice", NOW).unwrap();
    assert_eq!(s.delete_article(bob, id).unwrap_err(), AppError::Unauthorized);
    s.delete_article(ann, id).unwrap();
    assert_eq!(s.fetch_article(ann, id).unwrap_err(), AppError::NotFound);
    assert!(s.tags.is_empty());
    assert!(s.favorites.is_empty());
    assert!(s.comments.is_empty());
    assert_eq!(s.delete_article(ann, id).unwrap_err(), AppError::NotFound);
}

#[test]
fn comments_lifecycle() {
    let mut s = store();
    let ann = user(&mut s, "ann");
    let bob = user(&mut s, "bob");
    let a = s.create(ann, "Post", "d", "b", &None, NOW).unwrap().article.id;
    let (c, p) = s.create_comment(bob, a, "first", NOW).unwrap();
    assert_eq!(c.body, "first");
    assert_eq!(p.username, "bob");
    s.create_comment(ann, a, "second", NOW + 1).unwrap();
    assert_eq!(s.create_comment(ann, a, "", NOW).unwrap_err(), AppError::ValidationError);
    assert_eq!(s.create_comment(ann, 999, "x", NOW).unwrap_err(), AppError::NotFound);
    s.follow(ann, "bob", NOW).unwrap();
    let listed = s.fetch_comments_list(ann, a).unwrap();
    assert_eq!(listed.len(), 2);
    assert_eq!(listed[0].0.body, "first");
    assert!(listed[0].1.following);
    assert!(!listed[1].1.following);
    let rendered = MultipleCommentsResponse::from(&listed);
    assert_eq!(rendered.comments[0].author.username, "bob");
    assert_eq!(rendered.comments[0].created_at, "2023-11-14 22:13:20");
    assert_eq!(s.delete_comment(ann, a, c.id).unwrap_err(), AppError::Unauthorized);
    s.delete_comment(bob, a, c.id).unwrap();
    assert_eq!(s.fetch_comments_list(ann, a).unwrap().len(), 1);
    assert_eq!(s.delete_comment(bob, a, c.id).unwrap_err(), AppError::NotFound);
    assert_eq!(s.fetch_comments_list(ann, 999).unwrap_err(), AppError::NotFound);
}

#[test]
fn distinct_tag_names() {
    let mut s = store();
    let ann = user(&mut s, "ann");
    s.create(ann, "One", "d", "b", &Some(vec!["x".to_string(), "y".to_string()]), NOW).unwrap();
    s.create(ann, "Two", "d", "b", &Some(vec!["y".to_string(), "z".to_string()]), NOW).unwrap();
    assert_eq!(s.list(), vec!["x".to_string(), "y".to_string(), "z".to_string()]);
    assert_eq!(TagsResponse::from_store(&s).tags, vec!["x".to_string(), "y".to_string(), "z".to_string()]);
}

#[test]
fn rendering() {
    assert_eq!(time_string(0), "1970-01-01 00:00:00");
    assert_eq!(time_string(i64::MAX), "");
    let mut s = store();
    let ann = user(&mut s, "ann");
    let e = s.create(ann, "Hello World", "desc", "body", &Some(vec!["t".to_string()]), 86400).unwrap();
    let c = ArticleContent::from(&e);
    assert_eq!(c.slug, "hello-world");
    assert_eq!(c.tag_list, vec!["t".to_string()]);
    assert_eq!(c.created_at, "1970-01-02 00:00:00");
    assert_eq!(c.author.username, "ann");
    let m = MultipleArticlesResponse::from(&vec![e.clone()], 7);
    assert_eq!(m.articles_count, 7);
    assert_eq!(m.articles.len(), 1);
    let err = ErrorResponse::from("Unauthorized");
    assert_eq!(err.errors.body, vec!["Unauthorized".to_string()]);
    let u = s.find_by_id(ann).unwrap();
    let r = UserResponse::from(&u, "tok".to_string());
    assert_eq!(r.user.token, "tok");
    assert_eq!(r.user.username, "ann");
}

#[test]
fn lookups_and_status_codes() {
    let mut s = store();
    let ann = user(&mut s, "ann");
    assert_eq!(s.find_by_id(ann).unwrap().username, "ann");
    assert_eq!(s.find_by_id(5).unwrap_err(), AppError::NotFound);
    assert_eq!(s.find_by_username("ann").unwrap().id, ann);
    assert_eq!(s.find_by_username("x").unwrap_err(), AppError::NotFound);
    assert_eq!(AppError::NotFound.status_code(), 404);
    assert_eq!(AppError::Unauthorized.status_code(), 401);
    assert_eq!(AppError::DuplicateConstraint.status_code(), 409);
    assert_eq!(AppError::ValidationError.status_code(), 422);
    assert_eq!(AppError::StoreUnavailable.status_code(), 503);
}

#[test]
fn favorite_and_unfavorite_return_the_article() {
    let mut s = store();
    let ann = user(&mut s, "ann");
    let bob = user(&mut s, "bob");
    let id = s.create(ann, "Liked", "d", "b", &None, NOW).unwrap().article.id;
    let e = s.favorite_article(bob, id, NOW).unwrap();
    assert!(e.favorite.is_favorited);
    assert_eq!(e.favorite.favorites_count, 1);
    assert_eq!(s.fetch_favorited_article_ids_by_user_id(bob), vec![id]);
    assert_eq!(s.fetch_favorites_count_by_article_id(id), 1);
    let e = s.unfavorite_article(bob, id).unwrap();
    assert!(!e.favorite.is_favorited);
    assert_eq!(e.favorite.favorites_count, 0);
    assert!(s.fetch_favorited_article_ids_by_user_id(bob).is_empty());
    assert_eq!(s.favorite_article(bob, 999, NOW).unwrap_err(), AppError::NotFound);
    assert_eq!(s.unfavorite_article(bob, 999).unwrap_err(), AppError::NotFound);
}

#[test]
fn profile_by_id_and_error_messages() {
    let mut s = store();
    let ann = user(&mut s, "ann");
    let bob = user(&mut s, "bob");
    s.follow(ann, "bob", NOW).unwrap();
    let p = s.fetch_profile_by_id(ann, bob).unwrap();
    assert_eq!(p.username, "bob");
    assert!(p.following);
    assert!(!s.fetch_profile_by_id(bob, ann).unwrap().following);
    assert_eq!(s.fetch_profile_by_id(ann, 77).unwrap_err(), AppError::NotFound);
    assert_eq!(AppError::Unauthorized.message(), "Unauthorized");
    assert_eq!(AppError::NotFound.message(), "not found");
}

#[test]
fn signin_errors_do_not_reveal_accounts() {
    assert_eq!(AppError::NotFound.for_signin(), AppError::InvalidCredentials);
    assert_eq!(AppError::InvalidCredentials.for_signin(), AppError::InvalidCredentials);
    assert_eq!(AppError::StoreUnavailable.for_signin(), AppError::StoreUnavailable);
}

#[test]
fn creation_times_never_decrease_and_order_listings() {
    let mut s = store();
    let ann = user(&mut s, "ann");
    let a = s.create(ann, "Early", "d", "b", &None, NOW + 100).unwrap();
    assert_eq!(a.article.created_at, NOW + 100);
    let b = s.create(ann, "Clock went back", "d", "b", &None, NOW).unwrap();
    assert_eq!(b.article.created_at, NOW + 100);
    let c = s.create(ann, "Late", "d", "b", &None, NOW + 200).unwrap();
    assert_eq!(c.article.created_at, NOW + 200);
    let (page, _) = list(&s, ann, no_filter(), 0, 20);
    assert_eq!(titles(&page), vec!["Late", "Clock went back", "Early"]);
    assert!(page.windows(2).all(|w| w[0].article.created_at >= w[1].article.created_at));
}

#[test]
fn issued_token_decodes_until_expiry() {
    let t = generate(3, NOW, KEY);
    let c = decode(&t, KEY, NOW).unwrap();
    assert_eq!(c, Claims { user_id: 3, iat: NOW, exp: NOW + ONE_DAY });
    assert_eq!(decode(&t, KEY, NOW + ONE_DAY).unwrap(), c);
}

#[test]
fn trim_matches_std_white_space() {
    for s in ["  a b  ", "\t\n x\u{3000}", "\u{a0}\u{2009}", "", "abc", "\u{85}y\u{2028}"] {
        assert_eq!(conduit::auth::trim(s), s.trim());
    }
    assert_eq!(bearer_token("Bearer\u{3000}abc\t"), Some("abc"));
}
