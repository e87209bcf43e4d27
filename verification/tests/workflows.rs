use shortlink::codes::generate_short_code;
use shortlink::index;
use shortlink::service::delete_link;
use shortlink::service::delete_outcome;
use shortlink::service::get_link;
use shortlink::service::normalize_url;
use shortlink::service::redirect_target;
use shortlink::service::resolve_unique_code;
use shortlink::service::shorten_link;
use shortlink::service::shorten_with_code;
use shortlink::service::ServiceError;
use shortlink::store::MappingStore;
use shortlink::users::Credential;
use shortlink::users::UserStore;

fn store_with_admin() -> (MappingStore, UserStore) {
    let mut users = UserStore::new();
    users.add_user(Credential {
        username: String::from("admin"),
        password: String::from("secret"),
    });
    (MappingStore::new(), users)
}

#[test]
fn index_greets() {
    assert_eq!(index(), "Hello, world! :D");
}

#[test]
fn generated_code_is_six_alphanumerics() {
    for _ in 0..50 {
        let code = generate_short_code();
        assert_eq!(code.chars().count(), 6);
        assert!(code.chars().all(|c| c.is_ascii_alphanumeric()));
    }
}

#[test]
fn normalize_strips_one_scheme() {
    assert_eq!(normalize_url("http://example.com/page"), "example.com/page");
    assert_eq!(normalize_url("https://example.com/page"), "example.com/page");
    assert_eq!(normalize_url("example.com/page"), "example.com/page");
}

#[test]
fn normalize_checks_both_prefixes_in_order() {
    assert_eq!(normalize_url("http://https://x"), "x");
    assert_eq!(normalize_url("https://http://x"), "http://x");
    assert_eq!(normalize_url("https://https://x"), "https://x");
}

#[test]
fn redirect_target_enforces_https() {
    assert_eq!(redirect_target("example.com/page"), "https://example.com/page");
}

#[test]
fn shorten_stores_normalized_url() {
    let mut store = MappingStore::new();
    let code = shorten_link(&mut store, "http://example.com/page").unwrap();
    let mapping = store.find_by_code(&code).unwrap();
    assert_eq!(mapping.original_url, "example.com/page");
    assert_eq!(mapping.short_code, code);
    assert_eq!(
        get_link(&store, &code),
        Some(String::from("https://example.com/page"))
    );
}

#[test]
fn shorten_twice_reuses_the_code() {
    let mut store = MappingStore::new();
    let first = shorten_link(&mut store, "https://rust-lang.org/learn").unwrap();
    let second = shorten_link(&mut store, "https://rust-lang.org/learn").unwrap();
    assert_eq!(first, second);
    assert_eq!(store.len(), 1);
}

#[test]
fn scheme_variants_share_one_mapping() {
    let mut store = MappingStore::new();
    let first = shorten_link(&mut store, "https://a.com").unwrap();
    let second = shorten_link(&mut store, "http://a.com").unwrap();
    assert_eq!(first, second);
    assert_eq!(store.len(), 1);
    let mapping = store.find_by_url("a.com").unwrap();
    assert_eq!(mapping.short_code, first);
}

#[test]
fn empty_url_is_rejected() {
    let mut store = MappingStore::new();
    assert_eq!(shorten_link(&mut store, ""), Err(ServiceError::ValidationError));
    assert_eq!(store.len(), 0);
}

#[test]
fn bare_scheme_is_rejected() {
    let mut store = MappingStore::new();
    assert_eq!(shorten_link(&mut store, "http://"), Err(ServiceError::ValidationError));
    assert_eq!(store.len(), 0);
}

#[test]
fn resolver_avoids_codes_in_the_store() {
    let mut store = MappingStore::new();
    let r = shorten_with_code(&mut store, "one.example", "abc123");
    assert_eq!(r, Ok(String::from("abc123")));
    for _ in 0..20 {
        let fresh = resolve_unique_code(&store).unwrap();
        assert_ne!(fresh, "abc123");
        assert!(store.find_by_code(&fresh).is_none());
    }
}

#[test]
fn shorten_with_code_reports_dedup() {
    let mut store = MappingStore::new();
    assert_eq!(
        shorten_with_code(&mut store, "http://a.com", "abc123"),
        Ok(String::from("abc123"))
    );
    assert_eq!(
        shorten_with_code(&mut store, "https://a.com", "zzz999"),
        Ok(String::from("abc123"))
    );
    assert_eq!(store.len(), 1);
}

#[test]
fn resolving_an_unknown_code_is_not_found() {
    let store = MappingStore::new();
    assert_eq!(get_link(&store, "nosuch"), None);
}

#[test]
fn delete_with_wrong_password_is_auth_error() {
    let (mut store, users) = store_with_admin();
    let code = shorten_link(&mut store, "https://a.com").unwrap();
    let r = delete_link(&mut store, &users, &code, "admin", "wrong");
    assert_eq!(r, Err(ServiceError::AuthError));
    assert_eq!(
        get_link(&store, &code),
        Some(String::from("https://a.com"))
    );
}

#[test]
fn delete_with_unknown_user_is_auth_error() {
    let (mut store, users) = store_with_admin();
    let code = shorten_link(&mut store, "https://a.com").unwrap();
    let r = delete_link(&mut store, &users, &code, "intruder", "secret");
    assert_eq!(r, Err(ServiceError::AuthError));
    assert_eq!(store.len(), 1);
}

#[test]
fn delete_of_a_missing_code_is_not_found() {
    let (mut store, users) = store_with_admin();
    let r = delete_link(&mut store, &users, "zzzzzz", "admin", "secret");
    assert_eq!(r, Err(ServiceError::NotFoundError));
}

#[test]
fn delete_with_correct_credentials_removes_the_mapping() {
    let (mut store, users) = store_with_admin();
    let code = shorten_link(&mut store, "https://a.com").unwrap();
    let r = delete_link(&mut store, &users, &code, "admin", "secret");
    assert_eq!(r, Ok(()));
    assert_eq!(get_link(&store, &code), None);
    assert_eq!(store.len(), 0);
}

#[test]
fn delete_outcome_distinguishes_zero_rows() {
    assert_eq!(delete_outcome(0), Err(ServiceError::NotFoundError));
    assert_eq!(delete_outcome(1), Ok(()));
}

#[test]
fn deleted_count_tells_missing_from_deleted() {
    let mut store = MappingStore::new();
    shorten_with_code(&mut store, "a.com", "abc123").unwrap();
    assert_eq!(store.delete_by_code("zzzzzz"), 0);
    assert_eq!(store.delete_by_code("abc123"), 1);
    assert_eq!(store.delete_by_code("abc123"), 0);
}
