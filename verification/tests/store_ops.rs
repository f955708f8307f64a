use blog::post::{validate_create, validate_edit, BlogError, PostError};
use blog::store::RecordStore;

fn program_id() -> [u8; 32] {
    [7u8; 32]
}

fn identity(b: u8) -> [u8; 32] {
    [b; 32]
}

#[test]
fn derive_is_deterministic() {
    let store = RecordStore::new(program_id());
    let owner = identity(1);
    let first = store.derive_post_address(&owner, "s1");
    let second = store.derive_post_address(&owner, "s1");
    assert!(first.is_some());
    assert_eq!(first, second);
}

#[test]
fn derive_depends_on_inputs() {
    let store = RecordStore::new(program_id());
    let owner = identity(1);
    let other = identity(2);
    let a = store.derive_post_address(&owner, "s1").unwrap();
    let b = store.derive_post_address(&owner, "s2").unwrap();
    let c = store.derive_post_address(&other, "s1").unwrap();
    assert_ne!(a.0, b.0);
    assert_ne!(a.0, c.0);
    assert_ne!(a.0, owner);
}

#[test]
fn create_title_at_51_fails_at_50_succeeds() {
    let mut store = RecordStore::new(program_id());
    let owner = identity(1);
    let long = "a".repeat(51);
    let r = store.create_post(&owner, long, String::from("body"), "s1", 10);
    assert_eq!(r, Err(PostError::Blog(BlogError::TitleTooLong)));
    let exact = "a".repeat(50);
    let r = store.create_post(&owner, exact, String::from("body"), "s1", 10);
    assert_eq!(r, Ok(()));
}

#[test]
fn title_measured_in_characters_not_bytes() {
    let mut store = RecordStore::new(program_id());
    let owner = identity(1);
    // 50 two-byte characters: 100 bytes, but exactly 50 scalar characters.
    let title = "\u{e9}".repeat(50);
    assert_eq!(title.len(), 100);
    let r = store.create_post(&owner, title, String::from("body"), "s1", 10);
    assert_eq!(r, Ok(()));
}

#[test]
fn create_content_at_501_fails_at_500_succeeds() {
    let mut store = RecordStore::new(program_id());
    let owner = identity(1);
    let long = "b".repeat(501);
    let r = store.create_post(&owner, String::from("t"), long, "s1", 10);
    assert_eq!(r, Err(PostError::Blog(BlogError::ContentTooLong)));
    let exact = "b".repeat(500);
    let r = store.create_post(&owner, String::from("t"), exact, "s1", 10);
    assert_eq!(r, Ok(()));
}

#[test]
fn create_slug_empty_or_over_32_bytes_fails() {
    let mut store = RecordStore::new(program_id());
    let owner = identity(1);
    let r = store.create_post(&owner, String::from("t"), String::from("b"), "", 10);
    assert_eq!(r, Err(PostError::Blog(BlogError::SlugInvalid)));
    let thirty_three = "c".repeat(33);
    let r = store.create_post(&owner, String::from("t"), String::from("b"), &thirty_three, 10);
    assert_eq!(r, Err(PostError::Blog(BlogError::SlugInvalid)));
    let thirty_two = "c".repeat(32);
    let r = store.create_post(&owner, String::from("t"), String::from("b"), &thirty_two, 10);
    assert_eq!(r, Ok(()));
}

#[test]
fn slug_measured_in_bytes_not_characters() {
    let mut store = RecordStore::new(program_id());
    let owner = identity(1);
    // 17 two-byte characters: only 17 scalar characters, but 34 bytes.
    let slug = "\u{e9}".repeat(17);
    let r = store.create_post(&owner, String::from("t"), String::from("b"), &slug, 10);
    assert_eq!(r, Err(PostError::Blog(BlogError::SlugInvalid)));
}

#[test]
fn create_twice_same_owner_and_slug_is_occupied() {
    let mut store = RecordStore::new(program_id());
    let owner = identity(1);
    let r = store.create_post(&owner, String::from("t"), String::from("b"), "s1", 10);
    assert_eq!(r, Ok(()));
    let r = store.create_post(&owner, String::from("t2"), String::from("b2"), "s1", 11);
    assert_eq!(r, Err(PostError::AddressOccupied));
}

#[test]
fn stored_bump_matches_derivation() {
    let mut store = RecordStore::new(program_id());
    let owner = identity(1);
    store
        .create_post(&owner, String::from("t"), String::from("b"), "s1", 10)
        .unwrap();
    let (addr, bump) = store.derive_post_address(&owner, "s1").unwrap();
    let post = store.get_post(&addr).unwrap();
    assert_eq!(post.bump, bump);
    assert_eq!(post.author, owner);
    assert_eq!(post.timestamp, 10);
}

#[test]
fn edit_by_non_owner_fails_and_changes_nothing() {
    let mut store = RecordStore::new(program_id());
    let owner = identity(1);
    let intruder = identity(2);
    store
        .create_post(&owner, String::from("t"), String::from("b"), "s1", 10)
        .unwrap();
    let (addr, _) = store.derive_post_address(&owner, "s1").unwrap();
    let r = store.edit_post(&addr, &intruder, String::from("x"), String::from("y"));
    assert_eq!(r, Err(PostError::Blog(BlogError::Unauthorized)));
    let post = store.get_post(&addr).unwrap();
    assert_eq!(post.title, "t");
    assert_eq!(post.content, "b");
    assert_eq!(post.author, owner);
}

#[test]
fn edit_by_owner_updates_text_only() {
    let mut store = RecordStore::new(program_id());
    let owner = identity(1);
    store
        .create_post(&owner, String::from("t"), String::from("b"), "s1", 10)
        .unwrap();
    let (addr, bump) = store.derive_post_address(&owner, "s1").unwrap();
    let r = store.edit_post(&addr, &owner, String::from("t2"), String::from("b2"));
    assert_eq!(r, Ok(()));
    let post = store.get_post(&addr).unwrap();
    assert_eq!(post.title, "t2");
    assert_eq!(post.content, "b2");
    assert_eq!(post.author, owner);
    assert_eq!(post.timestamp, 10);
    assert_eq!(post.bump, bump);
}

#[test]
fn edit_length_limits_still_hold() {
    let mut store = RecordStore::new(program_id());
    let owner = identity(1);
    store
        .create_post(&owner, String::from("t"), String::from("b"), "s1", 10)
        .unwrap();
    let (addr, _) = store.derive_post_address(&owner, "s1").unwrap();
    let r = store.edit_post(&addr, &owner, "a".repeat(51), String::from("b"));
    assert_eq!(r, Err(PostError::Blog(BlogError::TitleTooLong)));
    let r = store.edit_post(&addr, &owner, String::from("t"), "b".repeat(501));
    assert_eq!(r, Err(PostError::Blog(BlogError::ContentTooLong)));
    let post = store.get_post(&addr).unwrap();
    assert_eq!(post.title, "t");
    assert_eq!(post.content, "b");
}

#[test]
fn edit_absent_record_is_not_found() {
    let mut store = RecordStore::new(program_id());
    let owner = identity(1);
    let addr = [9u8; 32];
    let r = store.edit_post(&addr, &owner, String::from("t"), String::from("b"));
    assert_eq!(r, Err(PostError::AccountNotFound));
}

#[test]
fn delete_by_non_owner_fails_by_owner_frees_the_address() {
    let mut store = RecordStore::new(program_id());
    let owner = identity(1);
    let intruder = identity(2);
    store
        .create_post(&owner, String::from("t"), String::from("b"), "s1", 10)
        .unwrap();
    let (addr, _) = store.derive_post_address(&owner, "s1").unwrap();
    let r = store.delete_post(&addr, &intruder);
    assert_eq!(r, Err(PostError::Blog(BlogError::Unauthorized)));
    assert!(store.get_post(&addr).is_some());
    let r = store.delete_post(&addr, &owner);
    assert_eq!(r, Ok(()));
    assert!(store.get_post(&addr).is_none());
    // The same (owner, slug) pair can be created again, with a fresh time.
    let r = store.create_post(&owner, String::from("t3"), String::from("b3"), "s1", 99);
    assert_eq!(r, Ok(()));
    let post = store.get_post(&addr).unwrap();
    assert_eq!(post.timestamp, 99);
}

#[test]
fn delete_absent_record_is_not_found() {
    let mut store = RecordStore::new(program_id());
    let owner = identity(1);
    let addr = [9u8; 32];
    let r = store.delete_post(&addr, &owner);
    assert_eq!(r, Err(PostError::AccountNotFound));
}

#[test]
fn validate_create_reports_the_first_broken_rule() {
    let r = validate_create(&"a".repeat(51), &"b".repeat(501), "");
    assert_eq!(r, Err(BlogError::TitleTooLong));
    let r = validate_create("t", &"b".repeat(501), "");
    assert_eq!(r, Err(BlogError::ContentTooLong));
    let r = validate_create("t", "b", "");
    assert_eq!(r, Err(BlogError::SlugInvalid));
    assert_eq!(validate_create("t", "b", "s"), Ok(()));
}

#[test]
fn validate_edit_checks_title_then_content() {
    let r = validate_edit(&"a".repeat(51), &"b".repeat(501));
    assert_eq!(r, Err(BlogError::TitleTooLong));
    let r = validate_edit("t", &"b".repeat(501));
    assert_eq!(r, Err(BlogError::ContentTooLong));
    assert_eq!(validate_edit("t", "b"), Ok(()));
}

#[test]
fn create_edit_delete_end_to_end() {
    let mut store = RecordStore::new(program_id());
    let a = identity(1);
    let r = store.create_post(&a, String::from("Hi"), String::from("World"), "s1", 10);
    assert_eq!(r, Ok(()));
    let (addr, _) = store.derive_post_address(&a, "s1").unwrap();
    let r = store.edit_post(&addr, &a, String::from("Hi2"), String::from("World2"));
    assert_eq!(r, Ok(()));
    assert_eq!(store.get_post(&addr).unwrap().title, "Hi2");
    let r = store.delete_post(&addr, &a);
    assert_eq!(r, Ok(()));
    let r = store.edit_post(&addr, &a, String::from("Hi3"), String::from("World3"));
    assert_eq!(r, Err(PostError::AccountNotFound));
    let r = store.delete_post(&addr, &a);
    assert_eq!(r, Err(PostError::AccountNotFound));
}
