use rust_labs::post::{Author, Body, New, Post, Title, UtcMillis};

#[test]
fn valid_transitions_compile() {
    let p = Post::<New>::new(
        Title("Hello".into()),
        Body("World".into()),
        Author("Alice".into()),
        UtcMillis(1),
    );
    let p = p.publish(UtcMillis(2));
    let _p = p.allow(UtcMillis(3));
}

#[test]
fn unmoderated_deny_to_deleted() {
    let p = Post::<New>::new(
        Title("T".into()),
        Body("B".into()),
        Author("A".into()),
        UtcMillis(1),
    );
    let p = p.publish(UtcMillis(2));
    let _d = p.deny(UtcMillis(3));
}

#[test]
fn new_post_has_equal_creation_and_update_times() {
    let p = Post::<New>::new(
        Title("Hello".into()),
        Body("World".into()),
        Author("Alice".into()),
        UtcMillis(42),
    );
    assert_eq!(p.created_at, UtcMillis(42));
    assert_eq!(p.updated_at, UtcMillis(42));
    assert_eq!(p.title, Title("Hello".into()));
    assert_eq!(p.body, Body("World".into()));
    assert_eq!(p.author, Author("Alice".into()));
}

#[test]
fn full_lifecycle_keeps_content_and_stamps_updates() {
    let p = Post::<New>::new(
        Title("Hello".into()),
        Body("World".into()),
        Author("Alice".into()),
        UtcMillis(1),
    );
    let p = p.publish(UtcMillis(2));
    assert_eq!(p.updated_at, UtcMillis(2));
    let p = p.allow(UtcMillis(3));
    assert_eq!(p.updated_at, UtcMillis(3));
    let d = p.delete(UtcMillis(7));
    assert_eq!(d.created_at, UtcMillis(1));
    assert_eq!(d.updated_at, UtcMillis(7));
    assert_eq!(d.title, Title("Hello".into()));
    assert_eq!(d.body, Body("World".into()));
    assert_eq!(d.author, Author("Alice".into()));
}

#[test]
fn clone_keeps_every_field() {
    let p = Post::<New>::new(Title("t".into()), Body("b".into()), Author("a".into()), UtcMillis(5))
        .publish(UtcMillis(6));
    let q = p.clone();
    assert_eq!(q.title, p.title);
    assert_eq!(q.body, p.body);
    assert_eq!(q.author, p.author);
    assert_eq!(q.created_at, UtcMillis(5));
    assert_eq!(q.updated_at, UtcMillis(6));
}
