use rust_labs::storage::{HashMapStorage, Storage};
use rust_labs::users::{User, UserRepositoryDynamic, UserRepositoryStatic};
use std::borrow::Cow;
use std::cell::Cell;
use std::rc::Rc;

fn mk_user(id: u64, email: &'static str, activated: bool) -> User {
    User {
        id,
        email: Cow::Borrowed(email),
        activated,
    }
}

#[test]
fn static_repo_add_get_update_remove() {
    let mut repo = UserRepositoryStatic::new(HashMapStorage::<u64, User>::new());

    assert!(repo.add(mk_user(1, "a@ex", false)));
    assert!(!repo.add(mk_user(1, "dup@ex", true)));

    let u = repo.get(1).expect("user should exist");
    assert_eq!(u.email, "a@ex");
    assert!(!u.activated);

    assert!(repo.update(mk_user(1, "new@ex", true)));
    let u = repo.get(1).unwrap();
    assert_eq!(u.email, "new@ex");
    assert!(u.activated);

    assert!(!repo.update(mk_user(2, "nope@ex", false)));

    let removed = repo.remove(1).expect("remove should return user");
    assert_eq!(removed.email, "new@ex");
    assert!(repo.get(1).is_none());
}

#[test]
fn dynamic_repo_add_get_update_remove() {
    let storage: Box<dyn Storage<u64, User>> = Box::new(HashMapStorage::<u64, User>::new());
    let mut repo = UserRepositoryDynamic::new(storage);

    assert!(repo.add(mk_user(42, "x@ex", true)));
    assert!(repo.get(42).is_some());

    assert!(repo.update(mk_user(42, "y@ex", false)));
    assert_eq!(repo.get(42).unwrap().email, "y@ex");
    assert!(!repo.get(42).unwrap().activated);

    let removed = repo.remove(42).unwrap();
    assert_eq!(removed.id, 42);
    assert!(repo.get(42).is_none());
}

struct TracingStorage {
    inner: HashMapStorage<u64, User>,
    sets: usize,
    removes: usize,
}

impl Default for TracingStorage {
    fn default() -> Self {
        Self {
            inner: HashMapStorage::new(),
            sets: 0,
            removes: 0,
        }
    }
}

impl Storage<u64, User> for TracingStorage {
    fn set(&mut self, key: u64, val: User) {
        self.sets += 1;
        self.inner.set(key, val);
    }
    fn get(&self, key: &u64) -> Option<&User> {
        self.inner.get(key)
    }
    fn remove(&mut self, key: &u64) -> Option<User> {
        self.removes += 1;
        self.inner.remove(key)
    }
}

struct TracingStorageWithGetCount(TracingStorage, Rc<Cell<usize>>);

impl Storage<u64, User> for TracingStorageWithGetCount {
    fn set(&mut self, key: u64, val: User) {
        self.0.set(key, val);
    }
    fn get(&self, key: &u64) -> Option<&User> {
        self.1.set(self.1.get() + 1);
        self.0.get(key)
    }
    fn remove(&mut self, key: &u64) -> Option<User> {
        self.0.remove(key)
    }
}

#[test]
fn static_repo_is_injectable_with_custom_storage() {
    let tracing = TracingStorage::default();
    let mut repo = UserRepositoryStatic::new(tracing);

    assert!(repo.add(mk_user(7, "t@ex", true)));
    assert!(repo.update(mk_user(7, "t2@ex", true)));
    let _ = repo.remove(7);

    let TracingStorage { sets, removes, .. } = repo.storage;
    assert_eq!(sets, 2, "one add + one update");
    assert_eq!(removes, 1, "one remove");
}

#[test]
fn dynamic_repo_is_injectable_with_custom_storage() {
    let gets_count = Rc::new(Cell::new(0usize));
    let storage: Box<dyn Storage<u64, User>> = Box::new(TracingStorageWithGetCount(
        TracingStorage::default(),
        gets_count.clone(),
    ));
    let mut repo = UserRepositoryDynamic::new(storage);

    assert!(repo.add(mk_user(9, "g@ex", false)));
    let _ = repo.get(9);
    let _ = repo.remove(9);

    let gets = gets_count.get();
    assert_eq!(gets, 2, "one pre-insert existence check + one explicit get");
}

#[test]
fn removing_a_missing_user_gives_none_and_keeps_others() {
    let mut repo = UserRepositoryStatic::new(HashMapStorage::<u64, User>::new());
    assert!(repo.add(mk_user(1, "a@ex", true)));
    assert!(repo.add(mk_user(2, "b@ex", false)));
    assert!(repo.remove(3).is_none());
    assert!(repo.remove(1).is_some());
    assert!(repo.remove(1).is_none());
    assert_eq!(repo.get(2).unwrap().email, "b@ex");
}

#[test]
fn add_after_remove_is_accepted_again() {
    let storage: Box<dyn Storage<u64, User>> = Box::new(HashMapStorage::<u64, User>::new());
    let mut repo = UserRepositoryDynamic::new(storage);
    assert!(repo.add(mk_user(5, "one@ex", true)));
    assert!(!repo.add(mk_user(5, "two@ex", true)));
    assert_eq!(repo.remove(5).unwrap().email, "one@ex");
    assert!(repo.add(mk_user(5, "two@ex", false)));
    assert_eq!(repo.get(5).unwrap().email, "two@ex");
}

#[test]
fn user_clone_is_equal() {
    let u = User {
        id: 3,
        email: Cow::Owned(String::from("o@ex")),
        activated: true,
    };
    assert_eq!(u.clone(), u);
    let v = mk_user(4, "b@ex", false);
    assert_eq!(v.clone(), v);
}

#[test]
fn hash_map_storage_set_get_remove() {
    let mut s = HashMapStorage::<u64, User>::new();
    assert!(s.get(&1).is_none());
    s.set(1, mk_user(1, "a@ex", true));
    s.set(1, mk_user(1, "b@ex", true));
    assert_eq!(s.get(&1).unwrap().email, "b@ex");
    assert_eq!(s.remove(&1).unwrap().email, "b@ex");
    assert!(s.remove(&1).is_none());
}
