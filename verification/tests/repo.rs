use rusty_trace::id_source::IdSource;
use rusty_trace::repo::{Id, VecRepo};

#[test]
fn dense_new_holds_only_default() {
    let repo: VecRepo<u8> = VecRepo::new(7);
    assert_eq!(repo.len(), 1);
    assert_eq!(*repo.get_default(), 7);
    assert_eq!(*repo.get(Id::default()), 7);
}

#[test]
fn dense_insert_returns_consecutive_ids() {
    let mut repo: VecRepo<u8> = VecRepo::new(7);
    let a = repo.insert(9);
    let b = repo.insert(10);
    assert_eq!(a.id, 1);
    assert_eq!(b.id, 2);
    assert_eq!(*repo.get(a), 9);
    assert_eq!(*repo.get(b), 10);
    assert_eq!(repo.len(), 3);
}

#[test]
fn dense_absent_id_resolves_to_default() {
    let mut repo: VecRepo<u8> = VecRepo::new(7);
    repo.insert(9);
    assert_eq!(*repo.get(Id::from(5u32)), *repo.get(Id::default()));
    assert_eq!(*repo.get(Id::from(2u32)), 7);
    assert_eq!(*repo.get(Id::from(u32::MAX)), 7);
    assert_eq!(*repo.get_default(), 7);
}

#[test]
fn dense_iter_pairs_ids_with_entries() {
    let mut repo: VecRepo<&str> = VecRepo::new("grey");
    repo.insert("red");
    repo.insert("green");
    let seen: Vec<(u32, &str)> = repo.iter().into_iter().map(|(id, v)| (id.id, *v)).collect();
    assert_eq!(seen, vec![(0, "grey"), (1, "red"), (2, "green")]);
}

#[test]
fn dense_iter_mut_writes_through() {
    let mut repo: VecRepo<u8> = VecRepo::new(1);
    repo.insert(2);
    repo.insert(3);
    for (id, entry) in repo.iter_mut() {
        *entry += 10 * (id.id as u8 + 1);
    }
    let seen: Vec<(u32, u8)> = repo.iter().into_iter().map(|(id, v)| (id.id, *v)).collect();
    assert_eq!(seen, vec![(0, 11), (1, 22), (2, 33)]);
}

#[test]
fn dense_from_vec_needs_a_default() {
    assert!(VecRepo::<u8>::from_vec(Vec::new()).is_none());
    let repo = VecRepo::from_vec(vec![4u8, 5, 6]).unwrap();
    assert_eq!(*repo.get_default(), 4);
    assert_eq!(*repo.get(Id::from(2u32)), 6);
    assert_eq!(*repo.get(Id::from(3u32)), 4);
    assert_eq!(repo.into_vec(), vec![4u8, 5, 6]);
}

#[test]
fn dense_default_repo_holds_default_value() {
    let repo: VecRepo<u32> = VecRepo::default();
    assert_eq!(repo.len(), 1);
    assert_eq!(*repo.get_default(), 0);
}

#[test]
fn dense_id_equality_is_by_number() {
    let a: Id<u8> = Id::from(3u32);
    let b: Id<u8> = Id::from(3u32);
    let c: Id<u8> = Id::from(4u32);
    assert!(a == b);
    assert!(a != c);
    assert!(Id::<u8>::default() == Id::from(0u32));
    let copy = a;
    assert!(copy.clone() == a);
}

#[test]
fn id_source_starts_at_one() {
    let mut source = IdSource::new();
    let a: Id<u8> = Id::new(&mut source);
    let b: Id<u8> = Id::new(&mut source);
    assert_eq!(a.id, 1);
    assert_eq!(b.id, 2);
    assert!(!source.is_exhausted());
}

#[test]
fn id_source_draws_increase() {
    let mut source = IdSource::default();
    let mut last = 0;
    for _ in 0..1000 {
        let id = source.draw();
        assert!(id > last);
        last = id;
    }
    assert_eq!(last, 1000);
}
