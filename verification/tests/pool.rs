use spec_assets::error::SpecError;
use spec_assets::name_index::{find_name, NameIndex};
use spec_assets::named_handle::{Handle, NamedHandle, Record, RefField};
use spec_assets::pool::{GetNamedTrait, Pool};
use spec_assets::populate::{populate_all, populate_handles, PopulateHandles};

fn plain(name: &str, data: u32) -> Record<u32> {
    Record::new(name.to_string(), data, Vec::new())
}

fn referring(name: &str, field: &str, to: &str, target: usize) -> Record<u32> {
    Record::new(
        name.to_string(),
        0,
        vec![RefField::single(field.to_string(), to.to_string(), target)],
    )
}

#[test]
fn insert_hands_out_slots_in_order() {
    let mut pool: Pool<u32> = Pool::new(3);
    assert_eq!(pool.len(), 0);
    assert_eq!(pool.insert(plain("a", 1)), Handle { pool: 3, slot: 0 });
    assert_eq!(pool.insert(plain("b", 2)), Handle { pool: 3, slot: 1 });
    assert_eq!(pool.len(), 2);
    assert_eq!(pool.id, 3);
    assert_eq!(pool.names(), vec!["a".to_string(), "b".to_string()]);
}

#[test]
fn get_finds_the_record_of_a_handle_of_this_pool() {
    let mut pool: Pool<u32> = Pool::new(0);
    let a = pool.insert(plain("a", 1));
    let b = pool.insert(plain("b", 2));
    assert_eq!(pool.get(a).unwrap().data, 1);
    assert_eq!(pool.get(b).unwrap().data, 2);
    assert!(pool.get(Handle { pool: 0, slot: 2 }).is_none());
}

#[test]
fn handle_of_another_pool_leads_nowhere() {
    let mut guns: Pool<u32> = Pool::new(0);
    let mut bullets: Pool<u32> = Pool::new(1);
    let pistol = guns.insert(plain("pistol", 1));
    let basic = bullets.insert(plain("basic", 2));
    assert!(guns.get(basic).is_none());
    assert!(bullets.get(pistol).is_none());
    assert_eq!(guns.get(pistol).unwrap().name, "pistol");
}

#[test]
fn get_by_name_finds_the_first_record_of_the_name() {
    let mut pool: Pool<u32> = Pool::new(2);
    pool.insert(plain("a", 1));
    pool.insert(plain("b", 2));
    pool.insert(plain("a", 3));
    assert_eq!(pool.get_by_name("a"), Some(Handle { pool: 2, slot: 0 }));
    assert_eq!(pool.get_by_name("b"), Some(Handle { pool: 2, slot: 1 }));
    assert_eq!(pool.get_by_name("c"), None);
    assert_eq!(pool.get_by_name("A"), None);
    assert_eq!(pool.get_by_name(""), None);
    assert_eq!(pool.get_by_name("a "), None);
}

#[test]
fn get_named_follows_a_resolved_reference() {
    let mut pool: Pool<u32> = Pool::new(1);
    let basic = pool.insert(plain("basic", 10));
    let mut reference = NamedHandle::new("basic".to_string(), 1);
    assert_eq!(reference.maybe_handle, None);
    assert_eq!(reference.target, 1);
    assert!(pool.get_named(&reference).is_none());
    reference.maybe_handle = Some(basic);
    assert_eq!(reference.get_handle(), basic);
    assert_eq!(pool.get_named(&reference).unwrap().data, 10);
    assert_eq!(pool.get_named_expect(&reference).data, 10);
    reference.maybe_handle = Some(Handle { pool: 0, slot: 0 });
    assert!(pool.get_named(&reference).is_none());
}

#[test]
fn find_name_is_exact() {
    let names = vec!["basic".to_string(), "Basic".to_string(), "basic".to_string()];
    assert_eq!(find_name(&names, &"basic".to_string()), Some(0));
    assert_eq!(find_name(&names, &"Basic".to_string()), Some(1));
    assert_eq!(find_name(&names, &"BASIC".to_string()), None);
    assert_eq!(find_name(&Vec::new(), &"basic".to_string()), None);
}

#[test]
fn load_looks_a_reference_up_without_resolving_it() {
    let mut guns: Pool<u32> = Pool::new(0);
    let mut bullets: Pool<u32> = Pool::new(1);
    guns.insert(plain("pistol", 1));
    bullets.insert(plain("heavy", 2));
    bullets.insert(plain("basic", 3));
    let index = NameIndex::build(&vec![guns, bullets]);
    assert_eq!(
        index.names,
        vec![vec!["pistol".to_string()], vec!["heavy".to_string(), "basic".to_string()]]
    );
    let reference = NamedHandle::new("basic".to_string(), 1);
    assert_eq!(reference.load(&index), Some(Handle { pool: 1, slot: 1 }));
    assert_eq!(reference.maybe_handle, None);
    assert_eq!(NamedHandle::new("basic".to_string(), 0).load(&index), None);
    assert_eq!(NamedHandle::new("basic".to_string(), 2).load(&index), None);
    assert_eq!(index.lookup(0, &"pistol".to_string()), Some(Handle { pool: 0, slot: 0 }));
}

#[test]
fn list_field_keeps_the_order_of_its_names() {
    let field = RefField::list(
        "magazine".to_string(),
        vec!["a".to_string(), "b".to_string()],
        4,
    );
    assert_eq!(field.field, "magazine");
    assert_eq!(field.handles.len(), 2);
    assert_eq!(field.handles[0], NamedHandle::new("a".to_string(), 4));
    assert_eq!(field.handles[1], NamedHandle::new("b".to_string(), 4));
    assert!(field.is_unresolved());
    let empty = RefField::list("none".to_string(), Vec::new(), 4);
    assert!(empty.handles.is_empty());
    assert!(empty.is_unresolved());
}

#[test]
fn populate_handles_resolves_hits_and_reports_misses() {
    let mut guns: Pool<u32> = Pool::new(0);
    let mut bullets: Pool<u32> = Pool::new(1);
    bullets.insert(plain("basic", 10));
    guns.insert(referring("pistol", "bullet", "basic", 1));
    guns.insert(referring("rifle", "bullet", "heavy", 1));
    let pools = vec![guns, bullets];
    let index = NameIndex::build(&pools);
    let mut pools = pools;
    let result = populate_handles(&mut pools[0], &index);
    assert_eq!(
        result,
        Err(vec![SpecError::UnresolvedName {
            owning_type: 0,
            field: "bullet".to_string(),
            name: "heavy".to_string(),
        }])
    );
    assert_eq!(
        pools[0].records[0].fields[0].handles[0].maybe_handle,
        Some(Handle { pool: 1, slot: 0 })
    );
    assert_eq!(pools[0].records[1].fields[0].handles[0].maybe_handle, None);
    assert_eq!(pools[0].records[0].name, "pistol");
    assert_eq!(pools[0].records[1].name, "rifle");
    assert_eq!(populate_handles(&mut pools[1], &index), Ok(()));
}

#[test]
fn duplicate_names_reported_unrelated_type_unaffected() {
    let mut guns: Pool<u32> = Pool::new(0);
    let mut bullets: Pool<u32> = Pool::new(1);
    let mut scopes: Pool<u32> = Pool::new(2);
    bullets.insert(plain("basic", 10));
    bullets.insert(plain("basic", 20));
    scopes.insert(plain("red dot", 1));
    guns.insert(referring("pistol", "scope", "red dot", 2));
    let mut pools = vec![guns, bullets, scopes];
    let index = NameIndex::build(&pools);
    assert_eq!(
        populate_handles(&mut pools[1], &index),
        Err(vec![SpecError::DuplicateName { spec_type: 1, name: "basic".to_string() }])
    );
    assert_eq!(populate_handles(&mut pools[0], &index), Ok(()));
    assert_eq!(
        pools[0].records[0].fields[0].handles[0].maybe_handle,
        Some(Handle { pool: 2, slot: 0 })
    );
    assert_eq!(populate_handles(&mut pools[2], &index), Ok(()));
}

#[test]
fn every_repeat_of_a_name_is_reported_once() {
    let mut pool: Pool<u32> = Pool::new(0);
    for name in ["a", "b", "a", "a", "b", "c"] {
        pool.insert(plain(name, 0));
    }
    let mut pools = vec![pool];
    let errors = populate_all(&mut pools);
    assert_eq!(
        errors,
        vec![
            SpecError::DuplicateName { spec_type: 0, name: "a".to_string() },
            SpecError::DuplicateName { spec_type: 0, name: "a".to_string() },
            SpecError::DuplicateName { spec_type: 0, name: "b".to_string() },
        ]
    );
}

#[test]
fn populate_all_resolves_across_and_within_pools() {
    let mut guns: Pool<u32> = Pool::new(0);
    let mut bullets: Pool<u32> = Pool::new(1);
    guns.insert(referring("pistol", "bullet", "basic", 1));
    guns.insert(referring("rifle", "sidearm", "pistol", 0));
    bullets.insert(referring("basic", "fits", "rifle", 0));
    let mut pools = vec![guns, bullets];
    assert_eq!(populate_all(&mut pools), Vec::new());
    assert_eq!(
        pools[0].records[0].fields[0].handles[0].maybe_handle,
        Some(Handle { pool: 1, slot: 0 })
    );
    assert_eq!(
        pools[0].records[1].fields[0].handles[0].maybe_handle,
        Some(Handle { pool: 0, slot: 0 })
    );
    assert_eq!(
        pools[1].records[0].fields[0].handles[0].maybe_handle,
        Some(Handle { pool: 0, slot: 1 })
    );
    assert!(populate_all(&mut Vec::<Pool<u32>>::new()).is_empty());
}

#[test]
fn record_populates_its_own_references() {
    let mut bullets: Pool<u32> = Pool::new(0);
    bullets.insert(plain("basic", 10));
    let index = NameIndex::build(&vec![bullets]);
    let mut record: Record<u32> = Record::new(
        "crate".to_string(),
        7,
        vec![RefField::list(
            "contents".to_string(),
            vec!["basic".to_string(), "none".to_string(), "basic".to_string()],
            0,
        )],
    );
    let errors = record.populate_handles(5, &index);
    assert_eq!(
        errors,
        vec![SpecError::UnresolvedName {
            owning_type: 5,
            field: "contents".to_string(),
            name: "none".to_string(),
        }]
    );
    assert_eq!(record.name, "crate");
    assert_eq!(record.data, 7);
    assert_eq!(record.fields[0].handles[0].maybe_handle, Some(Handle { pool: 0, slot: 0 }));
    assert_eq!(record.fields[0].handles[1].maybe_handle, None);
    assert_eq!(record.fields[0].handles[2].maybe_handle, Some(Handle { pool: 0, slot: 0 }));
    assert!(!record.is_unresolved());
}
