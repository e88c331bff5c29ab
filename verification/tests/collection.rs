use transit_model::collection::CollectionWithId;
use transit_model::date::{Date, ExceptionType};
use transit_model::error::ImportError;
use transit_model::objects::Calendar;

type Object = Calendar;

/// An object that is told from others with its identifier by `value`.
fn object(id: &str, value: u16) -> Object {
    Calendar {
        id: String::from(id),
        calendar_dates: vec![(Date::from_ymd(2000 + value, 1, 1).unwrap(), ExceptionType::Added)],
    }
}

fn collection(objects: Vec<Object>) -> CollectionWithId<Object> {
    let mut collection = CollectionWithId::new();
    for object in objects {
        collection.push(object).unwrap();
    }
    collection
}

#[test]
fn objects_keep_their_order_and_are_found_by_identifier() {
    let mut objects = CollectionWithId::new();
    assert!(objects.is_empty());
    assert_eq!(objects.push(object("b", 2)), Ok(0));
    assert_eq!(objects.push(object("a", 1)), Ok(1));
    assert_eq!(objects.push(object("c", 3)), Ok(2));
    assert_eq!(objects.len(), 3);
    assert!(!objects.is_empty());
    assert_eq!(objects.values(), &vec![object("b", 2), object("a", 1), object("c", 3)]);
    assert_eq!(objects.get("a"), Some(&object("a", 1)));
    assert_eq!(objects.get("d"), None);
    assert_eq!(objects.get_idx("c"), Some(2));
    assert_eq!(objects.get_idx(""), None);
    assert!(objects.contains_id("b"));
    assert!(!objects.contains_id("B"));
    assert_eq!(objects.index(0), &object("b", 2));
}

#[test]
fn an_identifier_is_taken_once() {
    let mut objects = CollectionWithId::new();
    assert_eq!(objects.push(object("a", 1)), Ok(0));
    assert_eq!(
        objects.push(object("a", 2)),
        Err(ImportError::DuplicateIdentifier(String::from("a")))
    );
    assert_eq!(objects.len(), 1);
    assert_eq!(objects.get("a"), Some(&object("a", 1)));
}

#[test]
fn an_object_is_changed_in_place() {
    let mut objects = collection(vec![object("a", 1), object("b", 2)]);
    *objects.index_mut(1) = object("b", 20);
    assert_eq!(objects.get("b"), Some(&object("b", 20)));
    assert_eq!(objects.get("a"), Some(&object("a", 1)));
    assert_eq!(objects.len(), 2);
}

#[test]
fn disjoint_collections_merge_into_their_union() {
    let mut kept = collection(vec![object("a", 1), object("b", 2)]);
    let added = collection(vec![object("c", 3), object("d", 4)]);
    assert_eq!(kept.try_merge(added), Ok(()));
    assert_eq!(
        kept.values(),
        &vec![object("a", 1), object("b", 2), object("c", 3), object("d", 4)]
    );
    assert_eq!(kept.get_idx("d"), Some(3));
    let mut empty: CollectionWithId<Object> = CollectionWithId::default();
    assert_eq!(empty.try_merge(CollectionWithId::new()), Ok(()));
    assert!(empty.is_empty());
}

#[test]
fn overlapping_collections_do_not_merge() {
    let mut kept = collection(vec![object("a", 1), object("b", 2)]);
    let added = collection(vec![object("c", 3), object("b", 20), object("d", 4), object("a", 10)]);
    assert_eq!(
        kept.try_merge(added),
        Err(ImportError::DuplicateIdentifier(String::from("b")))
    );
    // What was there is neither lost nor overwritten; what came before the
    // clash stays.
    assert_eq!(kept.values(), &vec![object("a", 1), object("b", 2), object("c", 3)]);
    assert_eq!(kept.get("b"), Some(&object("b", 2)));
    assert_eq!(kept.get("d"), None);
}
