use std::sync::Arc;

use dsx::sync::mutex::container::MutexDataContainerSync;

#[test]
fn slot_holds_one_item() {
    let mut c = MutexDataContainerSync::<u32>::empty();
    assert!(!c.has_data());
    assert!(c.as_dyn_arc().is_none());
    c.replace(Arc::new(4));
    assert!(c.has_data());
    assert_eq!(c.as_dyn_arc().map(|x| **x), Some(4));
    assert_eq!(c.as_dyn(), Some(&4));
    c.replace(Arc::new(5));
    assert_eq!(c.take().map(|x| *x), Some(5));
    assert!(!c.has_data());
    assert!(c.take().is_none());
    c.replace(Arc::new(6));
    c.clear();
    assert!(!c.has_data());
}

#[test]
fn slot_holds_trait_objects() {
    trait Named: Send + Sync {
        fn name(&self) -> &'static str;
    }
    struct A;
    impl Named for A {
        fn name(&self) -> &'static str {
            "a"
        }
    }
    let mut c = MutexDataContainerSync::<dyn Named>::empty();
    c.replace(Arc::new(A));
    assert_eq!(c.as_dyn_arc().map(|x| x.name()), Some("a"));
    assert_eq!(c.as_dyn().map(|x| x.name()), Some("a"));
    c.clear();
    assert!(c.as_dyn().is_none());
}
