use dsx::sync::sema::{claim_decision, state_is_set, SingleSetSemaphore, INITED, INITING, UNINIT};

#[test]
fn set_once_then_read() {
    let s = SingleSetSemaphore::<u32>::new();
    assert!(!SingleSetSemaphore::is_initialized(&s));
    assert_eq!(s.as_ref(), None);
    assert_eq!(SingleSetSemaphore::set(&s, 7), Ok(()));
    assert!(SingleSetSemaphore::is_initialized(&s));
    assert_eq!(s.as_ref(), Some(&7));
    assert_eq!(SingleSetSemaphore::set(&s, 8), Err(8));
    assert_eq!(s.as_ref(), Some(&7));
}

#[test]
fn set_racy_once() {
    let s = SingleSetSemaphore::<String>::new();
    assert_eq!(SingleSetSemaphore::set_racy(&s, "a".to_string()), Ok(()));
    assert_eq!(s.as_ref().map(|x| x.as_str()), Some("a"));
    assert_eq!(SingleSetSemaphore::set_racy(&s, "b".to_string()), Err("b".to_string()));
    assert_eq!(SingleSetSemaphore::set(&s, "c".to_string()), Err("c".to_string()));
}

#[test]
fn state_words() {
    assert!(!state_is_set(UNINIT));
    assert!(!state_is_set(INITING));
    assert!(state_is_set(INITED));
}

#[test]
fn only_unset_semaphore_can_be_claimed() {
    assert_eq!(claim_decision(UNINIT), Some(INITING));
    assert_eq!(claim_decision(INITING), None);
    assert_eq!(claim_decision(INITED), None);
}
