use nagger::progress::{Completion, ProgressNote};

#[test]
fn completion_constructors() {
    assert_eq!(Completion::new(40).val(), 40);
    assert_eq!(Completion::zero().val(), 0);
    assert_eq!(Completion::full().val(), 100);
    assert!(Completion::full().is_complete());
    assert!(!Completion::new(99).is_complete());
}

#[test]
fn completion_arithmetic_saturates() {
    assert_eq!(Completion::new(70) + Completion::new(20), Completion::new(90));
    assert_eq!(Completion::new(70) + Completion::new(50), Completion::full());
    assert_eq!(Completion::new(70) - Completion::new(20), Completion::new(50));
    assert_eq!(Completion::new(20) - Completion::new(70), Completion::zero());
    let mut c = Completion::new(60);
    c.add_assign(Completion::new(30));
    assert_eq!(c.val(), 90);
    c.add_assign(Completion::new(30));
    assert_eq!(c.val(), 100);
    c.sub_assign(Completion::new(45));
    assert_eq!(c.val(), 55);
    c.sub_assign(Completion::new(80));
    assert_eq!(c.val(), 0);
}

#[test]
fn completion_text() {
    assert_eq!(Completion::new(40).to_string(), "40%");
}

#[test]
fn progress_notes() {
    let mut n = ProgressNote::with_completion("half".to_string(), 50);
    assert_eq!(n.completed, Some(Completion::new(50)));
    assert!(n.timestamp_ms > 0);
    n.reset_completion();
    assert_eq!(n.completed, None);
    assert_eq!(n.note, "half");
    assert!(ProgressNote::new("x".to_string()).completed.is_none());
}
