use little_rust::smart_pointers::{quota_alert, LimitTracker, Messenger, MyBox, QuotaAlert};
use std::cell::RefCell;

struct MockMessenger {
    sent_messages: RefCell<Vec<String>>,
}

impl MockMessenger {
    fn new() -> MockMessenger {
        MockMessenger { sent_messages: RefCell::new(vec![]) }
    }
}

impl Messenger for MockMessenger {
    // A proof-time statement about the messenger; nothing at run time asks it.
    fn received(&self, _message: vstd::seq::Seq<char>) -> bool {
        true
    }

    fn send(&self, message: &str) {
        self.sent_messages.borrow_mut().push(String::from(message));
    }
}

#[test]
fn it_sends_an_over_75_percent_warning_message() {
    let mock_messenger = MockMessenger::new();
    let mut limit_tracker = LimitTracker::new(&mock_messenger, 100);

    limit_tracker.set_value(80);

    assert_eq!(mock_messenger.sent_messages.borrow().len(), 1);
}

#[test]
fn limit_tracker_messages_by_level() {
    let mock = MockMessenger::new();
    let mut tracker = LimitTracker::new(&mock, 100);
    assert_eq!(tracker.set_value(74), None);
    assert_eq!(tracker.set_value(75), Some(QuotaAlert::Warning));
    assert_eq!(tracker.set_value(90), Some(QuotaAlert::Urgent));
    assert_eq!(tracker.set_value(100), Some(QuotaAlert::Over));
    assert_eq!(tracker.value(), 100);
    assert_eq!(tracker.max(), 100);
    let sent = mock.sent_messages.borrow();
    assert_eq!(
        *sent,
        vec![
            "Warning: You've used up over 75% of your quota!".to_string(),
            "Urgent warning: You've used up over 90% of your quota!".to_string(),
            "Error: You are over your quota!".to_string(),
        ]
    );
}

#[test]
fn quota_alert_edges() {
    assert_eq!(quota_alert(0, 0), None);
    assert_eq!(quota_alert(1, 0), Some(QuotaAlert::Over));
    assert_eq!(quota_alert(9, 10), Some(QuotaAlert::Urgent));
    assert_eq!(quota_alert(8, 10), Some(QuotaAlert::Warning));
    assert_eq!(quota_alert(usize::MAX, usize::MAX), Some(QuotaAlert::Over));
}

#[test]
fn my_box_derefs() {
    let z = MyBox::new(3);
    assert_eq!(3, *z);
    let m = MyBox::new(String::from("rust"));
    assert_eq!(&(*m)[..], "rust");
}
