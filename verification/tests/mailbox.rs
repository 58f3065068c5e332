use md_preview::mailbox::Mailbox;

fn wakes(receiver: &crossbeam::channel::Receiver<()>) -> usize {
    let mut count = 0;
    while receiver.try_recv().is_ok() {
        count += 1;
    }
    count
}

#[test]
fn new_mailbox_has_no_viewers() {
    let mailbox = Mailbox::new();
    assert!(!mailbox.is_subscribed(0));
    assert!(!mailbox.is_pending(0));
}

#[test]
fn subscribing_opens_an_empty_slot() {
    let mut mailbox = Mailbox::new();
    let viewer = mailbox.subscribe();
    assert_eq!(viewer.id, 0);
    assert!(mailbox.is_subscribed(0));
    assert!(!mailbox.is_pending(0));
    assert_eq!(wakes(&viewer.wake), 0);
}

#[test]
fn post_becomes_pending_and_wakes_the_viewer() {
    let mut mailbox = Mailbox::new();
    let viewer = mailbox.subscribe();
    mailbox.post();
    assert!(mailbox.is_pending(viewer.id));
    assert_eq!(wakes(&viewer.wake), 1);
}

#[test]
fn take_consumes_the_pending_signal() {
    let mut mailbox = Mailbox::new();
    let viewer = mailbox.subscribe();
    mailbox.post();
    assert!(mailbox.take(viewer.id));
    assert!(!mailbox.is_pending(viewer.id));
    assert!(!mailbox.take(viewer.id));
    assert!(mailbox.is_subscribed(viewer.id));
}

#[test]
fn signals_posted_onto_a_pending_one_are_dropped() {
    let mut mailbox = Mailbox::new();
    let viewer = mailbox.subscribe();
    for _ in 0..50 {
        mailbox.post();
    }
    assert_eq!(wakes(&viewer.wake), 1);
    assert!(mailbox.take(viewer.id));
    assert!(!mailbox.take(viewer.id));
}

#[test]
fn post_after_take_is_retained_again() {
    let mut mailbox = Mailbox::new();
    let viewer = mailbox.subscribe();
    mailbox.post();
    assert!(mailbox.take(viewer.id));
    mailbox.post();
    mailbox.post();
    assert!(mailbox.take(viewer.id));
    assert!(!mailbox.take(viewer.id));
    assert_eq!(wakes(&viewer.wake), 2);
}

#[test]
fn one_post_fans_out_to_every_viewer() {
    let mut mailbox = Mailbox::new();
    let first = mailbox.subscribe();
    let second = mailbox.subscribe();
    assert_eq!((first.id, second.id), (0, 1));
    mailbox.post();
    assert_eq!(wakes(&first.wake), 1);
    assert_eq!(wakes(&second.wake), 1);
    assert!(mailbox.take(first.id));
    assert!(mailbox.take(second.id));
    assert!(!mailbox.take(first.id));
    assert!(!mailbox.take(second.id));
}

#[test]
fn viewer_that_took_its_signal_does_not_empty_the_others() {
    let mut mailbox = Mailbox::new();
    let first = mailbox.subscribe();
    let second = mailbox.subscribe();
    mailbox.post();
    assert!(mailbox.take(first.id));
    mailbox.post();
    assert!(mailbox.is_pending(first.id));
    assert!(mailbox.is_pending(second.id));
    assert_eq!(wakes(&first.wake), 2);
    assert_eq!(wakes(&second.wake), 1);
}

#[test]
fn closing_one_viewer_leaves_the_other_receiving() {
    let mut mailbox = Mailbox::new();
    let gone = mailbox.subscribe();
    let stays = mailbox.subscribe();
    mailbox.post();
    assert!(mailbox.unsubscribe(gone.id));
    assert!(!mailbox.is_subscribed(gone.id));
    assert!(mailbox.is_pending(stays.id));
    assert!(mailbox.take(stays.id));
    mailbox.post();
    assert!(mailbox.take(stays.id));
    assert!(!mailbox.take(gone.id));
    assert_eq!(wakes(&stays.wake), 2);
}

#[test]
fn post_survives_a_viewer_whose_receiver_is_gone() {
    let mut mailbox = Mailbox::new();
    let gone = mailbox.subscribe();
    let stays = mailbox.subscribe();
    drop(gone.wake);
    mailbox.post();
    assert!(mailbox.is_pending(gone.id));
    assert_eq!(wakes(&stays.wake), 1);
}

#[test]
fn closed_viewer_gets_nothing() {
    let mut mailbox = Mailbox::new();
    let viewer = mailbox.subscribe();
    assert!(mailbox.unsubscribe(viewer.id));
    mailbox.post();
    assert!(!mailbox.is_pending(viewer.id));
    assert!(!mailbox.take(viewer.id));
    assert_eq!(wakes(&viewer.wake), 0);
}

#[test]
fn unsubscribing_twice_reports_the_second_as_not_open() {
    let mut mailbox = Mailbox::new();
    let viewer = mailbox.subscribe();
    assert!(mailbox.unsubscribe(viewer.id));
    assert!(!mailbox.unsubscribe(viewer.id));
    assert!(!mailbox.unsubscribe(17));
}

#[test]
fn lowest_free_slot_is_reused() {
    let mut mailbox = Mailbox::new();
    let a = mailbox.subscribe();
    let b = mailbox.subscribe();
    let c = mailbox.subscribe();
    assert_eq!((a.id, b.id, c.id), (0, 1, 2));
    mailbox.post();
    assert!(mailbox.unsubscribe(b.id));
    assert!(mailbox.unsubscribe(a.id));
    let d = mailbox.subscribe();
    assert_eq!(d.id, 0);
    assert!(!mailbox.is_pending(d.id));
    let e = mailbox.subscribe();
    assert_eq!(e.id, 1);
    let f = mailbox.subscribe();
    assert_eq!(f.id, 3);
    assert!(mailbox.is_pending(c.id));
}

#[test]
fn post_without_viewers_changes_nothing() {
    let mut mailbox = Mailbox::new();
    mailbox.post();
    let viewer = mailbox.subscribe();
    assert!(!mailbox.is_pending(viewer.id));
    assert_eq!(wakes(&viewer.wake), 0);
}
