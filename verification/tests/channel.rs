//! Behaviour of the multi-reader event channel.

use world_digger::channel::{EventChannel, Key};

#[test]
fn each_reader_sees_every_event_once_in_order() {
    let mut c = EventChannel::new();
    let r1 = c.register_reader();
    let r2 = c.register_reader();
    c.single_write(Key::H);
    c.single_write(Key::P);
    c.single_write(Key::R);
    let b1 = c.read(&r1);
    assert_eq!(b1, vec![Key::H, Key::P, Key::R]);
    // r1's read does not advance r2.
    let b2 = c.read(&r2);
    assert_eq!(b2, vec![Key::H, Key::P, Key::R]);
    // A second read returns nothing: no event is seen twice.
    assert_eq!(c.read(&r1), vec![]);
    assert_eq!(c.read(&r2), vec![]);
}

#[test]
fn reads_split_the_log_without_loss_or_duplication() {
    let mut c = EventChannel::new();
    let r = c.register_reader();
    c.single_write(Key::H);
    c.single_write(Key::J);
    let first = c.read(&r);
    c.single_write(Key::K);
    c.single_write(Key::L);
    let second = c.read(&r);
    let mut all = first.clone();
    all.extend(second.iter().cloned());
    assert_eq!(all, vec![Key::H, Key::J, Key::K, Key::L]);
}

#[test]
fn a_late_reader_sees_only_later_events() {
    let mut c = EventChannel::new();
    let early = c.register_reader();
    c.single_write(Key::P);
    let late = c.register_reader();
    c.single_write(Key::R);
    assert_eq!(c.read(&early), vec![Key::P, Key::R]);
    assert_eq!(c.read(&late), vec![Key::R]);
}
