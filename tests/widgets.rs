use teleia::cardinal::Cardinal;
use teleia::ui::{Cursor, Mode};

#[test]
fn mode_reverses_once_until_unlocked() {
    let mut m = Mode::new(30);
    assert!(!m.is_active());
    assert!(m.reverse(1000));
    assert!(m.is_active() && m.is_locked());
    assert_eq!(m.started(), 1000);
    assert!(!m.reverse(1005));
    m.unlock();
    assert!(m.reverse(1010));
    assert!(!m.is_active());
    assert_eq!(m.started(), 990);
    assert!(!m.is_ready(1020));
    assert!(m.is_ready(1021));
    m.reset();
    assert!(!m.is_active() && !m.is_locked() && m.started() == 0);
}

#[test]
fn mode_lock() {
    let mut m = Mode::new(5);
    m.lock();
    assert!(!m.reverse(100));
    assert!(!m.is_active());
}

#[test]
fn cursor_wraps_and_waits_while_locked() {
    let mut c = Cursor::new(3, 10);
    assert!(c.set(5, 100));
    assert_eq!((c.index, c.prev_index, c.change_started), (2, 0, 100));
    assert!(!c.increment(105));
    assert!(c.increment(111));
    assert_eq!(c.index, 0);
    c.unlock();
    assert!(c.decrement(112));
    assert_eq!((c.index, c.prev_index), (2, 0));
    assert!(c.set(-4, 200));
    assert_eq!(c.index, -1);
    assert!(c.is_ready(211) && !c.is_ready(210));
}

#[test]
fn cardinal_turns() {
    assert_eq!(Cardinal::North.turn_cw(), Cardinal::East);
    assert_eq!(Cardinal::North.turn_ccw(), Cardinal::West);
    assert_eq!(Cardinal::West.turn_by(&Cardinal::South), Cardinal::East);
    assert_eq!(Cardinal::South.turn_by(&Cardinal::West), Cardinal::West);
    assert_eq!(Cardinal::East.turn_by(&Cardinal::East), Cardinal::North);
    assert_eq!(Cardinal::East.turn_by(&Cardinal::North), Cardinal::East);
    assert_eq!(Cardinal::South.offsets(), (0, -1));
    assert_eq!(Cardinal::West.offsets(), (-1, 0));
    assert_eq!(Cardinal::North.to_string(), "north");
    assert_eq!(Cardinal::East.to_string(), "east");
}
