//! A slice behind a lock, made of storage with a tail.
use mgnp::plugtail::{ArcHdr, ArcPlugTail, BodyDrop, PlugTail, Pluggable, StaticPlugTail};
use std::cell::Cell;
use std::rc::Rc;

struct AmsHdr {
    locked: bool,
    dropped: Rc<Cell<usize>>,
}

impl BodyDrop for AmsHdr {
    type Item = i32;
    fn body_drop(&self, i: &mut [Option<i32>]) {
        for val in i {
            assert!(val.take().is_some());
            self.dropped.set(self.dropped.get() + 1);
        }
    }
}

fn hdr() -> (AmsHdr, Rc<Cell<usize>>) {
    let dropped = Rc::new(Cell::new(0));
    (AmsHdr { locked: false, dropped: dropped.clone() }, dropped)
}

fn fill(t: &mut [Option<i32>], f: impl Fn(usize) -> i32) {
    for (i, val) in t.iter_mut().enumerate() {
        *val = Some(f(i));
    }
}

fn try_lock(hdr: &mut AmsHdr) -> bool {
    !std::mem::replace(&mut hdr.locked, true)
}

#[test]
fn make_a_thing() {
    let (h, dropped) = hdr();
    let mut x: ArcPlugTail<AmsHdr, i32> = ArcPlugTail::new(h, 10);
    assert!(x.storage().t.iter().all(|v| v.is_none()));
    fill(x.storage_mut().1, |_| 123);

    // lock once, read values
    assert!(try_lock(x.storage_mut().0));
    assert_eq!(x.storage().t.len(), 10);
    assert!(x.storage().t.iter().all(|v| *v == Some(123)));
    x.storage_mut().0.locked = false;

    // second time, set values
    assert!(try_lock(x.storage_mut().0));
    fill(x.storage_mut().1, |i| i as i32);
    x.storage_mut().0.locked = false;

    // third time, read values
    assert!(try_lock(x.storage_mut().0));
    for (i, v) in x.storage().t.iter().enumerate() {
        assert_eq!(*v, Some(i as i32));
    }
    x.storage_mut().0.locked = false;

    let (_, tail) = x.drop().err().expect("that was the last handle");
    assert!(tail.iter().all(|v| v.is_none()));
    assert_eq!(dropped.get(), 10);
}

#[test]
fn lock_works() {
    let (h, _) = hdr();
    let mut x: ArcPlugTail<AmsHdr, i32> = ArcPlugTail::new(h, 10);
    fill(x.storage_mut().1, |_| 123);

    // lock once, hold it
    assert!(try_lock(x.storage_mut().0));

    // Can't lock while holding
    assert!(!try_lock(x.storage_mut().0));

    // Use the lock
    assert!(x.storage().t.iter().all(|v| *v == Some(123)));
}

#[test]
fn arc_works() {
    let (h, dropped) = hdr();
    let mut x: ArcPlugTail<AmsHdr, i32> = ArcPlugTail::new(h, 10);
    fill(x.storage_mut().1, |_| 123);
    x.clone();

    // modify through the first one
    assert!(try_lock(x.storage_mut().0));
    fill(x.storage_mut().1, |i| i as i32);
    x.storage_mut().0.locked = false;

    // drop first one
    let mut x = x.drop().ok().expect("there is another handle");
    assert_eq!(dropped.get(), 0);

    // read via second
    assert!(try_lock(x.storage_mut().0));
    for (i, v) in x.storage().t.iter().enumerate() {
        assert_eq!(*v, Some(i as i32));
    }
    let (_, tail) = x.drop().err().expect("that was the last handle");
    assert!(tail.iter().all(|v| v.is_none()));
    assert_eq!(dropped.get(), 10);
}

#[test]
fn static_works() {
    let (h, _) = hdr();
    let mut x: StaticPlugTail<AmsHdr, i32, 16> = StaticPlugTail::new(h);

    // not initialized
    assert_eq!(x.storage().t.len(), 16);
    assert!(x.storage().t.iter().all(|v| v.is_none()));

    fill(x.storage_mut().1, |_| 123);

    // modify through the lock
    assert!(try_lock(x.storage_mut().0));
    fill(x.storage_mut().1, |i| i as i32);
    x.storage_mut().0.locked = false;

    // read again
    assert!(try_lock(x.storage_mut().0));
    for (i, v) in x.storage().t.iter().enumerate() {
        assert_eq!(*v, Some(i as i32));
    }
}

#[test]
fn layout_has_room_for_the_tail() {
    let base = std::alloc::Layout::new::<PlugTail<ArcHdr<AmsHdr>, i32>>();
    let empty = ArcPlugTail::<AmsHdr, i32>::layout(0);
    assert_eq!((empty.size, empty.align), (base.size(), base.align()));
    for n in 0..20 {
        let (expected, _) = base.extend(std::alloc::Layout::array::<i32>(n).unwrap()).unwrap();
        let layout = ArcPlugTail::<AmsHdr, i32>::layout(n);
        assert_eq!(layout.size, expected.size());
        assert_eq!(layout.align, expected.align());
        assert_eq!(layout.size, empty.size + n * std::mem::size_of::<i32>());
    }
}

#[test]
fn the_last_handle_hands_over_the_tail() {
    let (h, dropped) = hdr();
    let mut x: ArcPlugTail<AmsHdr, i32> = ArcPlugTail::new(h, 3);
    fill(x.storage_mut().1, |i| i as i32);
    x.clone();
    let x = x.release().ok().expect("there is another handle");
    assert_eq!(x.storage().t, &[Some(0), Some(1), Some(2)]);
    let (hdr, mut tail) = x.release().err().expect("that was the last handle");
    assert_eq!(dropped.get(), 0);
    hdr.body_drop(&mut tail);
    assert_eq!(dropped.get(), 3);
    assert_eq!(tail, vec![None, None, None]);
}
