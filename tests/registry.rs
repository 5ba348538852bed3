use crayon_video::handle::Handle;
use crayon_video::registry::Registry;

#[test]
fn get_returns_value_until_free() {
    let mut reg: Registry<u32> = Registry::new();
    let a = reg.create(10);
    let b = reg.create(20);
    assert_ne!(a, b);
    assert_eq!(reg.get(a), Some(&10));
    assert_eq!(reg.get(b), Some(&20));
    assert_eq!(reg.len(), 2);

    assert!(reg.set(a, 11));
    assert_eq!(reg.get(a), Some(&11));

    assert_eq!(reg.free(a), Some(11));
    assert_eq!(reg.get(a), None);
    assert!(!reg.contains(a));
    assert_eq!(reg.get(b), Some(&20));
    assert_eq!(reg.len(), 1);
}

#[test]
fn reused_slot_gets_new_generation() {
    let mut reg: Registry<&str> = Registry::new();
    let a = reg.create("a");
    assert_eq!(reg.free(a), Some("a"));
    let c = reg.create("c");
    assert_eq!(c.index(), a.index());
    assert_ne!(c.version(), a.version());
    assert_ne!(c, a);
    assert_eq!(reg.get(a), None);
    assert_eq!(reg.get(c), Some(&"c"));
}

#[test]
fn free_twice_is_noop() {
    let mut reg: Registry<u8> = Registry::new();
    let a = reg.create(1);
    let b = reg.create(2);
    assert_eq!(reg.free(a), Some(1));
    assert_eq!(reg.free(a), None);
    assert_eq!(reg.len(), 1);
    assert_eq!(reg.get(b), Some(&2));
}

#[test]
fn unknown_and_stale_handles_report_absence() {
    let mut reg: Registry<u8> = Registry::new();
    assert_eq!(reg.get(Handle::new(0, 0)), None);
    assert_eq!(reg.free(Handle::new(5, 0)), None);
    let a = reg.create(7);
    let stale = Handle::new(a.index(), a.version() + 1);
    assert_eq!(reg.get(stale), None);
    assert!(!reg.set(stale, 9));
    assert_eq!(reg.free(stale), None);
    assert_eq!(reg.get(a), Some(&7));
}

#[test]
fn sequential_creates_are_distinct() {
    let mut reg: Registry<usize> = Registry::new();
    let mut handles = Vec::new();
    for i in 0..100 {
        handles.push(reg.create(i));
    }
    for i in 0..handles.len() {
        for j in (i + 1)..handles.len() {
            assert_ne!(handles[i], handles[j]);
        }
    }
    assert_eq!(reg.len(), 100);
    assert!(!reg.is_full());
}
