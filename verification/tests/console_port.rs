use simpleos::console::ConsolePort;

#[test]
fn fresh_port_is_free_and_silent() {
    let mut port = ConsolePort::new();
    assert_eq!(port.holder(), None);
    assert_eq!(port.take_output(), Vec::<u8>::new());
}

#[test]
fn bytes_appear_in_call_order() {
    let mut port = ConsolePort::new();
    for b in [b'k', b'e', b'r', b'n', b'e', b'l'] {
        assert!(port.write_byte(7, b));
    }
    assert_eq!(port.take_output(), b"kernel".to_vec());
}

#[test]
fn write_byte_leaves_the_lock_free() {
    let mut port = ConsolePort::new();
    assert!(port.write_byte(1, b'a'));
    assert_eq!(port.holder(), None);
    assert!(port.write_byte(2, b'b'));
    assert_eq!(port.take_output(), b"ab".to_vec());
}

#[test]
fn only_one_context_gets_the_lock() {
    let mut port = ConsolePort::new();
    assert!(port.try_lock(1));
    assert_eq!(port.holder(), Some(1));
    assert!(!port.try_lock(2));
    assert_eq!(port.holder(), Some(1));
}

#[test]
fn lock_is_not_reentrant() {
    let mut port = ConsolePort::new();
    assert!(port.try_lock(1));
    assert!(!port.try_lock(1));
    assert_eq!(port.holder(), Some(1));
}

#[test]
fn held_port_refuses_a_whole_write() {
    let mut port = ConsolePort::new();
    assert!(port.try_lock(1));
    assert!(!port.write_byte(2, b'x'));
    assert!(!port.write_byte(1, b'y'));
    assert_eq!(port.holder(), Some(1));
    assert_eq!(port.take_output(), Vec::<u8>::new());
}

#[test]
fn put_needs_the_lock() {
    let mut port = ConsolePort::new();
    assert!(!port.put(1, b'a'));
    assert!(port.try_lock(1));
    assert!(!port.put(2, b'b'));
    assert!(port.put(1, b'c'));
    assert!(port.put(1, b'd'));
    assert_eq!(port.take_output(), b"cd".to_vec());
}

#[test]
fn holder_owns_the_stream() {
    let mut port = ConsolePort::new();
    assert!(port.try_lock(1));
    assert!(port.put(1, b'A'));
    assert!(!port.try_lock(2));
    assert!(!port.put(2, b'x'));
    assert!(!port.unlock(2));
    assert!(port.put(1, b'B'));
    assert!(!port.write_byte(3, b'y'));
    assert!(port.put(1, b'C'));
    assert!(port.unlock(1));
    assert_eq!(port.holder(), None);
    assert_eq!(port.take_output(), b"ABC".to_vec());
}

#[test]
fn unlock_by_a_stranger_changes_nothing() {
    let mut port = ConsolePort::new();
    assert!(!port.unlock(1));
    assert!(port.try_lock(1));
    assert!(!port.unlock(2));
    assert_eq!(port.holder(), Some(1));
    assert!(port.unlock(1));
    assert_eq!(port.holder(), None);
    assert!(port.try_lock(2));
}

#[test]
fn output_is_taken_once_and_in_order() {
    let mut port = ConsolePort::new();
    assert!(port.write_byte(0, b'1'));
    assert!(port.write_byte(0, b'2'));
    assert_eq!(port.take_output(), b"12".to_vec());
    assert_eq!(port.take_output(), Vec::<u8>::new());
    assert!(port.write_byte(0, b'3'));
    assert_eq!(port.take_output(), b"3".to_vec());
}

#[test]
fn taking_output_keeps_the_lock() {
    let mut port = ConsolePort::new();
    assert!(port.try_lock(4));
    assert!(port.put(4, b'z'));
    assert_eq!(port.take_output(), b"z".to_vec());
    assert_eq!(port.holder(), Some(4));
}
