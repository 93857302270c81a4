use rvkernel::console::{ConsoleAction, DebugConsole};

#[test]
fn console_sends_each_byte_then_finishes() {
    let c = DebugConsole {};
    let s = b"hi";
    assert_eq!(c.next_action(s, 0, 0), ConsoleAction::Put(b'h'));
    assert_eq!(c.next_action(s, 1, 0), ConsoleAction::Put(b'i'));
    assert_eq!(c.next_action(s, 2, 0), ConsoleAction::Done);
    assert_eq!(c.next_action(b"", 0, 0), ConsoleAction::Done);
}

#[test]
fn console_fails_on_firmware_error() {
    let c = DebugConsole {};
    assert_eq!(c.next_action(b"abc", 1, -1), ConsoleAction::Fail);
    assert_eq!(c.next_action(b"abc", 3, 2), ConsoleAction::Fail);
}
