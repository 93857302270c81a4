//! The debug console: text is written one byte at a time through the firmware's
//! console call, and writing stops at the first byte the firmware refuses.

use vstd::prelude::*;

verus! {

/// What the console asks for next while writing a string.
#[derive(Debug, Clone, Copy, PartialEq, Eq, Structural)]
pub enum ConsoleAction {
    /// Hand this byte to the firmware's console call.
    Put(u8),
    /// Every byte was accepted: the write succeeded.
    Done,
    /// The firmware refused a byte: the write fails with an I/O error.
    Fail,
}

/// The firmware debug console.
#[derive(Debug, Clone, Copy, PartialEq, Eq, Structural)]
pub struct DebugConsole {}

impl DebugConsole {
    /// The next step of writing `bytes`, once the first `sent` bytes have been handed to
    /// the firmware and the last call returned `status` (zero before the first call).
    pub fn next_action(&self, bytes: &[u8], sent: usize, status: i64) -> (r: ConsoleAction)
        requires
            sent <= bytes@.len(),
        ensures
            status != 0 ==> r == ConsoleAction::Fail,
            status == 0 && sent < bytes@.len() ==> r == ConsoleAction::Put(bytes@[sent as int]),
            status == 0 && sent == bytes@.len() ==> r == ConsoleAction::Done,
    {
        if status != 0 {
            ConsoleAction::Fail
        } else if sent < bytes.len() {
            ConsoleAction::Put(bytes[sent])
        } else {
            ConsoleAction::Done
        }
    }
}

} // verus!
