//! Recognition and stripping of ANSI/VT terminal escape sequences, and the
//! pure logic of a masked password prompt built on top of that recognition:
//! a scanner for escape sequences, an iterator over plain/escape spans, a
//! stripper, a spinner renderer and the prompt session state machine.

pub mod ansi;
pub mod escapes;
pub mod session;
pub mod spinner;
