//! Key-event classification for a compositor that shares the keyboard with an
//! assistive technology (AT) over `org.freedesktop.a11y.KeyboardMonitor`.
//!
//! The AT designates keys it wants to intercept. For every press or release the
//! compositor asks [`state_machine::State::process`] what to do with the event:
//! swallow it, let it through untouched, hand it to the AT only, or hand it to
//! the AT and let it through as well.

pub mod key_list;
pub mod keysym;
pub mod mask;
pub mod state_machine;
pub mod laws;

pub use keysym::Keysym;
pub use mask::ModMask;
