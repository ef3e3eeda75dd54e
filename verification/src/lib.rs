//! Rules and state transitions behind the Baker chat-mockup editor.

pub mod locale;
pub mod modals;
pub mod roster;
pub mod settings;
pub mod text;
