//! Verified interaction logic for accessible Dioxus components: the
//! one-time-password input (text editing over a hidden native input, slot
//! selection, caret and UTF-16 selection mapping), the context menu (open
//! state, long press, keyboard focus moves, item selection), and the
//! routing and search decisions of the component gallery.

pub mod context_menu;
pub mod otp_edit;
pub mod otp_input;
pub mod otp_slot;
pub mod preview;
pub mod text;
