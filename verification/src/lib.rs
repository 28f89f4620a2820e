//! Verified core of a window quick-switcher: inventory filtering, icon
//! decoding with a transparent placeholder fallback, fuzzy ranking of window
//! titles, and the hotkey session state machine.
pub mod icon;
pub mod inventory;
pub mod rank;
pub mod session;
