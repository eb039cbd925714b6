//! A drill trainer for the radicals of a Chinese input method.
//!
//! A learner is shown a radical and types its code. The library keeps the
//! state of such a session: it loads the catalog of radicals from two text
//! tables, arranges it, judges each answer, adapts how often a radical is
//! still to be practised, and chooses the radical to show next without
//! repeating one that was shown a moment ago.
//!
//! Around the session stand the state machines of the screens that a
//! program needs (the settings menu, the conversion form, the key handling
//! of a running session) and the conversion of a decomposition dictionary
//! into the two tables. Nothing here draws, reads keys or touches files.
//!
//! Every data type has a view as plain mathematical values, and every
//! function states over those views what it returns and what it changes.

pub mod config;
pub mod convert;
pub mod counts;
pub mod dictionary;
pub mod evaluate;
pub mod feedback;
pub mod form;
pub mod laws;
pub mod menu;
pub mod number;
pub mod order;
pub mod pretend;
pub mod radical;
mod random;
pub mod schedule;
pub mod session;
pub mod state;
pub mod table;
pub mod text;
