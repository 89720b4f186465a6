//! Relay-style cursor pagination over sequences that are already loaded.
//!
//! A caller hands over an ordered sequence of items, each of which carries an
//! identity, together with the paging arguments `after`, `before`, `first`
//! and `last`. The library finds the half-open range of positions that the
//! arguments select and returns the items of that range as edges, each with
//! its cursor, beside the two navigation flags and the length of the whole
//! sequence.
//!
//! Two kinds of identity are offered: a 128-bit identifier, whose cursor is
//! its canonical hyphenated text, and a free-form string, which is its own
//! cursor.

pub mod connection;
pub mod cursor;
pub mod params;
pub mod string_cursor;
pub mod uuid_cursor;
pub mod window;
