//! Playing cards and decks for a solitaire engine.
//!
//! A card is one byte: a group-marker flag, a face-up flag, a two-bit suit
//! and a four-bit rank. The `card` module holds the encoding and its
//! conversions, `deck` builds, validates and shuffles a 52-card deck,
//! `layout` arranges cards in piles, and `misc` holds small shared helpers.

pub mod card;
pub mod deck;
pub mod layout;
pub mod misc;
