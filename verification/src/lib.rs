//! A declarative rule set for a multi-seat abstract strategy board game,
//! together with a verified consistency check and a verified text codec.
//!
//! A caller constructs (or decodes) a [`ruleset::Ruleset`] value and calls its
//! single `verify` entry point, which validates seats, allies, colors, pieces,
//! board, starting positions and the non-empty set of victory conditions in a
//! fixed order, returning the first structured failure.

pub mod account_util;
pub mod alteration_type;
pub mod board_type;
pub mod codec;
pub mod color;
pub mod coordinate;
pub mod direction;
pub mod piece_definition;
pub mod piece_limit;
pub mod placement_area;
pub mod ruleset;
pub mod space;
pub mod standard;
pub mod starting_positions;
pub mod text;
pub mod victory_condition;
