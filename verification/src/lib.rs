//! Parsing and printing of the values that a Hyprland configuration holds:
//! each value type reads the text that stands in the configuration file and
//! writes it back, and both directions are specified over sequences of chars.
pub mod text;
pub mod num;
pub mod hyprland;
