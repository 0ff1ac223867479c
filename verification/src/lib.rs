//! Division of undivided Japanese full names into a family part and a given
//! part, with a confidence and the name of the method that decided the cut.
//!
//! The engine first canonicalizes legacy glyph variants, then tries a
//! rule-based shortcut driven by Han-script boundaries, and otherwise scores
//! every candidate split with a pluggable score calculator and keeps the
//! best one.  All scoring arithmetic is exact fixed-point arithmetic over
//! integers, so every path through the engine is verified.

pub mod basic_name_divider;
pub mod basic_score_calculator;
pub mod divided_name;
pub mod extractor;
pub mod family_name;
pub mod functional;
pub mod han_script;
pub mod kanji;
pub mod laws;
pub mod name_divider;
pub mod name_divider_base;
pub mod score_calculator;
pub mod two_char_name_divider;
pub mod two_char_score_calculator;
