//! Rules for two kinds of quantities: the areas of circles and squares,
//! summed all-or-nothing, and file sizes given as a number and a unit; and
//! the word that ends a session of prompts.
//!
//! A number is an IEEE 754 binary64 value carried as its bit pattern, so that
//! the rules on which numbers are accepted can be stated and proved over
//! integers. Arithmetic on the numbers is left to the caller: the library
//! says which formula or conversion applies.

pub mod aggregate;
pub mod fields;
pub mod filesize;
pub mod measure;
pub mod prompt;
pub mod shape;
