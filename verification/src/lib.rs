//! Random passwords under constraints on length and character classes.
//!
//! A [`PasswordRequirements`] value says how long a password is to be and how
//! many digits and special characters it is to hold.
//! [`PasswordRequirements::validate`] brings any such value into a consistent
//! form, and [`generate_password`] draws a password that meets it.

pub mod cli_doc;
pub mod config;
pub mod generate;
pub mod pools;
pub mod random;
pub mod samples;
pub mod text;

pub use config::PasswordRequirements;
pub use generate::{generate, generate_password, GenerateError};
pub use pools::{LOWERCASE, NUMBERS, SPECIAL_CHARACTERS, UPPERCASE};
pub use samples::Samples;
