//! Candidate password wordlists derived from personal information.
//!
//! A [`generator::PasswordGenerator`] is made from an [`info::PersonalInfo`],
//! fills a set of candidates in five passes and lists it in sorted order.

pub mod generator;
pub mod info;
pub mod laws;
pub mod order;
pub mod origin;
pub mod rules;
pub mod text;
