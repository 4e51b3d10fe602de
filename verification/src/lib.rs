//! Verified core of the Invomodo invoice builder: form validation, the
//! editable grid, grouped autocomplete, the offline session guard and the
//! small text utilities they share.

pub mod text;
pub mod shared;
pub mod session;
pub mod validation;
pub mod outside;
pub mod grid;
pub mod fields;
pub mod container;
pub mod invoice;
pub mod autocomplete;
pub mod pdf;
pub mod ui;
pub mod responsive;
