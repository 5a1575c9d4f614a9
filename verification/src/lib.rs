//! Verified core of IconCraft: rule bookkeeping, directory walks, and the
//! plans for applying and restoring custom file and folder icons.

pub mod easter;
pub mod error;
pub mod model;
pub mod native;
pub mod outside;
pub mod rules;
pub mod system;
pub mod target;
pub mod text;
pub mod walk;
