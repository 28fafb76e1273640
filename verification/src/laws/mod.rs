//! What holds of the library as a whole.
//!
//! Each function here states one law over the models that the contracts use, and proves it.

pub mod actions;
pub mod adding;
pub mod asking;
pub mod closing;
pub mod history;
pub mod items;
pub mod leaving;
pub mod opening;
pub mod persistence;
pub mod removing;
pub mod saving;
pub mod tabs;
pub mod view;
pub mod workspace;
