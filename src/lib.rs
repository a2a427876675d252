//! A component package manager: an immutable catalog of source components, the
//! dependency closure of each one, the project manifest that records what was
//! installed, the install planner and the update check, together with the
//! builder types of the components that the catalog distributes.

pub mod registry;
pub mod config;
pub mod update;
pub mod install;
pub mod traits;
pub mod badge;
pub mod button;
pub mod element;
pub mod card;
pub mod dialog;
pub mod checkbox;
pub mod input;
