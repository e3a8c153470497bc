//! Core logic of the myQuest life-management app: habits, weekly todos and
//! the life timeline, with their stores, orderings and derived views.

pub mod color;
pub mod config;
pub mod dates;
pub mod habit;
pub mod ids;
pub mod legend;
pub mod paths;
pub mod share;
pub mod sort;
pub mod startup;
pub mod storage;
pub mod text;
pub mod timeline;
pub mod todo;
pub mod views;
