//! Navigation between Neovim windows and Herdr panes.
//!
//! A command is a course of steps, each of which asks the caller for one thing:
//! to send a request, to read a file, to compute with coordinates. `navigator`
//! gives the first step, and `answers` the step that follows each answer.
//!
//! What holds of commands stands in `laws` and the modules behind it: `wording` to
//! `places` say what is read, written and compared, and `openings` to `splitting`
//! what happens on the courses of the commands.

pub mod text;
pub mod order;
pub mod tables;
pub mod json;
pub mod wire;
pub mod direction;
pub mod paths;
pub mod clock;
pub mod layout;
pub mod adjacent;
pub mod geometry;
pub mod cache;
pub mod session;
pub mod panes;
pub mod seed;
pub mod requests;
pub mod steps;
pub mod navigator;
pub mod answers;
pub mod laws;
pub mod wording;
pub mod listings;
pub mod sessions;
pub mod recordings;
pub mod nearness;
pub mod places;
pub mod openings;
pub mod courses;
pub mod markers;
pub mod splitting;
