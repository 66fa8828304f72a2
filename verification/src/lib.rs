//! An embedded shell: a fixed-size character screen with a wrapping cursor,
//! and a line-oriented command interpreter with two privilege levels.

pub mod command;
pub mod interpreter;
pub mod position;
pub mod registry;
pub mod screen;
pub mod session;
pub mod text;
