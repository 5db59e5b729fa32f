//! A chess variant whose squares hold weighted piece instances: moving a
//! piece splits its mass between its origin and its destination, and pieces
//! of the same team and kind that meet on a square merge.
pub mod game;
pub mod piece;
