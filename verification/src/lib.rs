//! The rules of a two-dimensional platformer, on whole numbers.
//!
//! At the heart is the physics: composite hit-volumes built from percentages
//! of an owner box ([`body`]), static geometry that answers with the smallest
//! displacement that separates a body from it ([`obstacle`], [`spike`]), the
//! resolver that adds those displacements up within a tick ([`resolver`],
//! [`world`]), and the actor whose movement follows from what the resolver
//! found ([`player`]). The shapes and what moves one off another are in
//! [`shape`].
//!
//! Every length of the playing field is a whole number of sub-units,
//! [`vector::UNIT`] of them to one screen unit, so that each constant of the
//! motion model is exact; times are whole nanoseconds.
//!
//! Around the physics stand the other rules of the game: the level as the
//! data place it ([`data`], [`world::Data`]), the cats, the things to pick up,
//! the screens and what the keys do on them ([`screen`]), the head-up display
//! ([`hud`]) and the list of high scores ([`high_score`]). Nothing here draws,
//! reads keys or touches a file: pictures are values of a type that the
//! caller chooses, and keys and times come in as plain values.

pub mod math;
pub mod vector;
pub mod shape;
pub mod data;
pub mod body;
pub mod obstacle;
pub mod spike;
pub mod resolver;
pub mod flicker;
pub mod player;
pub mod cat;
pub mod collectable;
pub mod goal;
pub mod npc;
pub mod world;
pub mod background;
pub mod camera;
pub mod engine;
pub mod font;
pub mod hud;
pub mod edit_text;
pub mod high_score;
pub mod screen;
pub mod utils;
