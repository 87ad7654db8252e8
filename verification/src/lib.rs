//! The simulation core of an asteroid-field arcade game.
//!
//! A ship that turns, thrusts and fires; bullets that fly and expire;
//! asteroids that drift, bounce off the borders and break in two when they
//! are hit. The crate holds the state of such a game and the rules that
//! change it. It opens no window, reads no key and draws nothing: a driver
//! hands it the time that has passed and the controls that are held, and
//! takes back the shapes to draw.
//!
//! All numbers are fixed-point ([`fixed::Fixed`]), so that every step is a
//! function on integers and can be stated and proved exactly. The one
//! thing that is not proved is the draw of random numbers
//! ([`random`]); the one thing that the driver has to supply besides time
//! and controls is the cosine and sine of the angles that the ship turns
//! by ([`transform::Rotation`]).
//!
//! The modules, leaves first:
//!
//! - [`fixed`]: fixed-point numbers with saturating arithmetic.
//! - [`transform`]: vectors, rotations and affine transforms.
//! - [`positioned`]: the position of an entity in pixels, from its
//!   transform and its anchor.
//! - [`shape`]: what a renderer is handed.
//! - [`controls`]: the controls that are held.
//! - [`ship`], [`bullet`], [`asteroid`]: the entities and their updates.
//! - [`collision`]: the test for a hit.
//! - [`random`]: the draw of random numbers.
//! - [`world`]: the state of the game and the tick.
//! - [`laws`]: what holds of every game.

pub mod fixed;
pub mod transform;
pub mod positioned;
pub mod shape;
pub mod controls;
pub mod ship;
pub mod bullet;
pub mod asteroid;
pub mod collision;
pub mod random;
pub mod world;
pub mod laws;
