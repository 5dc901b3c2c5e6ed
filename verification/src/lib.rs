//! The runtime core of a small real-time simulation engine: entities and their
//! components, the collision and raycast geometry, and the saved form of a world.
//!
//! Every scalar of the engine is a fixed-point number: an `i32` that counts
//! thousandths. A length of one unit is `1000`, an angle of two degrees is `2000`.
//! Sums and products of such numbers are taken in wider integers, so the geometry
//! is exact.
//!
//! Nothing here is global. The entities live in a [`gameobject::World`], the
//! registered types, the shared components and the link table in a
//! [`registry::Registry`], and a [`state::Engine`] holds both with the render
//! queue and the input of the frame. Handles are numbers: an entity is named by
//! its identifier, a shared component by its place among the shared components.
//!
//! Each type has a mathematical model, its view, and every function says in its
//! contract what it makes of the models. What holds of several functions together
//! stands in [`collision_laws`] and [`save_laws`], and beside the functions
//! themselves.
//!
//! The behaviour of components and static components that the host defines runs
//! in the host: a tick of the engine returns the ticks that are left to it.

pub mod bounds;
pub mod clipping;
pub mod collider;
pub mod collision_laws;
pub mod color;
pub mod component;
pub mod fixed;
pub mod frontend;
pub mod gameobject;
pub mod physics;
pub mod raycast;
pub mod registry;
pub mod save;
pub mod save_laws;
pub mod state;
pub mod static_component;
pub mod ui;
