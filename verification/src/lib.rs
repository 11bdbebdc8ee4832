//! A framework for screens of instruments that are described as data.
//!
//! A screen is described in JSON as a tree of components: dials, text fields, splits,
//! grids and grouping boxes. A [`Manager`] builds a [`Scene`] from such a description. In
//! each frame the scene is laid out anew in the zone of the window: every component offers
//! zones to its children, and learns from the zones they take for the frames to come.
//! [`Hooks`] override, for one frame, what named components are told. A click reaches the
//! components whose last drawn zones hold the pointer.
//!
//! All lengths and ratios are decimal fixed-point numbers: see [`scalar::Scalar`].

pub mod basic_components;
pub mod component;
pub mod frontend;
pub mod geometry_components;
pub mod helpers;
pub mod hooks;
pub mod json;
pub mod layout;
pub mod manager;
pub mod number;
pub mod scalar;
pub mod scene;
pub mod session;
pub mod telemetry;
pub mod text;
pub mod zone;

pub use crate::component::{Component, ComponentType, InternalData, PublicData};
pub use crate::hooks::{add_hook, Hooks};
pub use crate::manager::Manager;
pub use crate::scene::{ComponentInstance, Event, Layer, MouseButton, Scene};
pub use crate::zone::DrawZone;
