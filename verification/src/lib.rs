//! Declarative descriptions of container images: what to run, with which
//! arguments, mounts, environment and readiness conditions.
//!
//! A description is a plain value. `GenericImage` is built step by step, each
//! step taking the description and returning the changed one; the `Image`
//! trait is what a runtime driver reads a description through. Nothing here
//! starts a container or touches the outside world.
//!
//! Every function carries a contract over the description's mathematical
//! view, and `images::laws` states what follows for whole chains of steps.

pub mod entries;
pub mod image;
pub mod images;
pub mod string_map;
pub mod wait_for;

pub use image::Image;
pub use string_map::StringMap;
pub use wait_for::WaitFor;
