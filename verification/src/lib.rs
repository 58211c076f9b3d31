//! The building blocks of a path tracer that can be stated without
//! floating point, each with a contract that Verus proves: repositories that
//! let geometry, materials and textures refer to each other by handle, the
//! recursion that follows a ray from bounce to bounce, the scan that shades a
//! picture pixel by pixel, the choice of the closest hit, image textures, and
//! the framing of scene files.
//!
//! Rays, colours and distances are type parameters or plain integer keys
//! here; the program that renders supplies the arithmetic.

pub mod generics;
pub mod gui;
pub mod hittable;
pub mod id_source;
pub mod integrator;
pub mod logger;
pub mod render;
pub mod repo;
pub mod resource_manager;
pub mod scene_file;
pub mod texture;
pub mod vec_repo;
