//! The core of a Monte Carlo path tracer, with its behaviour stated in
//! contracts and proved.
//!
//! - `scalar`: numbers by their bits, and the comparisons that decide a hit.
//! - `arith`: the rounded arithmetic that the host supplies.
//! - `math`: points, vectors, rays, spheres and planes.
//! - `bbox`: boxes and the tree that indexes a scene.
//! - `hull`: what adding objects does to the tree.
//! - `bbox_tree_stats`: figures on the shape of a tree.
//! - `trace`: the nearest hit of a ray.
//! - `material`: what a surface does to a light path.
//! - `scene`: objects and the camera.
//! - `render`: camera rays, light paths, jobs and the picture.
//! - `args`: the command line.

pub mod args;
pub mod arith;
pub mod bbox;
pub mod bbox_tree_stats;
pub mod hull;
pub mod material;
pub mod math;
pub mod render;
pub mod scalar;
pub mod scene;
pub mod trace;
