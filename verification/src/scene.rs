//! What is rendered, and from where.

use vstd::prelude::*;
use crate::bbox::Shape;
use crate::material::Material;
use crate::math::Point;
use crate::math::Vector;
use crate::scalar::Scalar;

verus! {

/// A shape with its surface.
#[derive(Clone, Copy, Debug)]
pub struct Object {
    pub shape: Shape,
    pub material: Material,
}

/// A flat list of objects, before they are indexed.
pub struct Scene {
    pub objs: Vec<Object>,
}

impl Scene {
    /// A scene without objects.
    pub fn new() -> (scene: Scene)
        ensures
            scene.objs@.len() == 0,
    {
        Scene { objs: Vec::new() }
    }
}

/// A thin-lens camera.
#[derive(Clone, Copy, Debug)]
pub struct Camera {
    /// Centre of the lens.
    pub look_from: Point,
    /// Unit viewing direction.
    pub direction: Vector,
    /// Unit vector that fixes which way is up; it need not be at right
    /// angles to `direction`.
    pub up: Vector,
    /// Full field of view across the width of the image, in radians.
    pub fov: Scalar,
    /// Width of the image over its height.
    pub aspect: Scalar,
    /// Radius of the lens.
    pub aperture: Scalar,
    /// Distance at which the image is sharp.
    pub focal_distance: Scalar,
}

} // verus!
