//! Per-entity facets: the spatial transform and the visual descriptor.
//!
//! Coordinates and scales are fixed-point world units in thousandths; the
//! rotation is the in-plane roll angle in milliradians. Every rotation this
//! core produces stands for a unit rotation about the view axis, so the
//! renderer recovers a unit quaternion from the angle alone.
use vstd::prelude::*;

verus! {

/// A world-space vector in fixed-point thousandths of a unit.
#[derive(Clone, Copy, PartialEq, Eq, Structural, Debug)]
pub struct Vec3 {
    pub x: i64,
    pub y: i64,
    pub z: i64,
}

impl Vec3 {
    pub fn new(x: i64, y: i64, z: i64) -> (r: Vec3)
        ensures
            r == (Vec3 { x, y, z }),
    {
        Vec3 { x, y, z }
    }
}

/// World-space pose of an entity: position, in-plane roll angle in
/// milliradians, and per-axis scale.
#[derive(Clone, Copy, PartialEq, Eq, Structural, Debug)]
pub struct Transform {
    pub position: Vec3,
    pub rotation: i32,
    pub scale: Vec3,
}

impl Transform {
    pub fn new(position: Vec3, rotation: i32, scale: Vec3) -> (r: Transform)
        ensures
            r == (Transform { position, rotation, scale }),
    {
        Transform { position, rotation, scale }
    }
}

/// Visual descriptor of an entity: asset names for the renderer and the
/// enable flag. `enabled == false` means "exists, simulated, not drawn".
#[derive(Debug)]
pub struct Drawable {
    pub model: String,
    pub texture: String,
    pub shader: String,
    pub enabled: bool,
}

impl Drawable {
    /// A fresh visual descriptor starts out enabled.
    pub fn new(model: String, texture: String, shader: String) -> (r: Drawable)
        ensures
            r.model == model,
            r.texture == texture,
            r.shader == shader,
            r.enabled,
    {
        Drawable { model, texture, shader, enabled: true }
    }
}

} // verus!
