//! Mesh data as a client hands it to the pipeline: positions with
//! optional normals and texture coordinates.
use crate::vec::{Vec2, Vec3};
use vstd::prelude::*;

verus! {

/// One mesh vertex.
#[derive(Debug, Clone, Copy)]
pub struct Vertex {
    pub position: Vec3,
    pub normal: Option<Vec3>,
    pub texture: Option<Vec2>,
}

/// A named batch of vertices; every three form a triangle.
pub struct Mesh {
    pub vertices: Vec<Vertex>,
    pub name: Option<String>,
}

/// What a mesh loader asks of the records it produces: they accept
/// an identifier and report their name. Implemented by users of the
/// library for their own asset types.
pub trait ILoaderData {
    fn assign_id(&mut self, id: u32);

    fn get_name(&self) -> String;
}

} // verus!
