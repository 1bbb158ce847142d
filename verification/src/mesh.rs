//! The shared tetrahedron base mesh every Sierpinski instance renders with.
//!
//! Vertex coordinates are exact integer coefficients of per-axis units: `x`
//! counts units of 1/2, `y` counts units of sqrt(6)/3, and `z` counts units of
//! sqrt(3)/6. In those units the four corners of a regular tetrahedron with
//! edge length 1 — (0, 0, 0), (1, 0, 0), (1/2, 0, sqrt(3)/2) and
//! (1/2, sqrt(6)/3, sqrt(3)/6) — are the integer triples (0,0,0), (2,0,0),
//! (1,0,3) and (1,1,1).

use crate::math::{Vec3, Vec3Model};
use vstd::prelude::*;

verus! {

/// Mathematical value of a [`BaseMesh`].
pub struct BaseMeshModel {
    pub vertices: Seq<Vec3Model>,
    pub indices: Seq<int>,
}

/// A triangle mesh: vertex positions plus flat triples of triangle vertex
/// indices. Built once and shared read-only by all fractal instances.
pub struct BaseMesh {
    pub vertices: Vec<Vec3>,
    pub indices: Vec<u32>,
}

impl View for BaseMesh {
    type V = BaseMeshModel;

    open spec fn view(&self) -> BaseMeshModel {
        BaseMeshModel {
            vertices: self.vertices@.map_values(|v: Vec3| v@),
            indices: self.indices@.map_values(|i: u32| i as int),
        }
    }
}

/// Every triangle index points at an existing vertex, and the indices come in
/// whole triples.
pub open spec fn mesh_wf(m: BaseMeshModel) -> bool {
    &&& forall|t: int| 0 <= t < m.indices.len() ==> 0 <= #[trigger] m.indices[t] < m.vertices.len()
    &&& m.indices.len() % 3 == 0
}

/// The canonical tetrahedron: 4 fixed vertices, 4 faces each wound once.
pub open spec fn tetrahedron_model() -> BaseMeshModel {
    BaseMeshModel {
        vertices: seq![
            Vec3Model { x: 0, y: 0, z: 0 },
            Vec3Model { x: 2, y: 0, z: 0 },
            Vec3Model { x: 1, y: 0, z: 3 },
            Vec3Model { x: 1, y: 1, z: 1 },
        ],
        indices: seq![0, 1, 2, 0, 2, 3, 0, 3, 1, 1, 3, 2],
    }
}

/// Builds the one reusable tetrahedron mesh.
pub struct BaseMeshBuilder {}

impl BaseMeshBuilder {
    /// Constructs the canonical tetrahedron: exactly 4 vertices at fixed
    /// positions and 4 triangles (12 indices) covering every face once. Pure
    /// and deterministic — the result is pinned to [`tetrahedron_model`], so
    /// any two invocations are identical.
    pub fn build_tetrahedron() -> (m: BaseMesh)
        ensures
            m@ == tetrahedron_model(),
            mesh_wf(m@),
            m@.vertices.len() == 4,
            m@.indices.len() == 12,
    {
        let mut vertices: Vec<Vec3> = Vec::new();
        vertices.push(Vec3 { x: 0, y: 0, z: 0 });
        vertices.push(Vec3 { x: 2, y: 0, z: 0 });
        vertices.push(Vec3 { x: 1, y: 0, z: 3 });
        vertices.push(Vec3 { x: 1, y: 1, z: 1 });
        let mut indices: Vec<u32> = Vec::new();
        indices.push(0);
        indices.push(1);
        indices.push(2);
        indices.push(0);
        indices.push(2);
        indices.push(3);
        indices.push(0);
        indices.push(3);
        indices.push(1);
        indices.push(1);
        indices.push(3);
        indices.push(2);
        let m = BaseMesh { vertices, indices };
        proof {
            assert(m@.vertices =~= tetrahedron_model().vertices);
            assert(m@.indices =~= tetrahedron_model().indices);
        }
        m
    }
}

} // verus!
