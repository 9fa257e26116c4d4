//! Procedural triangle-fan geometry.
//!
//! A fan for a regular `n`-gon is one center vertex plus `n` perimeter
//! vertices on the circle of radius one half, and `n` triangles that all
//! share the center. Perimeter positions are kept symbolically as the exact
//! fraction of a full turn (`step / sides`); the rendering layer turns them
//! into coordinates with whatever trigonometry its target needs.

use vstd::prelude::*;
use vstd::arithmetic::div_mod::lemma_fundamental_div_mod_converse;
use crate::CoreError;

verus! {

/// Object-space position of a generated vertex.
#[derive(Clone, Copy, Debug, PartialEq, Eq, Structural)]
pub enum Position {
    /// The shared center of a fan, at the origin.
    Center,
    /// Perimeter vertex of an `sides`-gon at angle `2*pi*step / sides`
    /// on the circle of radius one half, in the z = 0 plane.
    Rim { step: u32, sides: u32 },
}

/// One generated vertex: a position and the id of the replicated entity it
/// belongs to. The id is assigned at generation time and never mutated.
#[derive(Clone, Copy, Debug, PartialEq, Eq, Structural)]
pub struct Vertex {
    pub position: Position,
    pub entity_id: u32,
}

/// Vertex `k` of the base fan for a regular `n`-gon: the center at `k == 0`,
/// perimeter vertex `k - 1` otherwise.
pub open spec fn fan_vertex(n: u32, k: int) -> Vertex {
    if k == 0 {
        Vertex { position: Position::Center, entity_id: 0 }
    } else {
        Vertex { position: Position::Rim { step: (k - 1) as u32, sides: n }, entity_id: 0 }
    }
}

/// Entry `m` of the base fan's index array: triangle `m / 3` is
/// `(center, t + 1, t + 2)`, except that the last triangle wraps back to
/// perimeter vertex 1 to close the fan.
pub open spec fn fan_index_at(n: u32, m: int) -> u32 {
    let t = m / 3;
    if m % 3 == 0 {
        0u32
    } else if m % 3 == 1 {
        (t + 1) as u32
    } else if t == n - 1 {
        1u32
    } else {
        (t + 2) as u32
    }
}

/// Vertex `k` of replica `id`: the base vertex with the entity id stamped.
pub open spec fn replicated_vertex(n: u32, id: int, k: int) -> Vertex {
    Vertex { position: fan_vertex(n, k).position, entity_id: id as u32 }
}

/// Entry `m` of replica `id`'s index block: the base entry shifted past the
/// `id * (n + 1)` vertices of the earlier replicas.
pub open spec fn replicated_index_at(n: u32, id: int, m: int) -> u32 {
    (fan_index_at(n, m) + id * (n + 1)) as u32
}

/// Builds the triangle fan of a regular polygon with `n` sides: the center
/// vertex, then the `n` perimeter vertices in angle order, and `3 * n`
/// indices forming the `n` triangles of the fan. Every vertex belongs to
/// entity 0. Fewer than three sides is rejected.
pub fn triangle_fan(n: u32) -> (res: Result<(Vec<Vertex>, Vec<u32>), CoreError>)
    ensures
        n < 3 <==> res == Err::<(Vec<Vertex>, Vec<u32>), CoreError>(
            CoreError::InvalidPolygonSides,
        ),
        n >= 3 <==> res is Ok,
        res matches Ok(p) ==> {
            &&& p.0@.len() == n + 1
            &&& forall|k: int| 0 <= k < p.0@.len() ==> p.0@[k] == fan_vertex(n, k)
            &&& p.1@.len() == 3 * n
            &&& forall|m: int| 0 <= m < p.1@.len() ==> p.1@[m] == fan_index_at(n, m)
            &&& forall|m: int| 0 <= m < p.1@.len() ==> p.1@[m] < n + 1
        },
{
    if n < 3 {
        return Err(CoreError::InvalidPolygonSides);
    }
    let mut vertices: Vec<Vertex> = Vec::new();
    let mut indices: Vec<u32> = Vec::new();
    vertices.push(Vertex { position: Position::Center, entity_id: 0 });
    vertices.push(Vertex { position: Position::Rim { step: 0, sides: n }, entity_id: 0 });

    let mut m: u32 = 1;
    while m < n
        invariant
            3 <= n,
            1 <= m <= n,
            vertices@.len() == m + 1,
            forall|k: int| 0 <= k < vertices@.len() ==> vertices@[k] == fan_vertex(n, k),
            indices@.len() == 3 * (m - 1),
            forall|j: int| 0 <= j < indices@.len() ==> indices@[j] == fan_index_at(n, j),
            forall|j: int| 0 <= j < indices@.len() ==> indices@[j] < n + 1,
        decreases n - m,
    {
        vertices.push(Vertex { position: Position::Rim { step: m, sides: n }, entity_id: 0 });
        indices.push(0);
        indices.push(m);
        indices.push(m + 1);
        proof {
            let base = 3 * (m - 1);
            assert(indices@[base] == fan_index_at(n, base)) by {
                assert(base % 3 == 0 && base / 3 == m - 1);
            }
            assert(indices@[base + 1] == fan_index_at(n, base + 1)) by {
                assert((base + 1) % 3 == 1 && (base + 1) / 3 == m - 1);
            }
            assert(indices@[base + 2] == fan_index_at(n, base + 2)) by {
                assert((base + 2) % 3 == 2 && (base + 2) / 3 == m - 1);
            }
        }
        m = m + 1;
    }
    indices.push(0);
    indices.push(n);
    indices.push(1);
    proof {
        let base = 3 * (n - 1);
        assert(indices@[base] == fan_index_at(n, base)) by {
            assert(base % 3 == 0 && base / 3 == n - 1);
        }
        assert(indices@[base + 1] == fan_index_at(n, base + 1)) by {
            assert((base + 1) % 3 == 1 && (base + 1) / 3 == n - 1);
        }
        assert(indices@[base + 2] == fan_index_at(n, base + 2)) by {
            assert((base + 2) % 3 == 2 && (base + 2) / 3 == n - 1);
        }
    }
    Ok((vertices, indices))
}

/// Builds `entities_number` copies of the `n`-gon triangle fan, back to
/// back: replica 0 first, then replica 1, and so on. Each copy's vertices
/// carry that replica's entity id, and each copy's indices are shifted past
/// the vertices of the earlier replicas, so every fan stays independently
/// indexable. Zero entities is rejected; the vertex and index layout of
/// each block is exactly the base fan's.
#[allow(non_snake_case)]
#[verifier::loop_isolation(false)]
pub fn triangle_fan_3D(n: u32, entities_number: u32) -> (res: Result<
    (Vec<Vertex>, Vec<u32>),
    CoreError,
>)
    requires
        (n + 1) * entities_number <= u32::MAX,
    ensures
        res == Err::<(Vec<Vertex>, Vec<u32>), CoreError>(CoreError::InvalidPolygonSides) <==> n
            < 3,
        res == Err::<(Vec<Vertex>, Vec<u32>), CoreError>(CoreError::InvalidEntityCount) <==> (n
            >= 3 && entities_number == 0),
        res is Ok <==> (n >= 3 && entities_number >= 1),
        res matches Ok(p) ==> {
            &&& p.0@.len() == (n + 1) * entities_number
            &&& forall|g: int|
                0 <= g < p.0@.len() ==> p.0@[g] == replicated_vertex(
                    n,
                    g / (n + 1) as int,
                    g % (n + 1) as int,
                )
            &&& p.1@.len() == 3 * n * entities_number
            &&& forall|g: int|
                0 <= g < p.1@.len() ==> p.1@[g] == replicated_index_at(
                    n,
                    g / (3 * n) as int,
                    g % (3 * n) as int,
                )
            &&& forall|g: int| 0 <= g < p.1@.len() ==> p.1@[g] < p.0@.len()
        },
{
    if n < 3 {
        return Err(CoreError::InvalidPolygonSides);
    }
    if entities_number == 0 {
        return Err(CoreError::InvalidEntityCount);
    }
    let (base_v, base_i) = match triangle_fan(n) {
        Ok(p) => p,
        Err(e) => {
            return Err(e);
        },
    };
    proof {
        assert((n as int + 1) * 1 <= (n as int + 1) * (entities_number as int))
            by (nonlinear_arith)
            requires
                1 <= entities_number as int,
                0 <= n as int,
        ;
    }
    let stride: u32 = n + 1;
    let mut out_v: Vec<Vertex> = Vec::new();
    let mut out_i: Vec<u32> = Vec::new();
    let mut id: u32 = 0;
    while id < entities_number
        invariant
            id <= entities_number,
            out_v@.len() == id * (n + 1),
            forall|g: int|
                0 <= g < out_v@.len() ==> out_v@[g] == replicated_vertex(
                    n,
                    g / (n + 1) as int,
                    g % (n + 1) as int,
                ),
            out_i@.len() == id * (3 * n),
            forall|g: int|
                0 <= g < out_i@.len() ==> out_i@[g] == replicated_index_at(
                    n,
                    g / (3 * n) as int,
                    g % (3 * n) as int,
                ),
            forall|g: int|
                0 <= g < out_i@.len() ==> out_i@[g] < (n + 1) * entities_number,
        decreases entities_number - id,
    {
        proof {
            assert((id as int) * (n as int + 1) + (n as int + 1) <= (n as int + 1)
                * (entities_number as int)) by (nonlinear_arith)
                requires
                    (id as int) < (entities_number as int),
                    0 <= n as int,
            ;
        }
        let offset: u32 = id * stride;
        let mut k: usize = 0;
        while k < base_v.len()
            invariant
                k <= base_v@.len(),
                out_v@.len() == id * (n + 1) + k,
                forall|g: int|
                    0 <= g < out_v@.len() ==> out_v@[g] == replicated_vertex(
                        n,
                        g / (n + 1) as int,
                        g % (n + 1) as int,
                    ),
            decreases base_v@.len() - k,
        {
            proof {
                lemma_fundamental_div_mod_converse(
                    out_v@.len() as int,
                    n as int + 1,
                    id as int,
                    k as int,
                );
            }
            out_v.push(Vertex { position: base_v[k].position, entity_id: id });
            k = k + 1;
        }
        let mut m: usize = 0;
        while m < base_i.len()
            invariant
                m <= base_i@.len(),
                out_i@.len() == id * (3 * n) + m,
                forall|g: int|
                    0 <= g < out_i@.len() ==> out_i@[g] == replicated_index_at(
                        n,
                        g / (3 * n) as int,
                        g % (3 * n) as int,
                    ),
                forall|g: int|
                    0 <= g < out_i@.len() ==> out_i@[g] < (n + 1) * entities_number,
            decreases base_i@.len() - m,
        {
            proof {
                lemma_fundamental_div_mod_converse(
                    out_i@.len() as int,
                    3 * n as int,
                    id as int,
                    m as int,
                );
            }
            out_i.push(base_i[m] + offset);
            m = m + 1;
        }
        proof {
            assert((id as int + 1) * (n as int + 1) == (id as int) * (n as int + 1) + (n as int
                + 1)) by (nonlinear_arith);
            assert((id as int + 1) * (3 * n as int) == (id as int) * (3 * n as int) + 3 * (
            n as int)) by (nonlinear_arith);
        }
        id = id + 1;
    }
    proof {
        assert((entities_number as int) * (n as int + 1) == (n as int + 1) * (
        entities_number as int)) by (nonlinear_arith);
        assert((entities_number as int) * (3 * n as int) == 3 * (n as int) * (
        entities_number as int)) by (nonlinear_arith);
    }
    Ok((out_v, out_i))
}

/// The regeneration policy's side count: once per elapsed whole second the
/// scene is rebuilt with `elapsed_seconds mod 6 + 3` sides, so the polygon
/// cycles through triangle up to octagon.
pub fn fan_sides(elapsed_seconds: u32) -> (n: u32)
    ensures
        n == elapsed_seconds % 6 + 3,
        3 <= n <= 8,
{
    elapsed_seconds % 6 + 3
}

/// Replica blocks are contiguous: in a vertex array laid out as
/// `triangle_fan_3D` describes, the vertex at global position
/// `id * (n + 1) + k` is vertex `k` of replica `id`, and so carries
/// `entity_id == id`.
pub proof fn lemma_replicated_vertex_block(
    n: u32,
    entities_number: u32,
    vs: Seq<Vertex>,
    id: int,
    k: int,
)
    requires
        3 <= n,
        1 <= entities_number,
        vs.len() == (n + 1) * entities_number,
        forall|g: int|
            0 <= g < vs.len() ==> vs[g] == replicated_vertex(
                n,
                g / (n + 1) as int,
                g % (n + 1) as int,
            ),
        0 <= id < entities_number,
        0 <= k < n + 1,
    ensures
        vs[id * (n + 1) + k] == replicated_vertex(n, id, k),
        vs[id * (n + 1) + k].entity_id == id,
{
    let g = id * (n + 1) + k;
    assert(0 <= g && g < (n + 1) * entities_number) by (nonlinear_arith)
        requires
            g == id * (n + 1) + k,
            0 <= id < entities_number,
            0 <= k < n + 1,
            3 <= n,
    ;
    lemma_fundamental_div_mod_converse(g, n as int + 1, id, k);
}

} // verus!
