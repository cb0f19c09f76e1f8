use vstd::prelude::*;
use vstd::arithmetic::div_mod::lemma_fundamental_div_mod_converse;

verus! {

/// Corner `j` (of six) of the two triangles `(0, 1, 2)` and `(0, 2, 3)` that
/// cover a quad with corners `0..4`.
pub open spec fn quad_corner(j: int) -> int {
    if j == 0 {
        0
    } else if j == 1 {
        1
    } else if j == 2 {
        2
    } else if j == 3 {
        0
    } else if j == 4 {
        2
    } else {
        3
    }
}

/// Index `i` of the cube's index buffer: face `i / 6` owns vertices
/// `4 * face .. 4 * face + 4`.
pub open spec fn cube_index(i: int) -> int {
    4 * (i / 6) + quad_corner(i % 6)
}

/// Number of vertices of the cube mesh: four per face.
pub open spec fn cube_vertex_count() -> int {
    24
}

/// Index buffer of the unit cube: six faces, two triangles each.
pub fn cube_indices() -> (indices: Vec<u32>)
    ensures
        indices.len() == 36,
        forall|i: int| 0 <= i < 36 ==> indices@[i] == cube_index(i),
        forall|i: int| 0 <= i < 36 ==> indices@[i] < cube_vertex_count(),
{
    let mut indices: Vec<u32> = Vec::new();
    let mut face: u32 = 0;
    while face < 6
        invariant
            face <= 6,
            indices.len() == 6 * face,
            forall|i: int| 0 <= i < indices.len() ==> indices@[i] == cube_index(i),
        decreases 6 - face,
    {
        let base = 4 * face;
        indices.push(base);
        indices.push(base + 1);
        indices.push(base + 2);
        indices.push(base);
        indices.push(base + 2);
        indices.push(base + 3);
        proof {
            assert forall|j: int| 0 <= j < 6 implies #[trigger] cube_index(6 * face + j) == 4 * face + quad_corner(j) by {
                lemma_fundamental_div_mod_converse(6 * face + j, 6, face as int, j);
            }
            assert(cube_index(6 * face + 0) == 4 * face + quad_corner(0));
            assert(cube_index(6 * face + 1) == 4 * face + quad_corner(1));
            assert(cube_index(6 * face + 2) == 4 * face + quad_corner(2));
            assert(cube_index(6 * face + 3) == 4 * face + quad_corner(3));
            assert(cube_index(6 * face + 4) == 4 * face + quad_corner(4));
            assert(cube_index(6 * face + 5) == 4 * face + quad_corner(5));
        }
        face = face + 1;
    }
    proof {
        assert forall|i: int| 0 <= i < 36 implies indices@[i] < cube_vertex_count() by {
            assert(indices@[i] == cube_index(i));
            assert(0 <= i / 6 <= 5);
            assert(0 <= i % 6 < 6);
        }
    }
    indices
}

/// Corner `j` (of six) of the two triangles of sphere cell `(ring, sector)`,
/// where each ring holds `stride` vertices.
pub open spec fn sphere_corner(ring: int, sector: int, stride: int, j: int) -> int {
    let top = ring * stride + sector;
    let bottom = top + stride;
    if j == 0 {
        top
    } else if j == 1 {
        bottom + 1
    } else if j == 2 {
        bottom
    } else if j == 3 {
        top
    } else if j == 4 {
        top + 1
    } else {
        bottom + 1
    }
}

/// Index `i` of the index buffer of a sphere with `sectors` sectors: cell
/// `i / 6`, taken ring by ring.
pub open spec fn sphere_index(i: int, sectors: int) -> int {
    let cell = i / 6;
    sphere_corner(cell / sectors, cell % sectors, sectors + 1, i % 6)
}

/// Number of vertices of a sphere mesh: `rings + 1` rings of `sectors + 1`.
pub open spec fn sphere_vertex_count(rings: int, sectors: int) -> int {
    (rings + 1) * (sectors + 1)
}

/// The orientation of the triangle `(a, b, c)` of sphere vertices, each
/// placed at (sector, ring) = `(v % stride, v / stride)` on the sphere's
/// parameter grid: positive when the corners turn the same way as the first
/// cell's triangles, negative for the opposite winding.
pub open spec fn grid_turn(a: int, b: int, c: int, stride: int) -> int {
    let ax = a % stride;
    let ay = a / stride;
    let bx = b % stride;
    let by = b / stride;
    let cx = c % stride;
    let cy = c / stride;
    (bx - ax) * (cy - ay) - (by - ay) * (cx - ax)
}

/// Corner `j` of cell `(ring, sector)` sits on ring `ring` or `ring + 1`
/// and sector `sector` or `sector + 1` of the vertex grid.
proof fn lemma_sphere_corner_grid(ring: int, sector: int, sectors: int, j: int)
    requires
        0 <= ring,
        0 <= sector < sectors,
        0 <= j < 6,
    ensures
        sphere_corner(ring, sector, sectors + 1, j) / (sectors + 1) == ring + (if j == 1 || j == 2
            || j == 5 { 1int } else { 0int }),
        sphere_corner(ring, sector, sectors + 1, j) % (sectors + 1) == sector + (if j == 1 || j == 4
            || j == 5 { 1int } else { 0int }),
{
    let st = sectors + 1;
    let top = ring * st + sector;
    assert(top + st == (ring + 1) * st + sector) by (nonlinear_arith)
        requires
            top == ring * st + sector,
    ;
    lemma_fundamental_div_mod_converse(top, st, ring, sector);
    lemma_fundamental_div_mod_converse(top + 1, st, ring, sector + 1);
    lemma_fundamental_div_mod_converse(top + st, st, ring + 1, sector);
    lemma_fundamental_div_mod_converse(top + st + 1, st, ring + 1, sector + 1);
}

/// Vertex `v` lies on the quad of cell `cell` (taken ring by ring, `sectors`
/// cells per ring): on ring `cell / sectors` or the next one, and on sector
/// `cell % sectors` or the next one, of a grid with `sectors + 1` vertices
/// per ring.
pub open spec fn in_cell_quad(v: int, cell: int, sectors: int) -> bool {
    &&& v / (sectors + 1) == cell / sectors || v / (sectors + 1) == cell / sectors + 1
    &&& v % (sectors + 1) == cell % sectors || v % (sectors + 1) == cell % sectors + 1
}

/// Every index of the sphere's buffer lies on the quad of its own cell: the
/// cell `i / 6` taken ring by ring, `sectors` cells per ring.
pub proof fn lemma_sphere_index_in_cell(i: int, rings: int, sectors: int)
    requires
        rings >= 0,
        sectors >= 0,
        0 <= i < rings * sectors * 6,
    ensures
        in_cell_quad(sphere_index(i, sectors), i / 6, sectors),
        i % 6 == 0 ==> sphere_index(i, sectors) == ((i / 6) / sectors) * (sectors + 1) + (i / 6)
            % sectors,
{
    assert(sectors > 0) by (nonlinear_arith)
        requires
            0 <= i < rings * sectors * 6,
            rings >= 0,
            sectors >= 0,
    ;
    let cell = i / 6;
    lemma_sphere_corner_grid(cell / sectors, cell % sectors, sectors, i % 6);
}

/// Both triangles of every sphere cell wind the same way on the vertex grid.
pub proof fn lemma_sphere_winding(t: int, rings: int, sectors: int)
    requires
        rings >= 0,
        sectors >= 0,
        0 <= t < rings * sectors * 2,
    ensures
        grid_turn(
            sphere_index(3 * t, sectors),
            sphere_index(3 * t + 1, sectors),
            sphere_index(3 * t + 2, sectors),
            sectors + 1,
        ) == 1,
{
    assert(sectors > 0) by (nonlinear_arith)
        requires
            0 <= t < rings * sectors * 2,
            rings >= 0,
            sectors >= 0,
    ;
    let cell = t / 2;
    let h = t % 2;
    lemma_fundamental_div_mod_converse(3 * t, 6, cell, 3 * h);
    lemma_fundamental_div_mod_converse(3 * t + 1, 6, cell, 3 * h + 1);
    lemma_fundamental_div_mod_converse(3 * t + 2, 6, cell, 3 * h + 2);
    let ring = cell / sectors;
    let sector = cell % sectors;
    lemma_sphere_corner_grid(ring, sector, sectors, 3 * h);
    lemma_sphere_corner_grid(ring, sector, sectors, 3 * h + 1);
    lemma_sphere_corner_grid(ring, sector, sectors, 3 * h + 2);
    let st = sectors + 1;
    let a = sphere_index(3 * t, sectors);
    let b = sphere_index(3 * t + 1, sectors);
    let c = sphere_index(3 * t + 2, sectors);
    assert(a == sphere_corner(ring, sector, st, 3 * h));
    assert(b == sphere_corner(ring, sector, st, 3 * h + 1));
    assert(c == sphere_corner(ring, sector, st, 3 * h + 2));
    if h == 0 {
        assert(a / st == ring && a % st == sector);
        assert(b / st == ring + 1 && b % st == sector + 1);
        assert(c / st == ring + 1 && c % st == sector);
        assert((b % st - a % st) * (c / st - a / st) == 1) by (nonlinear_arith)
            requires
                b % st - a % st == 1,
                c / st - a / st == 1,
        ;
        assert((b / st - a / st) * (c % st - a % st) == 0) by (nonlinear_arith)
            requires
                b / st - a / st == 0 || c % st - a % st == 0,
        ;
    } else {
        assert(a / st == ring && a % st == sector);
        assert(b / st == ring && b % st == sector + 1);
        assert(c / st == ring + 1 && c % st == sector + 1);
        assert((b % st - a % st) * (c / st - a / st) == 1) by (nonlinear_arith)
            requires
                b % st - a % st == 1,
                c / st - a / st == 1,
        ;
        assert((b / st - a / st) * (c % st - a % st) == 0) by (nonlinear_arith)
            requires
                b / st - a / st == 0 || c % st - a % st == 0,
        ;
    }
}

/// Each sphere cell is split along the diagonal from its own corner to the
/// opposite corner on the next ring: both triangles start at the cell's
/// corner and share that diagonal.
pub proof fn lemma_sphere_diagonal(c: int, rings: int, sectors: int)
    requires
        rings >= 0,
        sectors >= 0,
        0 <= c < rings * sectors,
    ensures
        sphere_index(6 * c + 3, sectors) == sphere_index(6 * c, sectors),
        sphere_index(6 * c + 1, sectors) == sphere_index(6 * c, sectors) + sectors + 2,
        sphere_index(6 * c + 5, sectors) == sphere_index(6 * c + 1, sectors),
{
    lemma_fundamental_div_mod_converse(6 * c, 6, c, 0);
    lemma_fundamental_div_mod_converse(6 * c + 1, 6, c, 1);
    lemma_fundamental_div_mod_converse(6 * c + 3, 6, c, 3);
    lemma_fundamental_div_mod_converse(6 * c + 5, 6, c, 5);
}

/// Index buffer of a UV sphere whose vertices are laid out ring by ring,
/// `sectors + 1` per ring: two triangles per cell between adjacent rings.
pub fn sphere_indices(rings: u32, sectors: u32) -> (indices: Vec<u32>)
    requires
        (rings + 1) * (sectors + 1) <= u32::MAX,
        rings * sectors * 6 <= u32::MAX,
    ensures
        indices.len() == rings * sectors * 6,
        forall|i: int| 0 <= i < indices.len() ==> indices@[i] == sphere_index(i, sectors as int),
        forall|i: int|
            0 <= i < indices.len() ==> indices@[i] < sphere_vertex_count(rings as int, sectors as int),
        forall|i: int|
            0 <= i < indices.len() ==> in_cell_quad(#[trigger] indices@[i] as int, i / 6, sectors as int),
        forall|c: int|
            0 <= c < rings * sectors ==> #[trigger] indices@[6 * c] == (c / (sectors as int)) * (
            sectors as int + 1) + c % (sectors as int),
        forall|c: int|
            0 <= c < rings * sectors ==> #[trigger] indices@[6 * c + 3] == indices@[6 * c] && indices@[6
                * c + 1] == indices@[6 * c] + sectors + 2 && indices@[6 * c + 5] == indices@[6 * c + 1],
        forall|t: int|
            0 <= t < rings * sectors * 2 ==> grid_turn(
                #[trigger] indices@[3 * t] as int,
                indices@[3 * t + 1] as int,
                indices@[3 * t + 2] as int,
                sectors as int + 1,
            ) == 1,
{
    proof {
        assert(sectors + 1 <= (rings + 1) * (sectors + 1)) by (nonlinear_arith);
    }
    let stride = sectors + 1;
    let mut indices: Vec<u32> = Vec::new();
    let ghost bound = sphere_vertex_count(rings as int, sectors as int);
    let mut ring: u32 = 0;
    while ring < rings
        invariant
            ring <= rings,
            stride == sectors + 1,
            bound == (rings + 1) * (sectors + 1),
            bound <= u32::MAX,
            rings * sectors * 6 <= u32::MAX,
            indices.len() == 6 * (ring * sectors),
            forall|i: int| 0 <= i < indices.len() ==> indices@[i] == sphere_index(i, sectors as int),
            forall|i: int| 0 <= i < indices.len() ==> indices@[i] < bound,
        decreases rings - ring,
    {
        let mut sector: u32 = 0;
        while sector < sectors
            invariant
                ring < rings,
                sector <= sectors,
                stride == sectors + 1,
                bound == (rings + 1) * (sectors + 1),
                bound <= u32::MAX,
                rings * sectors * 6 <= u32::MAX,
                indices.len() == 6 * (ring * sectors + sector),
                forall|i: int| 0 <= i < indices.len() ==> indices@[i] == sphere_index(i, sectors as int),
                forall|i: int| 0 <= i < indices.len() ==> indices@[i] < bound,
            decreases sectors - sector,
        {
            proof {
                assert(ring * stride + sector + stride + 1 < bound) by (nonlinear_arith)
                    requires
                        ring < rings,
                        sector < sectors,
                        stride == sectors + 1,
                        bound == (rings + 1) * (sectors + 1),
                ;
            }
            let top = ring * stride + sector;
            let bottom = top + stride;
            let ghost cell = ring * sectors + sector;
            let ghost start = indices.len() as int;
            proof {
                assert(start == 6 * cell);
                lemma_fundamental_div_mod_converse(cell, sectors as int, ring as int, sector as int);
                assert forall|j: int| 0 <= j < 6 implies #[trigger] sphere_index(6 * cell + j, sectors as int)
                    == sphere_corner(ring as int, sector as int, stride as int, j) by {
                    lemma_fundamental_div_mod_converse(6 * cell + j, 6, cell, j);
                }
                assert(sphere_index(start, sectors as int) == top);
                assert(sphere_index(start + 1, sectors as int) == bottom + 1);
                assert(sphere_index(start + 2, sectors as int) == bottom);
                assert(sphere_index(start + 3, sectors as int) == top);
                assert(sphere_index(start + 4, sectors as int) == top + 1);
                assert(sphere_index(start + 5, sectors as int) == bottom + 1);
                assert(6 * (ring * sectors + sector + 1) <= rings * sectors * 6) by (nonlinear_arith)
                    requires
                        ring < rings,
                        sector < sectors,
                ;
            }
            indices.push(top);
            indices.push(bottom + 1);
            indices.push(bottom);
            indices.push(top);
            indices.push(top + 1);
            indices.push(bottom + 1);
            sector = sector + 1;
        }
        proof {
            assert(6 * (ring * sectors + sectors) == 6 * ((ring + 1) * sectors)) by (nonlinear_arith);
        }
        ring = ring + 1;
    }
    proof {
        assert(6 * (rings * sectors) == rings * sectors * 6) by (nonlinear_arith);
        assert forall|i: int| 0 <= i < indices.len() implies in_cell_quad(
            #[trigger] indices@[i] as int,
            i / 6,
            sectors as int,
        ) by {
            lemma_sphere_index_in_cell(i, rings as int, sectors as int);
        }
        assert forall|c: int| 0 <= c < rings * sectors implies #[trigger] indices@[6 * c] == (c / (
        sectors as int)) * (sectors as int + 1) + c % (sectors as int) by {
            assert(6 * c < rings * sectors * 6) by (nonlinear_arith)
                requires
                    0 <= c < rings * sectors,
            ;
            lemma_fundamental_div_mod_converse(6 * c, 6, c, 0);
            lemma_sphere_index_in_cell(6 * c, rings as int, sectors as int);
        }
        assert forall|c: int| 0 <= c < rings * sectors implies #[trigger] indices@[6 * c + 3]
            == indices@[6 * c] && indices@[6 * c + 1] == indices@[6 * c] + sectors + 2 && indices@[6
            * c + 5] == indices@[6 * c + 1] by {
            assert(6 * c + 5 < rings * sectors * 6) by (nonlinear_arith)
                requires
                    0 <= c < rings * sectors,
            ;
            lemma_sphere_diagonal(c, rings as int, sectors as int);
        }
        assert forall|t: int| 0 <= t < rings * sectors * 2 implies grid_turn(
            #[trigger] indices@[3 * t] as int,
            indices@[3 * t + 1] as int,
            indices@[3 * t + 2] as int,
            sectors as int + 1,
        ) == 1 by {
            assert(3 * t + 2 < rings * sectors * 6) by (nonlinear_arith)
                requires
                    0 <= t < rings * sectors * 2,
            ;
            lemma_sphere_winding(t, rings as int, sectors as int);
        }
    }
    indices
}


/// Number of vertices of the hexagonal prism mesh: a centre and six corners
/// on each cap, then four vertices for each of the six side walls.
pub open spec fn prism_vertex_count() -> int {
    38
}

/// Index `i` of the hexagonal prism's index buffer. Vertex layout: top
/// centre 0, top corners 1..7, bottom centre 7, bottom corners 8..14, then
/// side wall `s` at `14 + 4 * s`: top of corner `s`, bottom of corner `s`,
/// bottom of corner `s + 1`, top of corner `s + 1`.
pub open spec fn prism_index(i: int) -> int {
    if i < 18 {
        let t = i / 3;
        let c = i % 3;
        if c == 0 {
            0
        } else if c == 1 {
            1 + (t + 1) % 6
        } else {
            1 + t
        }
    } else if i < 36 {
        let t = (i - 18) / 3;
        let c = (i - 18) % 3;
        if c == 0 {
            7
        } else if c == 1 {
            8 + t
        } else {
            8 + (t + 1) % 6
        }
    } else {
        let b = 14 + 4 * ((i - 36) / 6);
        let c = (i - 36) % 6;
        if c == 0 {
            b
        } else if c == 1 {
            b + 2
        } else if c == 2 {
            b + 1
        } else if c == 3 {
            b
        } else if c == 4 {
            b + 3
        } else {
            b + 2
        }
    }
}

/// Index `i` of the hexagonal prism's index buffer with the opposite
/// winding, over the same vertex layout as `prism_index`.
pub open spec fn prism_index_mirrored(i: int) -> int {
    if i < 18 {
        let t = i / 3;
        let c = i % 3;
        if c == 0 {
            0
        } else if c == 1 {
            1 + t
        } else {
            1 + (t + 1) % 6
        }
    } else if i < 36 {
        let t = (i - 18) / 3;
        let c = (i - 18) % 3;
        if c == 0 {
            7
        } else if c == 1 {
            8 + (t + 1) % 6
        } else {
            8 + t
        }
    } else {
        let b = 14 + 4 * ((i - 36) / 6);
        let c = (i - 36) % 6;
        if c == 0 {
            b
        } else if c == 1 {
            b + 1
        } else if c == 2 {
            b + 2
        } else if c == 3 {
            b
        } else if c == 4 {
            b + 2
        } else {
            b + 3
        }
    }
}

/// x coordinate of hexagon corner `k` (at angle `60 * k` degrees), doubled:
/// `2 * cos`.
pub open spec fn corner_x(k: int) -> int {
    if k == 0 {
        2
    } else if k == 1 {
        1
    } else if k == 2 {
        -1
    } else if k == 3 {
        -2
    } else if k == 4 {
        -1
    } else {
        1
    }
}

/// z coordinate of hexagon corner `k`, as `2 * sin / sqrt(3)`: the corners'
/// true positions stretched along z by a positive factor, which changes
/// no triangle's orientation.
pub open spec fn corner_z(k: int) -> int {
    if k == 0 {
        0
    } else if k == 1 {
        1
    } else if k == 2 {
        1
    } else if k == 3 {
        0
    } else if k == 4 {
        -1
    } else {
        -1
    }
}

/// Position (scaled as in `corner_x` and `corner_z`, `y = 1` on the top cap,
/// `-1` on the bottom) of vertex `v` of the prism, in the vertex layout
/// described at `prism_index`.
pub open spec fn prism_vertex(v: int) -> (int, int, int) {
    if v == 0 {
        (0, 1, 0)
    } else if v < 7 {
        (corner_x(v - 1), 1, corner_z(v - 1))
    } else if v == 7 {
        (0, -1, 0)
    } else if v < 14 {
        (corner_x(v - 8), -1, corner_z(v - 8))
    } else {
        let s = (v - 14) / 4;
        let j = (v - 14) % 4;
        let k = if j == 0 || j == 1 { s } else { (s + 1) % 6 };
        let y = if j == 0 || j == 3 { 1int } else { -1int };
        (corner_x(k), y, corner_z(k))
    }
}

/// For the triangle `(a, b, c)` of prism vertices: the dot product of its
/// right-hand normal `(b - a) x (c - a)` with its centroid (times three).
/// The prism is convex and centred on the origin, so this is positive when
/// the triangle winds counter-clockwise seen from outside, and negative
/// when it winds clockwise.
pub open spec fn prism_facing(a: int, b: int, c: int) -> int {
    let (ax, ay, az) = prism_vertex(a);
    let (bx, by, bz) = prism_vertex(b);
    let (cx, cy, cz) = prism_vertex(c);
    let (ux, uy, uz) = (bx - ax, by - ay, bz - az);
    let (wx, wy, wz) = (cx - ax, cy - ay, cz - az);
    let nx = uy * wz - uz * wy;
    let ny = uz * wx - ux * wz;
    let nz = ux * wy - uy * wx;
    nx * (ax + bx + cx) + ny * (ay + by + cy) + nz * (az + bz + cz)
}

/// The prism turned by one corner (60 degrees) about its axis: where vertex
/// `v` goes.
pub open spec fn prism_turn(v: int) -> int {
    if v == 0 || v == 7 {
        v
    } else if v < 7 {
        1 + v % 6
    } else if v < 14 {
        8 + (v - 7) % 6
    } else {
        14 + 4 * (((v - 14) / 4 + 1) % 6) + (v - 14) % 4
    }
}

/// `prism_facing` of three vertices whose positions are known.
proof fn lemma_facing_at(
    a: int,
    b: int,
    c: int,
    ax: int,
    ay: int,
    az: int,
    bx: int,
    by: int,
    bz: int,
    cx: int,
    cy: int,
    cz: int,
)
    requires
        prism_vertex(a) == (ax, ay, az),
        prism_vertex(b) == (bx, by, bz),
        prism_vertex(c) == (cx, cy, cz),
    ensures
        prism_facing(a, b, c) == ((by - ay) * (cz - az) - (bz - az) * (cy - ay)) * (ax + bx + cx) + ((
        bz - az) * (cx - ax) - (bx - ax) * (cz - az)) * (ay + by + cy) + ((bx - ax) * (cy - ay) - (by
            - ay) * (cx - ax)) * (az + bz + cz),
{
}

/// Each cap triangle is a slice of its cap's fan: it joins the cap's centre
/// to two neighbouring corners, in the same turning order for all six
/// triangles of a cap (seen from above, opposite on the two caps, since each
/// cap faces outward).
pub proof fn lemma_prism_fans(t: int)
    requires
        0 <= t < 12,
    ensures
        prism_index(3 * t) == (if t < 6 { 0int } else { 7int }),
        t < 6 ==> prism_index(3 * t + 1) == prism_turn(prism_index(3 * t + 2)),
        t >= 6 ==> prism_index(3 * t + 2) == prism_turn(prism_index(3 * t + 1)),
        prism_index_mirrored(3 * t) == (if t < 6 { 0int } else { 7int }),
        t < 6 ==> prism_index_mirrored(3 * t + 2) == prism_turn(prism_index_mirrored(3 * t + 1)),
        t >= 6 ==> prism_index_mirrored(3 * t + 1) == prism_turn(prism_index_mirrored(3 * t + 2)),
        prism_index(3 * t + 2) != 0 && prism_index(3 * t + 2) != 7,
{
    if t == 0 {
    } else if t == 1 {
    } else if t == 2 {
    } else if t == 3 {
    } else if t == 4 {
    } else if t == 5 {
    } else if t == 6 {
    } else if t == 7 {
    } else if t == 8 {
    } else if t == 9 {
    } else if t == 10 {
    } else {
    }
}

/// Every triangle of the prism winds counter-clockwise seen from outside.
pub proof fn lemma_prism_outward(t: int)
    requires
        0 <= t < 24,
    ensures
        prism_facing(prism_index(3 * t), prism_index(3 * t + 1), prism_index(3 * t + 2)) > 0,
{
    if t == 0 {
        assert(prism_index(0) == 0);
        assert(prism_index(1) == 2);
        assert(prism_index(2) == 1);
        assert(prism_vertex(0) == (0int, 1int, 0int));
        assert(prism_vertex(1) == (2int, 1int, 0int));
        assert(prism_vertex(2) == (1int, 1int, 1int));
        lemma_facing_at(0, 2, 1, 0int, 1int, 0int, 1int, 1int, 1int, 2int, 1int, 0int);
        assert(prism_facing(0, 2, 1) == 6) by (nonlinear_arith)
            requires
                prism_facing(0, 2, 1) == (((1int) - (1int)) * ((0int) - (0int)) - ((1int) - (0int)) * ((1int) - (1int))) * ((0int) + (1int) + (2int)) + (((1int) - (0int)) * ((2int) - (0int)) - ((1int) - (0int)) * ((0int) - (0int))) * ((1int) + (1int) + (1int)) + (((1int) - (0int)) * ((1int) - (1int)) - ((1int) - (1int)) * ((2int) - (0int))) * ((0int) + (1int) + (0int)),
        ;
    } else if t == 1 {
        assert(prism_index(3) == 0);
        assert(prism_index(4) == 3);
        assert(prism_index(5) == 2);
        assert(prism_vertex(0) == (0int, 1int, 0int));
        assert(prism_vertex(2) == (1int, 1int, 1int));
        assert(prism_vertex(3) == (-1int, 1int, 1int));
        lemma_facing_at(0, 3, 2, 0int, 1int, 0int, -1int, 1int, 1int, 1int, 1int, 1int);
        assert(prism_facing(0, 3, 2) == 6) by (nonlinear_arith)
            requires
                prism_facing(0, 3, 2) == (((1int) - (1int)) * ((1int) - (0int)) - ((1int) - (0int)) * ((1int) - (1int))) * ((0int) + (-1int) + (1int)) + (((1int) - (0int)) * ((1int) - (0int)) - ((-1int) - (0int)) * ((1int) - (0int))) * ((1int) + (1int) + (1int)) + (((-1int) - (0int)) * ((1int) - (1int)) - ((1int) - (1int)) * ((1int) - (0int))) * ((0int) + (1int) + (1int)),
        ;
    } else if t == 2 {
        assert(prism_index(6) == 0);
        assert(prism_index(7) == 4);
        assert(prism_index(8) == 3);
        assert(prism_vertex(0) == (0int, 1int, 0int));
        assert(prism_vertex(3) == (-1int, 1int, 1int));
        assert(prism_vertex(4) == (-2int, 1int, 0int));
        lemma_facing_at(0, 4, 3, 0int, 1int, 0int, -2int, 1int, 0int, -1int, 1int, 1int);
        assert(prism_facing(0, 4, 3) == 6) by (nonlinear_arith)
            requires
                prism_facing(0, 4, 3) == (((1int) - (1int)) * ((1int) - (0int)) - ((0int) - (0int)) * ((1int) - (1int))) * ((0int) + (-2int) + (-1int)) + (((0int) - (0int)) * ((-1int) - (0int)) - ((-2int) - (0int)) * ((1int) - (0int))) * ((1int) + (1int) + (1int)) + (((-2int) - (0int)) * ((1int) - (1int)) - ((1int) - (1int)) * ((-1int) - (0int))) * ((0int) + (0int) + (1int)),
        ;
    } else if t == 3 {
        assert(prism_index(9) == 0);
        assert(prism_index(10) == 5);
        assert(prism_index(11) == 4);
        assert(prism_vertex(0) == (0int, 1int, 0int));
        assert(prism_vertex(4) == (-2int, 1int, 0int));
        assert(prism_vertex(5) == (-1int, 1int, -1int));
        lemma_facing_at(0, 5, 4, 0int, 1int, 0int, -1int, 1int, -1int, -2int, 1int, 0int);
        assert(prism_facing(0, 5, 4) == 6) by (nonlinear_arith)
            requires
                prism_facing(0, 5, 4) == (((1int) - (1int)) * ((0int) - (0int)) - ((-1int) - (0int)) * ((1int) - (1int))) * ((0int) + (-1int) + (-2int)) + (((-1int) - (0int)) * ((-2int) - (0int)) - ((-1int) - (0int)) * ((0int) - (0int))) * ((1int) + (1int) + (1int)) + (((-1int) - (0int)) * ((1int) - (1int)) - ((1int) - (1int)) * ((-2int) - (0int))) * ((0int) + (-1int) + (0int)),
        ;
    } else if t == 4 {
        assert(prism_index(12) == 0);
        assert(prism_index(13) == 6);
        assert(prism_index(14) == 5);
        assert(prism_vertex(0) == (0int, 1int, 0int));
        assert(prism_vertex(5) == (-1int, 1int, -1int));
        assert(prism_vertex(6) == (1int, 1int, -1int));
        lemma_facing_at(0, 6, 5, 0int, 1int, 0int, 1int, 1int, -1int, -1int, 1int, -1int);
        assert(prism_facing(0, 6, 5) == 6) by (nonlinear_arith)
            requires
                prism_facing(0, 6, 5) == (((1int) - (1int)) * ((-1int) - (0int)) - ((-1int) - (0int)) * ((1int) - (1int))) * ((0int) + (1int) + (-1int)) + (((-1int) - (0int)) * ((-1int) - (0int)) - ((1int) - (0int)) * ((-1int) - (0int))) * ((1int) + (1int) + (1int)) + (((1int) - (0int)) * ((1int) - (1int)) - ((1int) - (1int)) * ((-1int) - (0int))) * ((0int) + (-1int) + (-1int)),
        ;
    } else if t == 5 {
        assert(prism_index(15) == 0);
        assert(prism_index(16) == 1);
        assert(prism_index(17) == 6);
        assert(prism_vertex(0) == (0int, 1int, 0int));
        assert(prism_vertex(1) == (2int, 1int, 0int));
        assert(prism_vertex(6) == (1int, 1int, -1int));
        lemma_facing_at(0, 1, 6, 0int, 1int, 0int, 2int, 1int, 0int, 1int, 1int, -1int);
        assert(prism_facing(0, 1, 6) == 6) by (nonlinear_arith)
            requires
                prism_facing(0, 1, 6) == (((1int) - (1int)) * ((-1int) - (0int)) - ((0int) - (0int)) * ((1int) - (1int))) * ((0int) + (2int) + (1int)) + (((0int) - (0int)) * ((1int) - (0int)) - ((2int) - (0int)) * ((-1int) - (0int))) * ((1int) + (1int) + (1int)) + (((2int) - (0int)) * ((1int) - (1int)) - ((1int) - (1int)) * ((1int) - (0int))) * ((0int) + (0int) + (-1int)),
        ;
    } else if t == 6 {
        assert(prism_index(18) == 7);
        assert(prism_index(19) == 8);
        assert(prism_index(20) == 9);
        assert(prism_vertex(7) == (0int, -1int, 0int));
        assert(prism_vertex(8) == (2int, -1int, 0int));
        assert(prism_vertex(9) == (1int, -1int, 1int));
        lemma_facing_at(7, 8, 9, 0int, -1int, 0int, 2int, -1int, 0int, 1int, -1int, 1int);
        assert(prism_facing(7, 8, 9) == 6) by (nonlinear_arith)
            requires
                prism_facing(7, 8, 9) == (((-1int) - (-1int)) * ((1int) - (0int)) - ((0int) - (0int)) * ((-1int) - (-1int))) * ((0int) + (2int) + (1int)) + (((0int) - (0int)) * ((1int) - (0int)) - ((2int) - (0int)) * ((1int) - (0int))) * ((-1int) + (-1int) + (-1int)) + (((2int) - (0int)) * ((-1int) - (-1int)) - ((-1int) - (-1int)) * ((1int) - (0int))) * ((0int) + (0int) + (1int)),
        ;
    } else if t == 7 {
        assert(prism_index(21) == 7);
        assert(prism_index(22) == 9);
        assert(prism_index(23) == 10);
        assert(prism_vertex(7) == (0int, -1int, 0int));
        assert(prism_vertex(9) == (1int, -1int, 1int));
        assert(prism_vertex(10) == (-1int, -1int, 1int));
        lemma_facing_at(7, 9, 10, 0int, -1int, 0int, 1int, -1int, 1int, -1int, -1int, 1int);
        assert(prism_facing(7, 9, 10) == 6) by (nonlinear_arith)
            requires
                prism_facing(7, 9, 10) == (((-1int) - (-1int)) * ((1int) - (0int)) - ((1int) - (0int)) * ((-1int) - (-1int))) * ((0int) + (1int) + (-1int)) + (((1int) - (0int)) * ((-1int) - (0int)) - ((1int) - (0int)) * ((1int) - (0int))) * ((-1int) + (-1int) + (-1int)) + (((1int) - (0int)) * ((-1int) - (-1int)) - ((-1int) - (-1int)) * ((-1int) - (0int))) * ((0int) + (1int) + (1int)),
        ;
    } else if t == 8 {
        assert(prism_index(24) == 7);
        assert(prism_index(25) == 10);
        assert(prism_index(26) == 11);
        assert(prism_vertex(7) == (0int, -1int, 0int));
        assert(prism_vertex(10) == (-1int, -1int, 1int));
        assert(prism_vertex(11) == (-2int, -1int, 0int));
        lemma_facing_at(7, 10, 11, 0int, -1int, 0int, -1int, -1int, 1int, -2int, -1int, 0int);
        assert(prism_facing(7, 10, 11) == 6) by (nonlinear_arith)
            requires
                prism_facing(7, 10, 11) == (((-1int) - (-1int)) * ((0int) - (0int)) - ((1int) - (0int)) * ((-1int) - (-1int))) * ((0int) + (-1int) + (-2int)) + (((1int) - (0int)) * ((-2int) - (0int)) - ((-1int) - (0int)) * ((0int) - (0int))) * ((-1int) + (-1int) + (-1int)) + (((-1int) - (0int)) * ((-1int) - (-1int)) - ((-1int) - (-1int)) * ((-2int) - (0int))) * ((0int) + (1int) + (0int)),
        ;
    } else if t == 9 {
        assert(prism_index(27) == 7);
        assert(prism_index(28) == 11);
        assert(prism_index(29) == 12);
        assert(prism_vertex(7) == (0int, -1int, 0int));
        assert(prism_vertex(11) == (-2int, -1int, 0int));
        assert(prism_vertex(12) == (-1int, -1int, -1int));
        lemma_facing_at(7, 11, 12, 0int, -1int, 0int, -2int, -1int, 0int, -1int, -1int, -1int);
        assert(prism_facing(7, 11, 12) == 6) by (nonlinear_arith)
            requires
                prism_facing(7, 11, 12) == (((-1int) - (-1int)) * ((-1int) - (0int)) - ((0int) - (0int)) * ((-1int) - (-1int))) * ((0int) + (-2int) + (-1int)) + (((0int) - (0int)) * ((-1int) - (0int)) - ((-2int) - (0int)) * ((-1int) - (0int))) * ((-1int) + (-1int) + (-1int)) + (((-2int) - (0int)) * ((-1int) - (-1int)) - ((-1int) - (-1int)) * ((-1int) - (0int))) * ((0int) + (0int) + (-1int)),
        ;
    } else if t == 10 {
        assert(prism_index(30) == 7);
        assert(prism_index(31) == 12);
        assert(prism_index(32) == 13);
        assert(prism_vertex(7) == (0int, -1int, 0int));
        assert(prism_vertex(12) == (-1int, -1int, -1int));
        assert(prism_vertex(13) == (1int, -1int, -1int));
        lemma_facing_at(7, 12, 13, 0int, -1int, 0int, -1int, -1int, -1int, 1int, -1int, -1int);
        assert(prism_facing(7, 12, 13) == 6) by (nonlinear_arith)
            requires
                prism_facing(7, 12, 13) == (((-1int) - (-1int)) * ((-1int) - (0int)) - ((-1int) - (0int)) * ((-1int) - (-1int))) * ((0int) + (-1int) + (1int)) + (((-1int) - (0int)) * ((1int) - (0int)) - ((-1int) - (0int)) * ((-1int) - (0int))) * ((-1int) + (-1int) + (-1int)) + (((-1int) - (0int)) * ((-1int) - (-1int)) - ((-1int) - (-1int)) * ((1int) - (0int))) * ((0int) + (-1int) + (-1int)),
        ;
    } else if t == 11 {
        assert(prism_index(33) == 7);
        assert(prism_index(34) == 13);
        assert(prism_index(35) == 8);
        assert(prism_vertex(7) == (0int, -1int, 0int));
        assert(prism_vertex(8) == (2int, -1int, 0int));
        assert(prism_vertex(13) == (1int, -1int, -1int));
        lemma_facing_at(7, 13, 8, 0int, -1int, 0int, 1int, -1int, -1int, 2int, -1int, 0int);
        assert(prism_facing(7, 13, 8) == 6) by (nonlinear_arith)
            requires
                prism_facing(7, 13, 8) == (((-1int) - (-1int)) * ((0int) - (0int)) - ((-1int) - (0int)) * ((-1int) - (-1int))) * ((0int) + (1int) + (2int)) + (((-1int) - (0int)) * ((2int) - (0int)) - ((1int) - (0int)) * ((0int) - (0int))) * ((-1int) + (-1int) + (-1int)) + (((1int) - (0int)) * ((-1int) - (-1int)) - ((-1int) - (-1int)) * ((2int) - (0int))) * ((0int) + (-1int) + (0int)),
        ;
    } else if t == 12 {
        assert(prism_index(36) == 14);
        assert(prism_index(37) == 16);
        assert(prism_index(38) == 15);
        assert(prism_vertex(14) == (2int, 1int, 0int));
        assert(prism_vertex(15) == (2int, -1int, 0int));
        assert(prism_vertex(16) == (1int, -1int, 1int));
        lemma_facing_at(14, 16, 15, 2int, 1int, 0int, 1int, -1int, 1int, 2int, -1int, 0int);
        assert(prism_facing(14, 16, 15) == 12) by (nonlinear_arith)
            requires
                prism_facing(14, 16, 15) == (((-1int) - (1int)) * ((0int) - (0int)) - ((1int) - (0int)) * ((-1int) - (1int))) * ((2int) + (1int) + (2int)) + (((1int) - (0int)) * ((2int) - (2int)) - ((1int) - (2int)) * ((0int) - (0int))) * ((1int) + (-1int) + (-1int)) + (((1int) - (2int)) * ((-1int) - (1int)) - ((-1int) - (1int)) * ((2int) - (2int))) * ((0int) + (1int) + (0int)),
        ;
    } else if t == 13 {
        assert(prism_index(39) == 14);
        assert(prism_index(40) == 17);
        assert(prism_index(41) == 16);
        assert(prism_vertex(14) == (2int, 1int, 0int));
        assert(prism_vertex(16) == (1int, -1int, 1int));
        assert(prism_vertex(17) == (1int, 1int, 1int));
        lemma_facing_at(14, 17, 16, 2int, 1int, 0int, 1int, 1int, 1int, 1int, -1int, 1int);
        assert(prism_facing(14, 17, 16) == 12) by (nonlinear_arith)
            requires
                prism_facing(14, 17, 16) == (((1int) - (1int)) * ((1int) - (0int)) - ((1int) - (0int)) * ((-1int) - (1int))) * ((2int) + (1int) + (1int)) + (((1int) - (0int)) * ((1int) - (2int)) - ((1int) - (2int)) * ((1int) - (0int))) * ((1int) + (1int) + (-1int)) + (((1int) - (2int)) * ((-1int) - (1int)) - ((1int) - (1int)) * ((1int) - (2int))) * ((0int) + (1int) + (1int)),
        ;
    } else if t == 14 {
        assert(prism_index(42) == 18);
        assert(prism_index(43) == 20);
        assert(prism_index(44) == 19);
        assert(prism_vertex(18) == (1int, 1int, 1int));
        assert(prism_vertex(19) == (1int, -1int, 1int));
        assert(prism_vertex(20) == (-1int, -1int, 1int));
        lemma_facing_at(18, 20, 19, 1int, 1int, 1int, -1int, -1int, 1int, 1int, -1int, 1int);
        assert(prism_facing(18, 20, 19) == 12) by (nonlinear_arith)
            requires
                prism_facing(18, 20, 19) == (((-1int) - (1int)) * ((1int) - (1int)) - ((1int) - (1int)) * ((-1int) - (1int))) * ((1int) + (-1int) + (1int)) + (((1int) - (1int)) * ((1int) - (1int)) - ((-1int) - (1int)) * ((1int) - (1int))) * ((1int) + (-1int) + (-1int)) + (((-1int) - (1int)) * ((-1int) - (1int)) - ((-1int) - (1int)) * ((1int) - (1int))) * ((1int) + (1int) + (1int)),
        ;
    } else if t == 15 {
        assert(prism_index(45) == 18);
        assert(prism_index(46) == 21);
        assert(prism_index(47) == 20);
        assert(prism_vertex(18) == (1int, 1int, 1int));
        assert(prism_vertex(20) == (-1int, -1int, 1int));
        assert(prism_vertex(21) == (-1int, 1int, 1int));
        lemma_facing_at(18, 21, 20, 1int, 1int, 1int, -1int, 1int, 1int, -1int, -1int, 1int);
        assert(prism_facing(18, 21, 20) == 12) by (nonlinear_arith)
            requires
                prism_facing(18, 21, 20) == (((1int) - (1int)) * ((1int) - (1int)) - ((1int) - (1int)) * ((-1int) - (1int))) * ((1int) + (-1int) + (-1int)) + (((1int) - (1int)) * ((-1int) - (1int)) - ((-1int) - (1int)) * ((1int) - (1int))) * ((1int) + (1int) + (-1int)) + (((-1int) - (1int)) * ((-1int) - (1int)) - ((1int) - (1int)) * ((-1int) - (1int))) * ((1int) + (1int) + (1int)),
        ;
    } else if t == 16 {
        assert(prism_index(48) == 22);
        assert(prism_index(49) == 24);
        assert(prism_index(50) == 23);
        assert(prism_vertex(22) == (-1int, 1int, 1int));
        assert(prism_vertex(23) == (-1int, -1int, 1int));
        assert(prism_vertex(24) == (-2int, -1int, 0int));
        lemma_facing_at(22, 24, 23, -1int, 1int, 1int, -2int, -1int, 0int, -1int, -1int, 1int);
        assert(prism_facing(22, 24, 23) == 12) by (nonlinear_arith)
            requires
                prism_facing(22, 24, 23) == (((-1int) - (1int)) * ((1int) - (1int)) - ((0int) - (1int)) * ((-1int) - (1int))) * ((-1int) + (-2int) + (-1int)) + (((0int) - (1int)) * ((-1int) - (-1int)) - ((-2int) - (-1int)) * ((1int) - (1int))) * ((1int) + (-1int) + (-1int)) + (((-2int) - (-1int)) * ((-1int) - (1int)) - ((-1int) - (1int)) * ((-1int) - (-1int))) * ((1int) + (0int) + (1int)),
        ;
    } else if t == 17 {
        assert(prism_index(51) == 22);
        assert(prism_index(52) == 25);
        assert(prism_index(53) == 24);
        assert(prism_vertex(22) == (-1int, 1int, 1int));
        assert(prism_vertex(24) == (-2int, -1int, 0int));
        assert(prism_vertex(25) == (-2int, 1int, 0int));
        lemma_facing_at(22, 25, 24, -1int, 1int, 1int, -2int, 1int, 0int, -2int, -1int, 0int);
        assert(prism_facing(22, 25, 24) == 12) by (nonlinear_arith)
            requires
                prism_facing(22, 25, 24) == (((1int) - (1int)) * ((0int) - (1int)) - ((0int) - (1int)) * ((-1int) - (1int))) * ((-1int) + (-2int) + (-2int)) + (((0int) - (1int)) * ((-2int) - (-1int)) - ((-2int) - (-1int)) * ((0int) - (1int))) * ((1int) + (1int) + (-1int)) + (((-2int) - (-1int)) * ((-1int) - (1int)) - ((1int) - (1int)) * ((-2int) - (-1int))) * ((1int) + (0int) + (0int)),
        ;
    } else if t == 18 {
        assert(prism_index(54) == 26);
        assert(prism_index(55) == 28);
        assert(prism_index(56) == 27);
        assert(prism_vertex(26) == (-2int, 1int, 0int));
        assert(prism_vertex(27) == (-2int, -1int, 0int));
        assert(prism_vertex(28) == (-1int, -1int, -1int));
        lemma_facing_at(26, 28, 27, -2int, 1int, 0int, -1int, -1int, -1int, -2int, -1int, 0int);
        assert(prism_facing(26, 28, 27) == 12) by (nonlinear_arith)
            requires
                prism_facing(26, 28, 27) == (((-1int) - (1int)) * ((0int) - (0int)) - ((-1int) - (0int)) * ((-1int) - (1int))) * ((-2int) + (-1int) + (-2int)) + (((-1int) - (0int)) * ((-2int) - (-2int)) - ((-1int) - (-2int)) * ((0int) - (0int))) * ((1int) + (-1int) + (-1int)) + (((-1int) - (-2int)) * ((-1int) - (1int)) - ((-1int) - (1int)) * ((-2int) - (-2int))) * ((0int) + (-1int) + (0int)),
        ;
    } else if t == 19 {
        assert(prism_index(57) == 26);
        assert(prism_index(58) == 29);
        assert(prism_index(59) == 28);
        assert(prism_vertex(26) == (-2int, 1int, 0int));
        assert(prism_vertex(28) == (-1int, -1int, -1int));
        assert(prism_vertex(29) == (-1int, 1int, -1int));
        lemma_facing_at(26, 29, 28, -2int, 1int, 0int, -1int, 1int, -1int, -1int, -1int, -1int);
        assert(prism_facing(26, 29, 28) == 12) by (nonlinear_arith)
            requires
                prism_facing(26, 29, 28) == (((1int) - (1int)) * ((-1int) - (0int)) - ((-1int) - (0int)) * ((-1int) - (1int))) * ((-2int) + (-1int) + (-1int)) + (((-1int) - (0int)) * ((-1int) - (-2int)) - ((-1int) - (-2int)) * ((-1int) - (0int))) * ((1int) + (1int) + (-1int)) + (((-1int) - (-2int)) * ((-1int) - (1int)) - ((1int) - (1int)) * ((-1int) - (-2int))) * ((0int) + (-1int) + (-1int)),
        ;
    } else if t == 20 {
        assert(prism_index(60) == 30);
        assert(prism_index(61) == 32);
        assert(prism_index(62) == 31);
        assert(prism_vertex(30) == (-1int, 1int, -1int));
        assert(prism_vertex(31) == (-1int, -1int, -1int));
        assert(prism_vertex(32) == (1int, -1int, -1int));
        lemma_facing_at(30, 32, 31, -1int, 1int, -1int, 1int, -1int, -1int, -1int, -1int, -1int);
        assert(prism_facing(30, 32, 31) == 12) by (nonlinear_arith)
            requires
                prism_facing(30, 32, 31) == (((-1int) - (1int)) * ((-1int) - (-1int)) - ((-1int) - (-1int)) * ((-1int) - (1int))) * ((-1int) + (1int) + (-1int)) + (((-1int) - (-1int)) * ((-1int) - (-1int)) - ((1int) - (-1int)) * ((-1int) - (-1int))) * ((1int) + (-1int) + (-1int)) + (((1int) - (-1int)) * ((-1int) - (1int)) - ((-1int) - (1int)) * ((-1int) - (-1int))) * ((-1int) + (-1int) + (-1int)),
        ;
    } else if t == 21 {
        assert(prism_index(63) == 30);
        assert(prism_index(64) == 33);
        assert(prism_index(65) == 32);
        assert(prism_vertex(30) == (-1int, 1int, -1int));
        assert(prism_vertex(32) == (1int, -1int, -1int));
        assert(prism_vertex(33) == (1int, 1int, -1int));
        lemma_facing_at(30, 33, 32, -1int, 1int, -1int, 1int, 1int, -1int, 1int, -1int, -1int);
        assert(prism_facing(30, 33, 32) == 12) by (nonlinear_arith)
            requires
                prism_facing(30, 33, 32) == (((1int) - (1int)) * ((-1int) - (-1int)) - ((-1int) - (-1int)) * ((-1int) - (1int))) * ((-1int) + (1int) + (1int)) + (((-1int) - (-1int)) * ((1int) - (-1int)) - ((1int) - (-1int)) * ((-1int) - (-1int))) * ((1int) + (1int) + (-1int)) + (((1int) - (-1int)) * ((-1int) - (1int)) - ((1int) - (1int)) * ((1int) - (-1int))) * ((-1int) + (-1int) + (-1int)),
        ;
    } else if t == 22 {
        assert(prism_index(66) == 34);
        assert(prism_index(67) == 36);
        assert(prism_index(68) == 35);
        assert(prism_vertex(34) == (1int, 1int, -1int));
        assert(prism_vertex(35) == (1int, -1int, -1int));
        assert(prism_vertex(36) == (2int, -1int, 0int));
        lemma_facing_at(34, 36, 35, 1int, 1int, -1int, 2int, -1int, 0int, 1int, -1int, -1int);
        assert(prism_facing(34, 36, 35) == 12) by (nonlinear_arith)
            requires
                prism_facing(34, 36, 35) == (((-1int) - (1int)) * ((-1int) - (-1int)) - ((0int) - (-1int)) * ((-1int) - (1int))) * ((1int) + (2int) + (1int)) + (((0int) - (-1int)) * ((1int) - (1int)) - ((2int) - (1int)) * ((-1int) - (-1int))) * ((1int) + (-1int) + (-1int)) + (((2int) - (1int)) * ((-1int) - (1int)) - ((-1int) - (1int)) * ((1int) - (1int))) * ((-1int) + (0int) + (-1int)),
        ;
    } else {
        assert(prism_index(69) == 34);
        assert(prism_index(70) == 37);
        assert(prism_index(71) == 36);
        assert(prism_vertex(34) == (1int, 1int, -1int));
        assert(prism_vertex(36) == (2int, -1int, 0int));
        assert(prism_vertex(37) == (2int, 1int, 0int));
        lemma_facing_at(34, 37, 36, 1int, 1int, -1int, 2int, 1int, 0int, 2int, -1int, 0int);
        assert(prism_facing(34, 37, 36) == 12) by (nonlinear_arith)
            requires
                prism_facing(34, 37, 36) == (((1int) - (1int)) * ((0int) - (-1int)) - ((0int) - (-1int)) * ((-1int) - (1int))) * ((1int) + (2int) + (2int)) + (((0int) - (-1int)) * ((2int) - (1int)) - ((2int) - (1int)) * ((0int) - (-1int))) * ((1int) + (1int) + (-1int)) + (((2int) - (1int)) * ((-1int) - (1int)) - ((1int) - (1int)) * ((2int) - (1int))) * ((-1int) + (0int) + (0int)),
        ;
    }
}

/// Every triangle of the mirrored prism winds clockwise seen from outside.
pub proof fn lemma_prism_mirrored_inward(t: int)
    requires
        0 <= t < 24,
    ensures
        prism_facing(
            prism_index_mirrored(3 * t),
            prism_index_mirrored(3 * t + 1),
            prism_index_mirrored(3 * t + 2),
        ) < 0,
{
    if t == 0 {
        assert(prism_index_mirrored(0) == 0);
        assert(prism_index_mirrored(1) == 1);
        assert(prism_index_mirrored(2) == 2);
        assert(prism_vertex(0) == (0int, 1int, 0int));
        assert(prism_vertex(1) == (2int, 1int, 0int));
        assert(prism_vertex(2) == (1int, 1int, 1int));
        lemma_facing_at(0, 1, 2, 0int, 1int, 0int, 2int, 1int, 0int, 1int, 1int, 1int);
        assert(prism_facing(0, 1, 2) == -6) by (nonlinear_arith)
            requires
                prism_facing(0, 1, 2) == (((1int) - (1int)) * ((1int) - (0int)) - ((0int) - (0int)) * ((1int) - (1int))) * ((0int) + (2int) + (1int)) + (((0int) - (0int)) * ((1int) - (0int)) - ((2int) - (0int)) * ((1int) - (0int))) * ((1int) + (1int) + (1int)) + (((2int) - (0int)) * ((1int) - (1int)) - ((1int) - (1int)) * ((1int) - (0int))) * ((0int) + (0int) + (1int)),
        ;
    } else if t == 1 {
        assert(prism_index_mirrored(3) == 0);
        assert(prism_index_mirrored(4) == 2);
        assert(prism_index_mirrored(5) == 3);
        assert(prism_vertex(0) == (0int, 1int, 0int));
        assert(prism_vertex(2) == (1int, 1int, 1int));
        assert(prism_vertex(3) == (-1int, 1int, 1int));
        lemma_facing_at(0, 2, 3, 0int, 1int, 0int, 1int, 1int, 1int, -1int, 1int, 1int);
        assert(prism_facing(0, 2, 3) == -6) by (nonlinear_arith)
            requires
                prism_facing(0, 2, 3) == (((1int) - (1int)) * ((1int) - (0int)) - ((1int) - (0int)) * ((1int) - (1int))) * ((0int) + (1int) + (-1int)) + (((1int) - (0int)) * ((-1int) - (0int)) - ((1int) - (0int)) * ((1int) - (0int))) * ((1int) + (1int) + (1int)) + (((1int) - (0int)) * ((1int) - (1int)) - ((1int) - (1int)) * ((-1int) - (0int))) * ((0int) + (1int) + (1int)),
        ;
    } else if t == 2 {
        assert(prism_index_mirrored(6) == 0);
        assert(prism_index_mirrored(7) == 3);
        assert(prism_index_mirrored(8) == 4);
        assert(prism_vertex(0) == (0int, 1int, 0int));
        assert(prism_vertex(3) == (-1int, 1int, 1int));
        assert(prism_vertex(4) == (-2int, 1int, 0int));
        lemma_facing_at(0, 3, 4, 0int, 1int, 0int, -1int, 1int, 1int, -2int, 1int, 0int);
        assert(prism_facing(0, 3, 4) == -6) by (nonlinear_arith)
            requires
                prism_facing(0, 3, 4) == (((1int) - (1int)) * ((0int) - (0int)) - ((1int) - (0int)) * ((1int) - (1int))) * ((0int) + (-1int) + (-2int)) + (((1int) - (0int)) * ((-2int) - (0int)) - ((-1int) - (0int)) * ((0int) - (0int))) * ((1int) + (1int) + (1int)) + (((-1int) - (0int)) * ((1int) - (1int)) - ((1int) - (1int)) * ((-2int) - (0int))) * ((0int) + (1int) + (0int)),
        ;
    } else if t == 3 {
        assert(prism_index_mirrored(9) == 0);
        assert(prism_index_mirrored(10) == 4);
        assert(prism_index_mirrored(11) == 5);
        assert(prism_vertex(0) == (0int, 1int, 0int));
        assert(prism_vertex(4) == (-2int, 1int, 0int));
        assert(prism_vertex(5) == (-1int, 1int, -1int));
        lemma_facing_at(0, 4, 5, 0int, 1int, 0int, -2int, 1int, 0int, -1int, 1int, -1int);
        assert(prism_facing(0, 4, 5) == -6) by (nonlinear_arith)
            requires
                prism_facing(0, 4, 5) == (((1int) - (1int)) * ((-1int) - (0int)) - ((0int) - (0int)) * ((1int) - (1int))) * ((0int) + (-2int) + (-1int)) + (((0int) - (0int)) * ((-1int) - (0int)) - ((-2int) - (0int)) * ((-1int) - (0int))) * ((1int) + (1int) + (1int)) + (((-2int) - (0int)) * ((1int) - (1int)) - ((1int) - (1int)) * ((-1int) - (0int))) * ((0int) + (0int) + (-1int)),
        ;
    } else if t == 4 {
        assert(prism_index_mirrored(12) == 0);
        assert(prism_index_mirrored(13) == 5);
        assert(prism_index_mirrored(14) == 6);
        assert(prism_vertex(0) == (0int, 1int, 0int));
        assert(prism_vertex(5) == (-1int, 1int, -1int));
        assert(prism_vertex(6) == (1int, 1int, -1int));
        lemma_facing_at(0, 5, 6, 0int, 1int, 0int, -1int, 1int, -1int, 1int, 1int, -1int);
        assert(prism_facing(0, 5, 6) == -6) by (nonlinear_arith)
            requires
                prism_facing(0, 5, 6) == (((1int) - (1int)) * ((-1int) - (0int)) - ((-1int) - (0int)) * ((1int) - (1int))) * ((0int) + (-1int) + (1int)) + (((-1int) - (0int)) * ((1int) - (0int)) - ((-1int) - (0int)) * ((-1int) - (0int))) * ((1int) + (1int) + (1int)) + (((-1int) - (0int)) * ((1int) - (1int)) - ((1int) - (1int)) * ((1int) - (0int))) * ((0int) + (-1int) + (-1int)),
        ;
    } else if t == 5 {
        assert(prism_index_mirrored(15) == 0);
        assert(prism_index_mirrored(16) == 6);
        assert(prism_index_mirrored(17) == 1);
        assert(prism_vertex(0) == (0int, 1int, 0int));
        assert(prism_vertex(1) == (2int, 1int, 0int));
        assert(prism_vertex(6) == (1int, 1int, -1int));
        lemma_facing_at(0, 6, 1, 0int, 1int, 0int, 1int, 1int, -1int, 2int, 1int, 0int);
        assert(prism_facing(0, 6, 1) == -6) by (nonlinear_arith)
            requires
                prism_facing(0, 6, 1) == (((1int) - (1int)) * ((0int) - (0int)) - ((-1int) - (0int)) * ((1int) - (1int))) * ((0int) + (1int) + (2int)) + (((-1int) - (0int)) * ((2int) - (0int)) - ((1int) - (0int)) * ((0int) - (0int))) * ((1int) + (1int) + (1int)) + (((1int) - (0int)) * ((1int) - (1int)) - ((1int) - (1int)) * ((2int) - (0int))) * ((0int) + (-1int) + (0int)),
        ;
    } else if t == 6 {
        assert(prism_index_mirrored(18) == 7);
        assert(prism_index_mirrored(19) == 9);
        assert(prism_index_mirrored(20) == 8);
        assert(prism_vertex(7) == (0int, -1int, 0int));
        assert(prism_vertex(8) == (2int, -1int, 0int));
        assert(prism_vertex(9) == (1int, -1int, 1int));
        lemma_facing_at(7, 9, 8, 0int, -1int, 0int, 1int, -1int, 1int, 2int, -1int, 0int);
        assert(prism_facing(7, 9, 8) == -6) by (nonlinear_arith)
            requires
                prism_facing(7, 9, 8) == (((-1int) - (-1int)) * ((0int) - (0int)) - ((1int) - (0int)) * ((-1int) - (-1int))) * ((0int) + (1int) + (2int)) + (((1int) - (0int)) * ((2int) - (0int)) - ((1int) - (0int)) * ((0int) - (0int))) * ((-1int) + (-1int) + (-1int)) + (((1int) - (0int)) * ((-1int) - (-1int)) - ((-1int) - (-1int)) * ((2int) - (0int))) * ((0int) + (1int) + (0int)),
        ;
    } else if t == 7 {
        assert(prism_index_mirrored(21) == 7);
        assert(prism_index_mirrored(22) == 10);
        assert(prism_index_mirrored(23) == 9);
        assert(prism_vertex(7) == (0int, -1int, 0int));
        assert(prism_vertex(9) == (1int, -1int, 1int));
        assert(prism_vertex(10) == (-1int, -1int, 1int));
        lemma_facing_at(7, 10, 9, 0int, -1int, 0int, -1int, -1int, 1int, 1int, -1int, 1int);
        assert(prism_facing(7, 10, 9) == -6) by (nonlinear_arith)
            requires
                prism_facing(7, 10, 9) == (((-1int) - (-1int)) * ((1int) - (0int)) - ((1int) - (0int)) * ((-1int) - (-1int))) * ((0int) + (-1int) + (1int)) + (((1int) - (0int)) * ((1int) - (0int)) - ((-1int) - (0int)) * ((1int) - (0int))) * ((-1int) + (-1int) + (-1int)) + (((-1int) - (0int)) * ((-1int) - (-1int)) - ((-1int) - (-1int)) * ((1int) - (0int))) * ((0int) + (1int) + (1int)),
        ;
    } else if t == 8 {
        assert(prism_index_mirrored(24) == 7);
        assert(prism_index_mirrored(25) == 11);
        assert(prism_index_mirrored(26) == 10);
        assert(prism_vertex(7) == (0int, -1int, 0int));
        assert(prism_vertex(10) == (-1int, -1int, 1int));
        assert(prism_vertex(11) == (-2int, -1int, 0int));
        lemma_facing_at(7, 11, 10, 0int, -1int, 0int, -2int, -1int, 0int, -1int, -1int, 1int);
        assert(prism_facing(7, 11, 10) == -6) by (nonlinear_arith)
            requires
                prism_facing(7, 11, 10) == (((-1int) - (-1int)) * ((1int) - (0int)) - ((0int) - (0int)) * ((-1int) - (-1int))) * ((0int) + (-2int) + (-1int)) + (((0int) - (0int)) * ((-1int) - (0int)) - ((-2int) - (0int)) * ((1int) - (0int))) * ((-1int) + (-1int) + (-1int)) + (((-2int) - (0int)) * ((-1int) - (-1int)) - ((-1int) - (-1int)) * ((-1int) - (0int))) * ((0int) + (0int) + (1int)),
        ;
    } else if t == 9 {
        assert(prism_index_mirrored(27) == 7);
        assert(prism_index_mirrored(28) == 12);
        assert(prism_index_mirrored(29) == 11);
        assert(prism_vertex(7) == (0int, -1int, 0int));
        assert(prism_vertex(11) == (-2int, -1int, 0int));
        assert(prism_vertex(12) == (-1int, -1int, -1int));
        lemma_facing_at(7, 12, 11, 0int, -1int, 0int, -1int, -1int, -1int, -2int, -1int, 0int);
        assert(prism_facing(7, 12, 11) == -6) by (nonlinear_arith)
            requires
                prism_facing(7, 12, 11) == (((-1int) - (-1int)) * ((0int) - (0int)) - ((-1int) - (0int)) * ((-1int) - (-1int))) * ((0int) + (-1int) + (-2int)) + (((-1int) - (0int)) * ((-2int) - (0int)) - ((-1int) - (0int)) * ((0int) - (0int))) * ((-1int) + (-1int) + (-1int)) + (((-1int) - (0int)) * ((-1int) - (-1int)) - ((-1int) - (-1int)) * ((-2int) - (0int))) * ((0int) + (-1int) + (0int)),
        ;
    } else if t == 10 {
        assert(prism_index_mirrored(30) == 7);
        assert(prism_index_mirrored(31) == 13);
        assert(prism_index_mirrored(32) == 12);
        assert(prism_vertex(7) == (0int, -1int, 0int));
        assert(prism_vertex(12) == (-1int, -1int, -1int));
        assert(prism_vertex(13) == (1int, -1int, -1int));
        lemma_facing_at(7, 13, 12, 0int, -1int, 0int, 1int, -1int, -1int, -1int, -1int, -1int);
        assert(prism_facing(7, 13, 12) == -6) by (nonlinear_arith)
            requires
                prism_facing(7, 13, 12) == (((-1int) - (-1int)) * ((-1int) - (0int)) - ((-1int) - (0int)) * ((-1int) - (-1int))) * ((0int) + (1int) + (-1int)) + (((-1int) - (0int)) * ((-1int) - (0int)) - ((1int) - (0int)) * ((-1int) - (0int))) * ((-1int) + (-1int) + (-1int)) + (((1int) - (0int)) * ((-1int) - (-1int)) - ((-1int) - (-1int)) * ((-1int) - (0int))) * ((0int) + (-1int) + (-1int)),
        ;
    } else if t == 11 {
        assert(prism_index_mirrored(33) == 7);
        assert(prism_index_mirrored(34) == 8);
        assert(prism_index_mirrored(35) == 13);
        assert(prism_vertex(7) == (0int, -1int, 0int));
        assert(prism_vertex(8) == (2int, -1int, 0int));
        assert(prism_vertex(13) == (1int, -1int, -1int));
        lemma_facing_at(7, 8, 13, 0int, -1int, 0int, 2int, -1int, 0int, 1int, -1int, -1int);
        assert(prism_facing(7, 8, 13) == -6) by (nonlinear_arith)
            requires
                prism_facing(7, 8, 13) == (((-1int) - (-1int)) * ((-1int) - (0int)) - ((0int) - (0int)) * ((-1int) - (-1int))) * ((0int) + (2int) + (1int)) + (((0int) - (0int)) * ((1int) - (0int)) - ((2int) - (0int)) * ((-1int) - (0int))) * ((-1int) + (-1int) + (-1int)) + (((2int) - (0int)) * ((-1int) - (-1int)) - ((-1int) - (-1int)) * ((1int) - (0int))) * ((0int) + (0int) + (-1int)),
        ;
    } else if t == 12 {
        assert(prism_index_mirrored(36) == 14);
        assert(prism_index_mirrored(37) == 15);
        assert(prism_index_mirrored(38) == 16);
        assert(prism_vertex(14) == (2int, 1int, 0int));
        assert(prism_vertex(15) == (2int, -1int, 0int));
        assert(prism_vertex(16) == (1int, -1int, 1int));
        lemma_facing_at(14, 15, 16, 2int, 1int, 0int, 2int, -1int, 0int, 1int, -1int, 1int);
        assert(prism_facing(14, 15, 16) == -12) by (nonlinear_arith)
            requires
                prism_facing(14, 15, 16) == (((-1int) - (1int)) * ((1int) - (0int)) - ((0int) - (0int)) * ((-1int) - (1int))) * ((2int) + (2int) + (1int)) + (((0int) - (0int)) * ((1int) - (2int)) - ((2int) - (2int)) * ((1int) - (0int))) * ((1int) + (-1int) + (-1int)) + (((2int) - (2int)) * ((-1int) - (1int)) - ((-1int) - (1int)) * ((1int) - (2int))) * ((0int) + (0int) + (1int)),
        ;
    } else if t == 13 {
        assert(prism_index_mirrored(39) == 14);
        assert(prism_index_mirrored(40) == 16);
        assert(prism_index_mirrored(41) == 17);
        assert(prism_vertex(14) == (2int, 1int, 0int));
        assert(prism_vertex(16) == (1int, -1int, 1int));
        assert(prism_vertex(17) == (1int, 1int, 1int));
        lemma_facing_at(14, 16, 17, 2int, 1int, 0int, 1int, -1int, 1int, 1int, 1int, 1int);
        assert(prism_facing(14, 16, 17) == -12) by (nonlinear_arith)
            requires
                prism_facing(14, 16, 17) == (((-1int) - (1int)) * ((1int) - (0int)) - ((1int) - (0int)) * ((1int) - (1int))) * ((2int) + (1int) + (1int)) + (((1int) - (0int)) * ((1int) - (2int)) - ((1int) - (2int)) * ((1int) - (0int))) * ((1int) + (-1int) + (1int)) + (((1int) - (2int)) * ((1int) - (1int)) - ((-1int) - (1int)) * ((1int) - (2int))) * ((0int) + (1int) + (1int)),
        ;
    } else if t == 14 {
        assert(prism_index_mirrored(42) == 18);
        assert(prism_index_mirrored(43) == 19);
        assert(prism_index_mirrored(44) == 20);
        assert(prism_vertex(18) == (1int, 1int, 1int));
        assert(prism_vertex(19) == (1int, -1int, 1int));
        assert(prism_vertex(20) == (-1int, -1int, 1int));
        lemma_facing_at(18, 19, 20, 1int, 1int, 1int, 1int, -1int, 1int, -1int, -1int, 1int);
        assert(prism_facing(18, 19, 20) == -12) by (nonlinear_arith)
            requires
                prism_facing(18, 19, 20) == (((-1int) - (1int)) * ((1int) - (1int)) - ((1int) - (1int)) * ((-1int) - (1int))) * ((1int) + (1int) + (-1int)) + (((1int) - (1int)) * ((-1int) - (1int)) - ((1int) - (1int)) * ((1int) - (1int))) * ((1int) + (-1int) + (-1int)) + (((1int) - (1int)) * ((-1int) - (1int)) - ((-1int) - (1int)) * ((-1int) - (1int))) * ((1int) + (1int) + (1int)),
        ;
    } else if t == 15 {
        assert(prism_index_mirrored(45) == 18);
        assert(prism_index_mirrored(46) == 20);
        assert(prism_index_mirrored(47) == 21);
        assert(prism_vertex(18) == (1int, 1int, 1int));
        assert(prism_vertex(20) == (-1int, -1int, 1int));
        assert(prism_vertex(21) == (-1int, 1int, 1int));
        lemma_facing_at(18, 20, 21, 1int, 1int, 1int, -1int, -1int, 1int, -1int, 1int, 1int);
        assert(prism_facing(18, 20, 21) == -12) by (nonlinear_arith)
            requires
                prism_facing(18, 20, 21) == (((-1int) - (1int)) * ((1int) - (1int)) - ((1int) - (1int)) * ((1int) - (1int))) * ((1int) + (-1int) + (-1int)) + (((1int) - (1int)) * ((-1int) - (1int)) - ((-1int) - (1int)) * ((1int) - (1int))) * ((1int) + (-1int) + (1int)) + (((-1int) - (1int)) * ((1int) - (1int)) - ((-1int) - (1int)) * ((-1int) - (1int))) * ((1int) + (1int) + (1int)),
        ;
    } else if t == 16 {
        assert(prism_index_mirrored(48) == 22);
        assert(prism_index_mirrored(49) == 23);
        assert(prism_index_mirrored(50) == 24);
        assert(prism_vertex(22) == (-1int, 1int, 1int));
        assert(prism_vertex(23) == (-1int, -1int, 1int));
        assert(prism_vertex(24) == (-2int, -1int, 0int));
        lemma_facing_at(22, 23, 24, -1int, 1int, 1int, -1int, -1int, 1int, -2int, -1int, 0int);
        assert(prism_facing(22, 23, 24) == -12) by (nonlinear_arith)
            requires
                prism_facing(22, 23, 24) == (((-1int) - (1int)) * ((0int) - (1int)) - ((1int) - (1int)) * ((-1int) - (1int))) * ((-1int) + (-1int) + (-2int)) + (((1int) - (1int)) * ((-2int) - (-1int)) - ((-1int) - (-1int)) * ((0int) - (1int))) * ((1int) + (-1int) + (-1int)) + (((-1int) - (-1int)) * ((-1int) - (1int)) - ((-1int) - (1int)) * ((-2int) - (-1int))) * ((1int) + (1int) + (0int)),
        ;
    } else if t == 17 {
        assert(prism_index_mirrored(51) == 22);
        assert(prism_index_mirrored(52) == 24);
        assert(prism_index_mirrored(53) == 25);
        assert(prism_vertex(22) == (-1int, 1int, 1int));
        assert(prism_vertex(24) == (-2int, -1int, 0int));
        assert(prism_vertex(25) == (-2int, 1int, 0int));
        lemma_facing_at(22, 24, 25, -1int, 1int, 1int, -2int, -1int, 0int, -2int, 1int, 0int);
        assert(prism_facing(22, 24, 25) == -12) by (nonlinear_arith)
            requires
                prism_facing(22, 24, 25) == (((-1int) - (1int)) * ((0int) - (1int)) - ((0int) - (1int)) * ((1int) - (1int))) * ((-1int) + (-2int) + (-2int)) + (((0int) - (1int)) * ((-2int) - (-1int)) - ((-2int) - (-1int)) * ((0int) - (1int))) * ((1int) + (-1int) + (1int)) + (((-2int) - (-1int)) * ((1int) - (1int)) - ((-1int) - (1int)) * ((-2int) - (-1int))) * ((1int) + (0int) + (0int)),
        ;
    } else if t == 18 {
        assert(prism_index_mirrored(54) == 26);
        assert(prism_index_mirrored(55) == 27);
        assert(prism_index_mirrored(56) == 28);
        assert(prism_vertex(26) == (-2int, 1int, 0int));
        assert(prism_vertex(27) == (-2int, -1int, 0int));
        assert(prism_vertex(28) == (-1int, -1int, -1int));
        lemma_facing_at(26, 27, 28, -2int, 1int, 0int, -2int, -1int, 0int, -1int, -1int, -1int);
        assert(prism_facing(26, 27, 28) == -12) by (nonlinear_arith)
            requires
                prism_facing(26, 27, 28) == (((-1int) - (1int)) * ((-1int) - (0int)) - ((0int) - (0int)) * ((-1int) - (1int))) * ((-2int) + (-2int) + (-1int)) + (((0int) - (0int)) * ((-1int) - (-2int)) - ((-2int) - (-2int)) * ((-1int) - (0int))) * ((1int) + (-1int) + (-1int)) + (((-2int) - (-2int)) * ((-1int) - (1int)) - ((-1int) - (1int)) * ((-1int) - (-2int))) * ((0int) + (0int) + (-1int)),
        ;
    } else if t == 19 {
        assert(prism_index_mirrored(57) == 26);
        assert(prism_index_mirrored(58) == 28);
        assert(prism_index_mirrored(59) == 29);
        assert(prism_vertex(26) == (-2int, 1int, 0int));
        assert(prism_vertex(28) == (-1int, -1int, -1int));
        assert(prism_vertex(29) == (-1int, 1int, -1int));
        lemma_facing_at(26, 28, 29, -2int, 1int, 0int, -1int, -1int, -1int, -1int, 1int, -1int);
        assert(prism_facing(26, 28, 29) == -12) by (nonlinear_arith)
            requires
                prism_facing(26, 28, 29) == (((-1int) - (1int)) * ((-1int) - (0int)) - ((-1int) - (0int)) * ((1int) - (1int))) * ((-2int) + (-1int) + (-1int)) + (((-1int) - (0int)) * ((-1int) - (-2int)) - ((-1int) - (-2int)) * ((-1int) - (0int))) * ((1int) + (-1int) + (1int)) + (((-1int) - (-2int)) * ((1int) - (1int)) - ((-1int) - (1int)) * ((-1int) - (-2int))) * ((0int) + (-1int) + (-1int)),
        ;
    } else if t == 20 {
        assert(prism_index_mirrored(60) == 30);
        assert(prism_index_mirrored(61) == 31);
        assert(prism_index_mirrored(62) == 32);
        assert(prism_vertex(30) == (-1int, 1int, -1int));
        assert(prism_vertex(31) == (-1int, -1int, -1int));
        assert(prism_vertex(32) == (1int, -1int, -1int));
        lemma_facing_at(30, 31, 32, -1int, 1int, -1int, -1int, -1int, -1int, 1int, -1int, -1int);
        assert(prism_facing(30, 31, 32) == -12) by (nonlinear_arith)
            requires
                prism_facing(30, 31, 32) == (((-1int) - (1int)) * ((-1int) - (-1int)) - ((-1int) - (-1int)) * ((-1int) - (1int))) * ((-1int) + (-1int) + (1int)) + (((-1int) - (-1int)) * ((1int) - (-1int)) - ((-1int) - (-1int)) * ((-1int) - (-1int))) * ((1int) + (-1int) + (-1int)) + (((-1int) - (-1int)) * ((-1int) - (1int)) - ((-1int) - (1int)) * ((1int) - (-1int))) * ((-1int) + (-1int) + (-1int)),
        ;
    } else if t == 21 {
        assert(prism_index_mirrored(63) == 30);
        assert(prism_index_mirrored(64) == 32);
        assert(prism_index_mirrored(65) == 33);
        assert(prism_vertex(30) == (-1int, 1int, -1int));
        assert(prism_vertex(32) == (1int, -1int, -1int));
        assert(prism_vertex(33) == (1int, 1int, -1int));
        lemma_facing_at(30, 32, 33, -1int, 1int, -1int, 1int, -1int, -1int, 1int, 1int, -1int);
        assert(prism_facing(30, 32, 33) == -12) by (nonlinear_arith)
            requires
                prism_facing(30, 32, 33) == (((-1int) - (1int)) * ((-1int) - (-1int)) - ((-1int) - (-1int)) * ((1int) - (1int))) * ((-1int) + (1int) + (1int)) + (((-1int) - (-1int)) * ((1int) - (-1int)) - ((1int) - (-1int)) * ((-1int) - (-1int))) * ((1int) + (-1int) + (1int)) + (((1int) - (-1int)) * ((1int) - (1int)) - ((-1int) - (1int)) * ((1int) - (-1int))) * ((-1int) + (-1int) + (-1int)),
        ;
    } else if t == 22 {
        assert(prism_index_mirrored(66) == 34);
        assert(prism_index_mirrored(67) == 35);
        assert(prism_index_mirrored(68) == 36);
        assert(prism_vertex(34) == (1int, 1int, -1int));
        assert(prism_vertex(35) == (1int, -1int, -1int));
        assert(prism_vertex(36) == (2int, -1int, 0int));
        lemma_facing_at(34, 35, 36, 1int, 1int, -1int, 1int, -1int, -1int, 2int, -1int, 0int);
        assert(prism_facing(34, 35, 36) == -12) by (nonlinear_arith)
            requires
                prism_facing(34, 35, 36) == (((-1int) - (1int)) * ((0int) - (-1int)) - ((-1int) - (-1int)) * ((-1int) - (1int))) * ((1int) + (1int) + (2int)) + (((-1int) - (-1int)) * ((2int) - (1int)) - ((1int) - (1int)) * ((0int) - (-1int))) * ((1int) + (-1int) + (-1int)) + (((1int) - (1int)) * ((-1int) - (1int)) - ((-1int) - (1int)) * ((2int) - (1int))) * ((-1int) + (-1int) + (0int)),
        ;
    } else {
        assert(prism_index_mirrored(69) == 34);
        assert(prism_index_mirrored(70) == 36);
        assert(prism_index_mirrored(71) == 37);
        assert(prism_vertex(34) == (1int, 1int, -1int));
        assert(prism_vertex(36) == (2int, -1int, 0int));
        assert(prism_vertex(37) == (2int, 1int, 0int));
        lemma_facing_at(34, 36, 37, 1int, 1int, -1int, 2int, -1int, 0int, 2int, 1int, 0int);
        assert(prism_facing(34, 36, 37) == -12) by (nonlinear_arith)
            requires
                prism_facing(34, 36, 37) == (((-1int) - (1int)) * ((0int) - (-1int)) - ((0int) - (-1int)) * ((1int) - (1int))) * ((1int) + (2int) + (2int)) + (((0int) - (-1int)) * ((2int) - (1int)) - ((2int) - (1int)) * ((0int) - (-1int))) * ((1int) + (-1int) + (1int)) + (((2int) - (1int)) * ((1int) - (1int)) - ((-1int) - (1int)) * ((2int) - (1int))) * ((-1int) + (0int) + (0int)),
        ;
    }
}

/// Turning the prism by one corner maps each cap triangle onto the next
/// one of its cap and each pair of side triangles onto the next wall's
/// pair: the six cap triangles, and the six walls, are the same shape
/// rotated, in both windings.
pub proof fn lemma_prism_symmetric(i: int)
    requires
        0 <= i < 72,
    ensures
        (i < 15 || (18 <= i < 33)) ==> prism_index(i + 3) == prism_turn(prism_index(i))
            && prism_index_mirrored(i + 3) == prism_turn(prism_index_mirrored(i)),
        36 <= i < 66 ==> prism_index(i + 6) == prism_turn(prism_index(i)) && prism_index_mirrored(
            i + 6,
        ) == prism_turn(prism_index_mirrored(i)),
{
    if i == 0 {
    } else if i == 1 {
    } else if i == 2 {
    } else if i == 3 {
    } else if i == 4 {
    } else if i == 5 {
    } else if i == 6 {
    } else if i == 7 {
    } else if i == 8 {
    } else if i == 9 {
    } else if i == 10 {
    } else if i == 11 {
    } else if i == 12 {
    } else if i == 13 {
    } else if i == 14 {
    } else if i == 15 {
    } else if i == 16 {
    } else if i == 17 {
    } else if i == 18 {
    } else if i == 19 {
    } else if i == 20 {
    } else if i == 21 {
    } else if i == 22 {
    } else if i == 23 {
    } else if i == 24 {
    } else if i == 25 {
    } else if i == 26 {
    } else if i == 27 {
    } else if i == 28 {
    } else if i == 29 {
    } else if i == 30 {
    } else if i == 31 {
    } else if i == 32 {
    } else if i == 33 {
    } else if i == 34 {
    } else if i == 35 {
    } else if i == 36 {
    } else if i == 37 {
    } else if i == 38 {
    } else if i == 39 {
    } else if i == 40 {
    } else if i == 41 {
    } else if i == 42 {
    } else if i == 43 {
    } else if i == 44 {
    } else if i == 45 {
    } else if i == 46 {
    } else if i == 47 {
    } else if i == 48 {
    } else if i == 49 {
    } else if i == 50 {
    } else if i == 51 {
    } else if i == 52 {
    } else if i == 53 {
    } else if i == 54 {
    } else if i == 55 {
    } else if i == 56 {
    } else if i == 57 {
    } else if i == 58 {
    } else if i == 59 {
    } else if i == 60 {
    } else if i == 61 {
    } else if i == 62 {
    } else if i == 63 {
    } else if i == 64 {
    } else if i == 65 {
    } else if i == 66 {
    } else if i == 67 {
    } else if i == 68 {
    } else if i == 69 {
    } else if i == 70 {
    } else {
    }
}

/// Pushes the centre and six corners of a cap, numbering them from `count`.
fn cap_vertices(count: &mut u32) -> (ring: Vec<u32>)
    requires
        *old(count) <= 100,
    ensures
        *final(count) == *old(count) + 7,
        ring.len() == 6,
        forall|k: int| 0 <= k < 6 ==> ring@[k] == *old(count) + 1 + k,
{
    *count = *count + 1;
    let mut ring: Vec<u32> = Vec::new();
    let mut k: u32 = 0;
    while k < 6
        invariant
            k <= 6,
            *count == *old(count) + 1 + k,
            *old(count) <= 100,
            ring.len() == k,
            forall|j: int| 0 <= j < k ==> ring@[j] == *old(count) + 1 + j,
        decreases 6 - k,
    {
        ring.push(*count);
        *count = *count + 1;
        k = k + 1;
    }
    ring
}

/// Index buffer of the flat-top hexagonal prism, in the vertex layout
/// described at `prism_index`.
pub fn hex_prism_indices() -> (indices: Vec<u32>)
    ensures
        indices.len() == 72,
        forall|i: int| 0 <= i < 72 ==> indices@[i] == prism_index(i),
        forall|i: int| 0 <= i < 72 ==> indices@[i] < prism_vertex_count(),
        forall|t: int|
            0 <= t < 24 ==> prism_facing(
                #[trigger] indices@[3 * t] as int,
                indices@[3 * t + 1] as int,
                indices@[3 * t + 2] as int,
            ) > 0,
        forall|i: int|
            (0 <= i < 15 || 18 <= i < 33) ==> #[trigger] indices@[i + 3] == prism_turn(
                indices@[i] as int,
            ),
        forall|i: int| 36 <= i < 66 ==> #[trigger] indices@[i + 6] == prism_turn(indices@[i] as int),
        forall|t: int|
            0 <= t < 12 ==> #[trigger] indices@[3 * t] == (if t < 6 { 0int } else { 7int })
                && (t < 6 ==> indices@[3 * t + 1] == prism_turn(indices@[3 * t + 2] as int))
                && (t >= 6 ==> indices@[3 * t + 2] == prism_turn(indices@[3 * t + 1] as int)),
{
    let mut count: u32 = 0;
    let mut indices: Vec<u32> = Vec::new();

    // Top cap.
    let top_center = count;
    let top = cap_vertices(&mut count);
    let mut i: usize = 0;
    while i < 6
        invariant
            i <= 6,
            top_center == 0,
            top.len() == 6,
            forall|k: int| 0 <= k < 6 ==> top@[k] == 1 + k,
            indices.len() == 3 * i,
            forall|j: int| 0 <= j < indices.len() ==> indices@[j] == prism_index(j),
        decreases 6 - i,
    {
        let n = (i + 1) % 6;
        let ghost start = indices.len() as int;
        indices.push(top_center);
        indices.push(top[n]);
        indices.push(top[i]);
        proof {
            lemma_fundamental_div_mod_converse(start, 3, i as int, 0);
            lemma_fundamental_div_mod_converse(start + 1, 3, i as int, 1);
            lemma_fundamental_div_mod_converse(start + 2, 3, i as int, 2);
            assert(indices@[start] == prism_index(start));
            assert(indices@[start + 1] == prism_index(start + 1));
            assert(indices@[start + 2] == prism_index(start + 2));
        }
        i = i + 1;
    }

    // Bottom cap.
    let bottom_center = count;
    let bottom = cap_vertices(&mut count);
    let mut i: usize = 0;
    while i < 6
        invariant
            i <= 6,
            bottom_center == 7,
            count == 14,
            bottom.len() == 6,
            forall|k: int| 0 <= k < 6 ==> bottom@[k] == 8 + k,
            indices.len() == 18 + 3 * i,
            forall|j: int| 0 <= j < indices.len() ==> indices@[j] == prism_index(j),
        decreases 6 - i,
    {
        let n = (i + 1) % 6;
        let ghost start = indices.len() as int;
        indices.push(bottom_center);
        indices.push(bottom[i]);
        indices.push(bottom[n]);
        proof {
            lemma_fundamental_div_mod_converse(start - 18, 3, i as int, 0);
            lemma_fundamental_div_mod_converse(start - 18 + 1, 3, i as int, 1);
            lemma_fundamental_div_mod_converse(start - 18 + 2, 3, i as int, 2);
            assert(indices@[start] == prism_index(start));
            assert(indices@[start + 1] == prism_index(start + 1));
            assert(indices@[start + 2] == prism_index(start + 2));
        }
        i = i + 1;
    }

    // Side walls.
    let mut i: u32 = 0;
    while i < 6
        invariant
            i <= 6,
            count == 14 + 4 * i,
            indices.len() == 36 + 6 * i,
            forall|j: int| 0 <= j < indices.len() ==> indices@[j] == prism_index(j),
        decreases 6 - i,
    {
        let ti = count;
        let bi = count + 1;
        let bn = count + 2;
        let tn = count + 3;
        count = count + 4;
        let ghost start = indices.len() as int;
        indices.push(ti);
        indices.push(bn);
        indices.push(bi);
        indices.push(ti);
        indices.push(tn);
        indices.push(bn);
        proof {
            lemma_fundamental_div_mod_converse(start - 36, 6, i as int, 0);
            lemma_fundamental_div_mod_converse(start - 36 + 1, 6, i as int, 1);
            lemma_fundamental_div_mod_converse(start - 36 + 2, 6, i as int, 2);
            lemma_fundamental_div_mod_converse(start - 36 + 3, 6, i as int, 3);
            lemma_fundamental_div_mod_converse(start - 36 + 4, 6, i as int, 4);
            lemma_fundamental_div_mod_converse(start - 36 + 5, 6, i as int, 5);
            assert(indices@[start] == prism_index(start));
            assert(indices@[start + 1] == prism_index(start + 1));
            assert(indices@[start + 2] == prism_index(start + 2));
            assert(indices@[start + 3] == prism_index(start + 3));
            assert(indices@[start + 4] == prism_index(start + 4));
            assert(indices@[start + 5] == prism_index(start + 5));
        }
        i = i + 1;
    }
    proof {
        assert forall|i: int| 0 <= i < 72 implies indices@[i] < prism_vertex_count() by {
            assert(indices@[i] == prism_index(i));
        }
        assert forall|t: int| 0 <= t < 12 implies #[trigger] indices@[3 * t] == (if t < 6 { 0int } else {
            7int })
                && (t < 6 ==> indices@[3 * t + 1] == prism_turn(indices@[3 * t + 2] as int))
                && (t >= 6 ==> indices@[3 * t + 2] == prism_turn(indices@[3 * t + 1] as int)) by {
            lemma_prism_fans(t);
        }
        assert forall|t: int| 0 <= t < 24 implies prism_facing(
            #[trigger] indices@[3 * t] as int,
            indices@[3 * t + 1] as int,
            indices@[3 * t + 2] as int,
        ) > 0 by {
            lemma_prism_outward(t);
        }
        assert forall|i: int| (0 <= i < 15 || 18 <= i < 33) implies #[trigger] indices@[i + 3]
            == prism_turn(indices@[i] as int) by {
            lemma_prism_symmetric(i);
        }
        assert forall|i: int| 36 <= i < 66 implies #[trigger] indices@[i + 6] == prism_turn(
            indices@[i] as int,
        ) by {
            lemma_prism_symmetric(i);
        }
    }
    indices
}

/// Index buffer of the hexagonal prism with the opposite winding, in the
/// vertex layout described at `prism_index`.
pub fn hex_prism_indices_mirrored() -> (indices: Vec<u32>)
    ensures
        indices.len() == 72,
        forall|i: int| 0 <= i < 72 ==> indices@[i] == prism_index_mirrored(i),
        forall|i: int| 0 <= i < 72 ==> indices@[i] < prism_vertex_count(),
        forall|t: int|
            0 <= t < 24 ==> prism_facing(
                #[trigger] indices@[3 * t] as int,
                indices@[3 * t + 1] as int,
                indices@[3 * t + 2] as int,
            ) < 0,
        forall|i: int|
            (0 <= i < 15 || 18 <= i < 33) ==> #[trigger] indices@[i + 3] == prism_turn(
                indices@[i] as int,
            ),
        forall|i: int| 36 <= i < 66 ==> #[trigger] indices@[i + 6] == prism_turn(indices@[i] as int),
        forall|t: int|
            0 <= t < 12 ==> #[trigger] indices@[3 * t] == (if t < 6 { 0int } else { 7int })
                && (t < 6 ==> indices@[3 * t + 2] == prism_turn(indices@[3 * t + 1] as int))
                && (t >= 6 ==> indices@[3 * t + 1] == prism_turn(indices@[3 * t + 2] as int)),
{
    let mut count: u32 = 0;
    let mut indices: Vec<u32> = Vec::new();

    // Top cap.
    let top_center = count;
    let top = cap_vertices(&mut count);
    let mut i: usize = 0;
    while i < 6
        invariant
            i <= 6,
            top_center == 0,
            top.len() == 6,
            forall|k: int| 0 <= k < 6 ==> top@[k] == 1 + k,
            indices.len() == 3 * i,
            forall|j: int| 0 <= j < indices.len() ==> indices@[j] == prism_index_mirrored(j),
        decreases 6 - i,
    {
        let n = (i + 1) % 6;
        let ghost start = indices.len() as int;
        indices.push(top_center);
        indices.push(top[i]);
        indices.push(top[n]);
        proof {
            lemma_fundamental_div_mod_converse(start, 3, i as int, 0);
            lemma_fundamental_div_mod_converse(start + 1, 3, i as int, 1);
            lemma_fundamental_div_mod_converse(start + 2, 3, i as int, 2);
            assert(indices@[start] == prism_index_mirrored(start));
            assert(indices@[start + 1] == prism_index_mirrored(start + 1));
            assert(indices@[start + 2] == prism_index_mirrored(start + 2));
        }
        i = i + 1;
    }

    // Bottom cap.
    let bottom_center = count;
    let bottom = cap_vertices(&mut count);
    let mut i: usize = 0;
    while i < 6
        invariant
            i <= 6,
            bottom_center == 7,
            count == 14,
            bottom.len() == 6,
            forall|k: int| 0 <= k < 6 ==> bottom@[k] == 8 + k,
            indices.len() == 18 + 3 * i,
            forall|j: int| 0 <= j < indices.len() ==> indices@[j] == prism_index_mirrored(j),
        decreases 6 - i,
    {
        let n = (i + 1) % 6;
        let ghost start = indices.len() as int;
        indices.push(bottom_center);
        indices.push(bottom[n]);
        indices.push(bottom[i]);
        proof {
            lemma_fundamental_div_mod_converse(start - 18, 3, i as int, 0);
            lemma_fundamental_div_mod_converse(start - 18 + 1, 3, i as int, 1);
            lemma_fundamental_div_mod_converse(start - 18 + 2, 3, i as int, 2);
            assert(indices@[start] == prism_index_mirrored(start));
            assert(indices@[start + 1] == prism_index_mirrored(start + 1));
            assert(indices@[start + 2] == prism_index_mirrored(start + 2));
        }
        i = i + 1;
    }

    // Side walls.
    let mut i: u32 = 0;
    while i < 6
        invariant
            i <= 6,
            count == 14 + 4 * i,
            indices.len() == 36 + 6 * i,
            forall|j: int| 0 <= j < indices.len() ==> indices@[j] == prism_index_mirrored(j),
        decreases 6 - i,
    {
        let a = count;
        let b = count + 1;
        let c = count + 2;
        let d = count + 3;
        count = count + 4;
        let ghost start = indices.len() as int;
        indices.push(a);
        indices.push(b);
        indices.push(c);
        indices.push(a);
        indices.push(c);
        indices.push(d);
        proof {
            lemma_fundamental_div_mod_converse(start - 36, 6, i as int, 0);
            lemma_fundamental_div_mod_converse(start - 36 + 1, 6, i as int, 1);
            lemma_fundamental_div_mod_converse(start - 36 + 2, 6, i as int, 2);
            lemma_fundamental_div_mod_converse(start - 36 + 3, 6, i as int, 3);
            lemma_fundamental_div_mod_converse(start - 36 + 4, 6, i as int, 4);
            lemma_fundamental_div_mod_converse(start - 36 + 5, 6, i as int, 5);
            assert(indices@[start] == prism_index_mirrored(start));
            assert(indices@[start + 1] == prism_index_mirrored(start + 1));
            assert(indices@[start + 2] == prism_index_mirrored(start + 2));
            assert(indices@[start + 3] == prism_index_mirrored(start + 3));
            assert(indices@[start + 4] == prism_index_mirrored(start + 4));
            assert(indices@[start + 5] == prism_index_mirrored(start + 5));
        }
        i = i + 1;
    }
    proof {
        assert forall|i: int| 0 <= i < 72 implies indices@[i] < prism_vertex_count() by {
            assert(indices@[i] == prism_index_mirrored(i));
        }
        assert forall|t: int| 0 <= t < 12 implies #[trigger] indices@[3 * t] == (if t < 6 { 0int } else {
            7int })
                && (t < 6 ==> indices@[3 * t + 2] == prism_turn(indices@[3 * t + 1] as int))
                && (t >= 6 ==> indices@[3 * t + 1] == prism_turn(indices@[3 * t + 2] as int)) by {
            lemma_prism_fans(t);
        }
        assert forall|t: int| 0 <= t < 24 implies prism_facing(
            #[trigger] indices@[3 * t] as int,
            indices@[3 * t + 1] as int,
            indices@[3 * t + 2] as int,
        ) < 0 by {
            lemma_prism_mirrored_inward(t);
        }
        assert forall|i: int| (0 <= i < 15 || 18 <= i < 33) implies #[trigger] indices@[i + 3]
            == prism_turn(indices@[i] as int) by {
            lemma_prism_symmetric(i);
        }
        assert forall|i: int| 36 <= i < 66 implies #[trigger] indices@[i + 6] == prism_turn(
            indices@[i] as int,
        ) by {
            lemma_prism_symmetric(i);
        }
    }
    indices
}

/// The two prism index buffers hold the same triangles, in the same order,
/// each with its second and third corner swapped: the same surface with the
/// opposite winding.
pub proof fn lemma_prism_windings_mirror(t: int)
    requires
        0 <= t < 24,
    ensures
        prism_index_mirrored(3 * t) == prism_index(3 * t),
        prism_index_mirrored(3 * t + 1) == prism_index(3 * t + 2),
        prism_index_mirrored(3 * t + 2) == prism_index(3 * t + 1),
{
    if t < 6 {
        lemma_fundamental_div_mod_converse(3 * t, 3, t, 0);
        lemma_fundamental_div_mod_converse(3 * t + 1, 3, t, 1);
        lemma_fundamental_div_mod_converse(3 * t + 2, 3, t, 2);
    } else if t < 12 {
        lemma_fundamental_div_mod_converse(3 * t - 18, 3, t - 6, 0);
        lemma_fundamental_div_mod_converse(3 * t + 1 - 18, 3, t - 6, 1);
        lemma_fundamental_div_mod_converse(3 * t + 2 - 18, 3, t - 6, 2);
    } else {
        let s = (t - 12) / 2;
        let h = (t - 12) % 2;
        lemma_fundamental_div_mod_converse(3 * t - 36, 6, s, 3 * h);
        lemma_fundamental_div_mod_converse(3 * t + 1 - 36, 6, s, 3 * h + 1);
        lemma_fundamental_div_mod_converse(3 * t + 2 - 36, 6, s, 3 * h + 2);
    }
}

} // verus!
