//! Scenario tests for the fixed-point rasterizer pipeline.

use rusterizer::clip_and_rasterize_triangle;
use rusterizer::edge_function;
use rusterizer::from_u8_rgba;
use rusterizer::map_to_range;
use rusterizer::rasterize_triangle;
use rusterizer::clip_triangle;
use rusterizer::interpolate;
use rusterizer::fx::Vec2Fx;
use rusterizer::fx::Vec3Fx;
use rusterizer::fx::Vec4Fx;
use rusterizer::geometry::Mat4Fx;
use rusterizer::geometry::Mesh;
use rusterizer::geometry::Vertex;
use rusterizer::texture::Texture;

const ONE: i128 = 65536;

fn vertex_at(x: i128, y: i128, z: i128, w: i128, color: (i128, i128, i128)) -> Vertex {
    Vertex {
        pos: Vec4Fx { x, y, z, w },
        normal: Vec3Fx { x: 0, y: 0, z: ONE },
        color: Vec3Fx { x: color.0, y: color.1, z: color.2 },
        uv: Vec2Fx { x: 0, y: 0 },
    }
}

fn identity() -> Mat4Fx {
    Mat4Fx {
        m00: ONE,
        m01: 0,
        m02: 0,
        m03: 0,
        m10: 0,
        m11: ONE,
        m12: 0,
        m13: 0,
        m20: 0,
        m21: 0,
        m22: ONE,
        m23: 0,
        m30: 0,
        m31: 0,
        m32: 0,
        m33: ONE,
    }
}

/// A triangle that covers the whole viewport, at homogeneous depth `w`.
fn full_screen_triangle(w: i128, color: (i128, i128, i128)) -> [Vertex; 3] {
    [
        vertex_at(-w, -w, ONE, w, color),
        vertex_at(3 * w, -w, ONE, w, color),
        vertex_at(-w, 3 * w, ONE, w, color),
    ]
}

#[test]
fn packs_channels_alpha_high() {
    assert_eq!(from_u8_rgba(255, 0, 0, 255), 0xFFFF0000);
    assert_eq!(from_u8_rgba(0x12, 0x34, 0x56, 0x78), 0x78123456);
}

#[test]
fn maps_midpoint_of_range() {
    assert_eq!(map_to_range(0, -ONE, ONE, 0, 100 * ONE), 50 * ONE);
    assert_eq!(map_to_range(-ONE, -ONE, ONE, 0, 100 * ONE), 0);
    assert_eq!(map_to_range(ONE, -ONE, ONE, 0, 100 * ONE), 100 * ONE);
}

#[test]
fn edge_function_of_unit_triangle() {
    let p = Vec2Fx { x: 0, y: 0 };
    let a = Vec2Fx { x: ONE, y: 0 };
    let b = Vec2Fx { x: 0, y: ONE };
    assert_eq!(edge_function(p, a, b), -(ONE * ONE));
}

#[test]
fn edge_weights_sum_to_area() {
    let v0 = Vec2Fx { x: 3 * ONE, y: ONE };
    let v1 = Vec2Fx { x: 11 * ONE, y: 2 * ONE };
    let v2 = Vec2Fx { x: 5 * ONE, y: 9 * ONE };
    let area = edge_function(v0, v1, v2);
    for (px, py) in [(0, 0), (4 * ONE, 3 * ONE), (-7 * ONE, 13 * ONE)] {
        let p = Vec2Fx { x: px, y: py };
        let e0 = edge_function(p, v1, v2);
        let e1 = edge_function(p, v2, v0);
        let e2 = edge_function(p, v0, v1);
        assert_eq!(e0 + e1 + e2, area);
    }
}

#[test]
fn clip_keeps_front_triangle_unchanged() {
    let tri = [
        vertex_at(-ONE, -ONE, 0, ONE, (ONE, ONE, ONE)),
        vertex_at(ONE, -ONE, ONE, ONE, (ONE, ONE, ONE)),
        vertex_at(0, ONE, 2 * ONE, ONE, (ONE, ONE, ONE)),
    ];
    let out = clip_triangle(&tri);
    assert_eq!(out.len(), 1);
    assert_eq!(out[0], tri);
}

#[test]
fn clip_drops_fully_behind_triangle() {
    let tri = [
        vertex_at(-ONE, -ONE, -ONE, ONE, (ONE, ONE, ONE)),
        vertex_at(ONE, -ONE, -2 * ONE, ONE, (ONE, ONE, ONE)),
        vertex_at(0, ONE, -ONE, ONE, (ONE, ONE, ONE)),
    ];
    let out = clip_triangle(&tri);
    assert_eq!(out.len(), 0);
}

#[test]
fn clip_one_behind_yields_two_front_triangles() {
    let tri = [
        vertex_at(-ONE, -ONE, ONE, ONE, (ONE, ONE, ONE)),
        vertex_at(ONE, -ONE, ONE, ONE, (ONE, ONE, ONE)),
        vertex_at(0, ONE, -ONE, ONE, (ONE, ONE, ONE)),
    ];
    let out = clip_triangle(&tri);
    assert_eq!(out.len(), 2);
    for piece in &out {
        for v in piece {
            assert!(v.pos.z >= 0);
        }
    }
}

#[test]
fn clip_two_behind_yields_one_front_triangle() {
    let tri = [
        vertex_at(-ONE, -ONE, ONE, ONE, (ONE, ONE, ONE)),
        vertex_at(ONE, -ONE, -ONE, ONE, (ONE, ONE, ONE)),
        vertex_at(0, ONE, -ONE, ONE, (ONE, ONE, ONE)),
    ];
    let out = clip_triangle(&tri);
    assert_eq!(out.len(), 1);
    for v in &out[0] {
        assert!(v.pos.z >= 0);
    }
}

#[test]
fn clip_two_behind_places_crossings_on_the_plane() {
    // The front vertex sits at z = 1, both others at z = -1, so both
    // crossings happen at the exact midpoints of the edges.
    let tri = [
        vertex_at(0, 0, ONE, ONE, (ONE, ONE, ONE)),
        vertex_at(2 * ONE, 0, -ONE, ONE, (ONE, ONE, ONE)),
        vertex_at(0, 2 * ONE, -ONE, ONE, (ONE, ONE, ONE)),
    ];
    let out = clip_triangle(&tri);
    assert_eq!(out.len(), 1);
    assert_eq!(out[0][0], tri[0]);
    assert_eq!(out[0][1].pos.z, 0);
    assert_eq!(out[0][2].pos.z, 0);
    assert_eq!(out[0][1].pos.x, ONE);
    assert_eq!(out[0][2].pos.y, ONE);
}

#[test]
fn clipped_vertices_stay_in_front_for_straddling_depths() {
    for (z0, z1) in [
        (0, -1),
        (1, -1),
        (ONE, -3),
        (3, -ONE),
        (5 * ONE, -2 * ONE),
        (65535, -65537),
        (12345, -54321),
    ] {
        let tri = [
            vertex_at(-ONE, -ONE, z0, ONE, (ONE, ONE, ONE)),
            vertex_at(ONE, -ONE, z1, ONE, (ONE, ONE, ONE)),
            vertex_at(0, ONE, z1, ONE, (ONE, ONE, ONE)),
        ];
        for piece in clip_triangle(&tri) {
            for v in &piece {
                assert!(v.pos.z >= 0);
            }
        }
    }
}

#[test]
fn interpolate_midpoint_averages_components() {
    let a = vertex_at(0, 0, ONE, ONE, (ONE, 0, 0));
    let b = vertex_at(2 * ONE, 4 * ONE, -ONE, ONE, (0, 0, 0));
    let mid = interpolate(&a, &b, 32768);
    assert_eq!(mid.pos.x, ONE);
    assert_eq!(mid.pos.y, 2 * ONE);
    assert_eq!(mid.pos.z, 0);
    assert_eq!(mid.color.x, 32768);
}

#[test]
fn vertex_algebra_is_componentwise() {
    let a = vertex_at(2 * ONE, -4 * ONE, 6 * ONE, ONE, (ONE, ONE / 2, 0));
    let half = a.mul(32768);
    assert_eq!(half.pos.x, ONE);
    assert_eq!(half.pos.y, -2 * ONE);
    assert_eq!(half.pos.z, 3 * ONE);
    assert_eq!(half.color.x, 32768);
    let b = vertex_at(ONE, ONE, ONE, ONE, (0, ONE / 2, ONE));
    let sum = a.add(b);
    assert_eq!(sum.pos.x, 3 * ONE);
    assert_eq!(sum.color.y, ONE);
    assert_eq!(sum.color.z, ONE);
}

#[test]
fn texture_sampling_wraps_both_axes() {
    let mut data: Vec<u32> = Vec::new();
    for i in 0..16 {
        data.push(i as u32);
    }
    let tex = Texture { width: 4, height: 4, data };
    // u = 1.25 wraps to texel column 1; v = -0.25 wraps to texel row 3.
    let c = tex.sample(ONE + ONE / 4, -(ONE / 4));
    assert_eq!(c, 13);
}

#[test]
fn texture_from_rgb8_packs_opaque_texels() {
    let bytes = vec![1u8, 2, 3, 4, 5, 6];
    let tex = Texture::from_rgb8(2, 1, &bytes);
    assert_eq!(tex.data[0], from_u8_rgba(1, 2, 3, 255));
    assert_eq!(tex.data[1], from_u8_rgba(4, 5, 6, 255));
}

#[test]
fn mesh_sections_default_missing_buffers() {
    let mut mesh = Mesh::new();
    let triangles = vec![[0u32, 1, 2]];
    let positions = vec![
        Vec3Fx { x: 0, y: 0, z: 0 },
        Vec3Fx { x: ONE, y: 0, z: 0 },
        Vec3Fx { x: 0, y: ONE, z: 0 },
    ];
    let normals = vec![
        Vec3Fx { x: 0, y: 0, z: ONE },
        Vec3Fx { x: 0, y: 0, z: ONE },
        Vec3Fx { x: 0, y: 0, z: ONE },
    ];
    let colors: Vec<Vec3Fx> = Vec::new();
    let uvs = vec![
        Vec2Fx { x: 0, y: 0 },
        Vec2Fx { x: ONE, y: 0 },
        Vec2Fx { x: 0, y: ONE },
    ];
    mesh.add_section_from_buffers(&triangles, &positions, &normals, &colors, &uvs);
    assert_eq!(mesh.indices.len(), 1);
    assert_eq!(mesh.vertices.len(), 3);
    assert_eq!(mesh.vertices[0].pos.w, ONE);
    assert_eq!(mesh.vertices[1].color, Vec3Fx { x: ONE, y: ONE, z: ONE });
    assert_eq!(mesh.vertices[1].uv, Vec2Fx { x: ONE, y: 0 });
}

#[test]
fn closer_triangle_wins_either_order() {
    let far = full_screen_triangle(ONE, (ONE, ONE, ONE));
    let near = full_screen_triangle(32768, (ONE, 0, 0));
    let vp = (8usize, 8usize);
    let center = 4 * 8 + 4;

    let mut frame = vec![0u32; 64];
    let mut depth = vec![i128::MAX; 64];
    rasterize_triangle(&far, &None, &mut frame, &mut depth, vp);
    let far_depth = depth[center];
    rasterize_triangle(&near, &None, &mut frame, &mut depth, vp);
    assert_eq!(frame[center], 0xFFFF0000);
    assert!(depth[center] < far_depth);

    let mut frame2 = vec![0u32; 64];
    let mut depth2 = vec![i128::MAX; 64];
    rasterize_triangle(&near, &None, &mut frame2, &mut depth2, vp);
    rasterize_triangle(&far, &None, &mut frame2, &mut depth2, vp);
    assert_eq!(frame2[center], 0xFFFF0000);
    assert_eq!(depth2[center], depth[center]);
}

#[test]
fn equal_depth_keeps_first_triangle() {
    let first = full_screen_triangle(ONE, (ONE, ONE, ONE));
    let second = full_screen_triangle(ONE, (ONE, 0, 0));
    let vp = (8usize, 8usize);
    let center = 4 * 8 + 4;
    let mut frame = vec![0u32; 64];
    let mut depth = vec![i128::MAX; 64];
    rasterize_triangle(&first, &None, &mut frame, &mut depth, vp);
    rasterize_triangle(&second, &None, &mut frame, &mut depth, vp);
    assert_eq!(frame[center], 0xFFFFFFFF);
}

#[test]
fn unit_quad_fills_centered_square() {
    // A unit quad five units in front of the camera under a 90 degree
    // field of view: in clip space, w = 5 and x, y span one unit.
    let w = 5 * ONE;
    let white = (ONE, ONE, ONE);
    let quad = [
        vertex_at(-ONE, -ONE, ONE, w, white),
        vertex_at(ONE, -ONE, ONE, w, white),
        vertex_at(-ONE, ONE, ONE, w, white),
        vertex_at(ONE, ONE, ONE, w, white),
    ];
    let tris = [
        [quad[0], quad[1], quad[2]],
        [quad[1], quad[2], quad[3]],
    ];
    let vp = (100usize, 100usize);
    let mut frame = vec![0u32; 100 * 100];
    let mut depth = vec![i128::MAX; 100 * 100];
    for tri in &tris {
        clip_and_rasterize_triangle(*tri, identity(), &None, &mut frame, &mut depth, vp);
    }
    let at = |x: usize, y: usize| y * 100 + x;
    // The filled square sits roughly centered, about 20 pixels wide.
    assert_ne!(frame[at(50, 50)], 0);
    assert_ne!(frame[at(42, 42)], 0);
    assert_ne!(frame[at(58, 58)], 0);
    assert_eq!(frame[at(10, 10)], 0);
    assert_eq!(frame[at(90, 90)], 0);
    assert_eq!(depth[at(10, 10)], i128::MAX);
    // Coplanar quad: one depth everywhere it was filled, and closer
    // than the cleared value.
    let d = depth[at(50, 50)];
    assert!(d < i128::MAX);
    assert_eq!(depth[at(42, 42)], d);
    assert_eq!(depth[at(58, 58)], d);
    assert_eq!(depth[at(50, 45)], d);
}
