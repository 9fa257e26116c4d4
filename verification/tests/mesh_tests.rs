use trifan::CoreError;
use trifan::mesh::Position;
use trifan::mesh::Vertex;
use trifan::mesh::fan_sides;
use trifan::mesh::triangle_fan;
use trifan::mesh::triangle_fan_3D;

fn rim_xy(step: u32, sides: u32) -> (f32, f32) {
    let angle = 2.0 * std::f32::consts::PI * step as f32 / sides as f32;
    (angle.cos() * 0.5, angle.sin() * 0.5)
}

#[test]
fn fan_of_three_is_the_documented_scenario() {
    let (vertices, indices) = triangle_fan(3).unwrap();
    assert_eq!(vertices.len(), 4);
    assert_eq!(vertices[0], Vertex { position: Position::Center, entity_id: 0 });
    assert_eq!(vertices[1], Vertex { position: Position::Rim { step: 0, sides: 3 }, entity_id: 0 });
    assert_eq!(vertices[2], Vertex { position: Position::Rim { step: 1, sides: 3 }, entity_id: 0 });
    assert_eq!(vertices[3], Vertex { position: Position::Rim { step: 2, sides: 3 }, entity_id: 0 });
    assert_eq!(indices, vec![0, 1, 2, 0, 2, 3, 0, 3, 1]);
}

#[test]
fn fan_of_three_perimeter_angles() {
    let (vertices, _) = triangle_fan(3).unwrap();
    for (k, expected_deg) in [(1usize, 0.0f32), (2, 120.0), (3, 240.0)] {
        match vertices[k].position {
            Position::Rim { step, sides } => {
                assert_eq!(sides, 3);
                let angle_deg = 360.0 * step as f32 / sides as f32;
                assert!((angle_deg - expected_deg).abs() < 1e-4);
            },
            Position::Center => panic!("perimeter vertex expected"),
        }
    }
}

#[test]
fn fan_counts_and_index_bounds() {
    for n in 3u32..=12 {
        let (vertices, indices) = triangle_fan(n).unwrap();
        assert_eq!(vertices.len(), (n + 1) as usize);
        assert_eq!(indices.len(), (3 * n) as usize);
        for &ix in &indices {
            assert!(ix < n + 1);
        }
    }
}

#[test]
fn fan_perimeter_on_half_radius_circle() {
    let (vertices, _) = triangle_fan(8).unwrap();
    for v in &vertices[1..] {
        match v.position {
            Position::Rim { step, sides } => {
                let (x, y) = rim_xy(step, sides);
                let dist = (x * x + y * y).sqrt();
                assert!((dist - 0.5).abs() < 1e-6);
            },
            Position::Center => panic!("perimeter vertex expected"),
        }
    }
}

#[test]
fn fan_rejects_too_few_sides() {
    assert_eq!(triangle_fan(0), Err(CoreError::InvalidPolygonSides));
    assert_eq!(triangle_fan(1), Err(CoreError::InvalidPolygonSides));
    assert_eq!(triangle_fan(2), Err(CoreError::InvalidPolygonSides));
    assert!(triangle_fan(3).is_ok());
}

#[test]
fn replicated_counts_and_entity_ids() {
    let n = 5u32;
    let entity_count = 4u32;
    let (vertices, indices) = triangle_fan_3D(n, entity_count).unwrap();
    assert_eq!(vertices.len(), ((n + 1) * entity_count) as usize);
    assert_eq!(indices.len(), (3 * n * entity_count) as usize);
    for id in 0..entity_count {
        for k in 0..(n + 1) {
            let v = vertices[(id * (n + 1) + k) as usize];
            assert_eq!(v.entity_id, id);
        }
    }
}

#[test]
fn replicated_blocks_repeat_the_base_fan() {
    let n = 3u32;
    let (base_v, base_i) = triangle_fan(n).unwrap();
    let (vertices, indices) = triangle_fan_3D(n, 3).unwrap();
    for id in 0..3u32 {
        for k in 0..(n + 1) {
            let v = vertices[(id * (n + 1) + k) as usize];
            assert_eq!(v.position, base_v[k as usize].position);
        }
        for m in 0..(3 * n) {
            let ix = indices[(id * 3 * n + m) as usize];
            assert_eq!(ix, base_i[m as usize] + id * (n + 1));
            assert!((ix as usize) < vertices.len());
        }
    }
}

#[test]
fn replicated_with_one_entity_equals_base() {
    let (base_v, base_i) = triangle_fan(4).unwrap();
    let (vertices, indices) = triangle_fan_3D(4, 1).unwrap();
    assert_eq!(vertices, base_v);
    assert_eq!(indices, base_i);
}

#[test]
fn replicated_rejects_zero_entities() {
    assert_eq!(triangle_fan_3D(3, 0), Err(CoreError::InvalidEntityCount));
    assert_eq!(triangle_fan_3D(2, 5), Err(CoreError::InvalidPolygonSides));
}

#[test]
fn fan_sides_cycles_from_three_to_eight() {
    assert_eq!(fan_sides(0), 3);
    assert_eq!(fan_sides(1), 4);
    assert_eq!(fan_sides(5), 8);
    assert_eq!(fan_sides(6), 3);
    assert_eq!(fan_sides(13), 4);
}
