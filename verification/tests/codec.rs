use binary_greedy_meshing::{face_value, get_axis_index, indices, pad_linearize, PackedQuad};
use binary_greedy_meshing::{CS, CS_2, CS_P, CS_P2, CS_P3};
use std::collections::BTreeSet;

#[test]
fn chunk_constants_agree() {
    assert_eq!(CS, 62);
    assert_eq!(CS_2, CS * CS);
    assert_eq!(CS_P, CS + 2);
    assert_eq!(CS_P2, CS_P * CS_P);
    assert_eq!(CS_P3, CS_P * CS_P * CS_P);
}

#[test]
fn pad_linearize_exact_values() {
    assert_eq!(pad_linearize(0, 0, 0), 4161);
    assert_eq!(pad_linearize(1, 2, 3), 4 + 2 * 64 + 3 * 4096);
    assert_eq!(pad_linearize(61, 61, 61), 257982);
    assert_eq!(pad_linearize(62, 62, 62), CS_P3 - 1);
}

#[test]
fn pad_linearize_is_one_to_one_on_the_chunk() {
    let mut seen = vec![false; CS_P3];
    for y in 0..CS {
        for x in 0..CS {
            for z in 0..CS {
                let at = pad_linearize(x, y, z);
                assert!(!seen[at]);
                seen[at] = true;
            }
        }
    }
}

#[test]
fn axis_index_permutes_by_axis() {
    assert_eq!(get_axis_index(0, 1, 2, 3), 2 + 64 + 3 * 4096);
    assert_eq!(get_axis_index(1, 1, 2, 3), 2 + 3 * 64 + 4096);
    assert_eq!(get_axis_index(2, 1, 2, 3), 3 + 64 + 2 * 4096);
    assert_eq!(get_axis_index(5, 1, 2, 3), 3 + 64 + 2 * 4096);
}

#[test]
fn packed_quad_exact_words() {
    let quad = PackedQuad::new(1, 2, 3, 4, 5, 6, 7);
    assert_eq!(quad.data1, 84947073);
    assert_eq!(quad.data2, 458758);
    let full = PackedQuad::new(63, 63, 63, 63, 63, 0xffff, 0xffff);
    assert_eq!(full.data1, 0x3fff_ffff);
    assert_eq!(full.data2, 0xffff_ffff);
    let zero = PackedQuad::new(0, 0, 0, 0, 0, 0, 0);
    assert_eq!((zero.data1, zero.data2), (0, 0));
}

#[test]
fn packed_quad_round_trip() {
    for v in 0..64usize {
        let quad = PackedQuad::new(
            v,
            63 - v,
            (v * 5) % 64,
            (v + 17) % 64,
            (v * 3 + 1) % 64,
            (v * 1021) as u16,
            (65535 - v * 999) as u16,
        );
        assert_eq!(quad.x(), v);
        assert_eq!(quad.y(), 63 - v);
        assert_eq!(quad.z(), (v * 5) % 64);
        assert_eq!(quad.w(), (v + 17) % 64);
        assert_eq!(quad.h(), (v * 3 + 1) % 64);
        assert_eq!(quad.material(), (v * 1021) as u16);
        assert_eq!(quad.normal(), (65535 - v * 999) as u16);
    }
}

#[test]
fn packed_quad_round_trip_of_each_field_alone() {
    for v in 0..64usize {
        assert_eq!(PackedQuad::new(v, 0, 0, 0, 0, 0, 0).x(), v);
        assert_eq!(PackedQuad::new(0, v, 0, 0, 0, 0, 0).y(), v);
        assert_eq!(PackedQuad::new(0, 0, v, 0, 0, 0, 0).z(), v);
        assert_eq!(PackedQuad::new(0, 0, 0, v, 0, 0, 0).w(), v);
        assert_eq!(PackedQuad::new(0, 0, 0, 0, v, 0, 0).h(), v);
    }
    for v in [0u16, 1, 255, 256, 0x7fff, 0x8000, 0xffff] {
        assert_eq!(PackedQuad::new(0, 0, 0, 0, 0, v, 0).material(), v);
        assert_eq!(PackedQuad::new(0, 0, 0, 0, 0, 0, v).normal(), v);
        assert_eq!(PackedQuad::new(63, 63, 63, 63, 63, v, !v).material(), v);
        assert_eq!(PackedQuad::new(63, 63, 63, 63, 63, !v, v).normal(), v);
    }
}

#[test]
fn packed_quad_fields_wrap_at_six_bits() {
    let quad = PackedQuad::new(64 + 5, 128 + 6, 64 * 1000 + 7, 64, 255, 1, 2);
    assert_eq!((quad.x(), quad.y(), quad.z(), quad.w(), quad.h()), (5, 6, 7, 0, 63));
    assert_eq!((quad.material(), quad.normal()), (1, 2));
    assert_eq!(quad, PackedQuad::new(5, 6, 7, 0, 63, 1, 2));
    assert_eq!(quad.data1 >> 30, 0);
}

#[test]
fn packed_quad_decodes_any_words() {
    let quad = PackedQuad { data1: 0xffff_ffff, data2: 0x1234_5678 };
    assert_eq!((quad.x(), quad.y(), quad.z(), quad.w(), quad.h()), (63, 63, 63, 63, 63));
    assert_eq!((quad.material(), quad.normal()), (0x5678, 0x1234));
}

#[test]
fn face_value_follows_the_rule() {
    let transparents: BTreeSet<u16> = [0, 2, 3, 65535].into_iter().collect();
    let ids = [0u16, 1, 2, 3, 4, 65534, 65535];
    for &v1 in &ids {
        for &v2 in &ids {
            let expected = v2 == 0 || (v1 != v2 && transparents.contains(&v2));
            assert_eq!(face_value(v1, v2, &transparents), expected as u64);
        }
    }
}

#[test]
fn face_value_exact_cases() {
    let transparents: BTreeSet<u16> = [2].into_iter().collect();
    assert_eq!(face_value(1, 0, &transparents), 1);
    assert_eq!(face_value(1, 2, &transparents), 1);
    assert_eq!(face_value(1, 3, &transparents), 0);
    assert_eq!(face_value(1, 1, &transparents), 0);
    assert_eq!(face_value(2, 2, &transparents), 0);
    assert_eq!(face_value(2, 1, &transparents), 0);
    assert_eq!(face_value(0, 0, &BTreeSet::new()), 1);
}

#[test]
fn same_material_is_hidden_whatever_is_transparent() {
    for v in [1u16, 2, 77, 65535] {
        assert_eq!(face_value(v, v, &BTreeSet::new()), 0);
        assert_eq!(face_value(v, v, &[v].into_iter().collect()), 0);
        assert_eq!(face_value(v, v, &[0, 1, 2, 77, 65535].into_iter().collect()), 0);
    }
}

#[test]
fn indices_of_no_quads() {
    assert!(indices(0).is_empty());
}

#[test]
fn indices_exact_values() {
    assert_eq!(indices(1), vec![2, 0, 1, 1, 3, 2]);
    assert_eq!(indices(3), vec![2, 0, 1, 1, 3, 2, 6, 4, 5, 5, 7, 6, 10, 8, 9, 9, 11, 10]);
}

#[test]
fn indices_length_and_pattern() {
    for n in [0usize, 1, 2, 17, 1000] {
        let res = indices(n);
        assert_eq!(res.len(), 6 * n);
        for i in 0..n {
            let base = (i as u32) << 2;
            assert_eq!(
                res[6 * i..6 * i + 6],
                [base | 2, base | 0, base | 1, base | 1, base | 3, base | 2]
            );
        }
    }
}
