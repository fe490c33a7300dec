use rinha_backend_2026::top_k::TopK;
use rinha_backend_2026::TOP_K;

#[test]
fn top_k_prefers_smallest_distance() {
    let mut top_k = TopK::new();
    top_k.insert(80, 0);
    top_k.insert(50, 1);
    top_k.insert(40, 1);
    top_k.insert(30, 0);
    top_k.insert(20, 1);
    top_k.insert(10, 1);

    let labels = top_k.labels();
    assert_eq!(labels.iter().filter(|label| **label == 1).count(), 4);
}

#[test]
fn free_slots_have_label_zero() {
    let mut top_k = TopK::new();
    assert_eq!(top_k.len(), 0);
    top_k.insert(7, 9);
    top_k.insert(3, 8);
    assert_eq!(top_k.len(), 2);
    assert_eq!(top_k.labels(), [9, 8, 0, 0, 0]);
}

#[test]
fn farthest_slot_is_replaced_in_place() {
    let mut top_k = TopK::new();
    for (distance, label) in [(5, 1), (9, 2), (9, 3), (1, 4), (2, 5)] {
        top_k.insert(distance, label);
    }
    // As far as the farthest: nothing changes.
    top_k.insert(9, 6);
    assert_eq!(top_k.labels(), [1, 2, 3, 4, 5]);
    // Nearer: the first of the two farthest leaves.
    top_k.insert(8, 7);
    assert_eq!(top_k.labels(), [1, 7, 3, 4, 5]);
    top_k.insert(0, 8);
    assert_eq!(top_k.labels(), [1, 7, 8, 4, 5]);
    assert_eq!(top_k.len(), TOP_K);
}

#[test]
fn nearest_are_kept_whatever_the_order() {
    let mut state: u32 = 12345;
    for round in 0..200_u32 {
        let mut all: Vec<(u32, u8)> = Vec::new();
        let mut top_k = TopK::new();
        for item in 0..(round % 23) {
            state = state.wrapping_mul(1664525).wrapping_add(1013904223);
            // Distinct distances, so that the kept labels are determined.
            let distance = ((state >> 8) << 5) | item;
            all.push((distance, item as u8 + 1));
            top_k.insert(distance, item as u8 + 1);
        }
        all.sort();
        let mut expected: Vec<u8> = all.iter().take(TOP_K).map(|pair| pair.1).collect();
        expected.sort();
        let mut kept: Vec<u8> = top_k.labels().iter().copied().filter(|l| *l != 0).collect();
        kept.sort();
        assert_eq!(kept, expected);
    }
}
