use raytracer::hittable_list::{closest_hit, HittableList};
use std::sync::Arc;

#[test]
fn list_add_keeps_insertion_order() {
    let mut list = HittableList::new();
    assert!(list.objects.is_empty());
    list.add(Arc::new(1u32));
    list.add(Arc::new(2u32));
    let values: Vec<u32> = list.objects.iter().map(|o| **o).collect();
    assert_eq!(values, vec![1, 2]);
}

#[test]
fn list_from_object_and_clear() {
    let shared = Arc::new(7u32);
    let mut list = HittableList::from_object(shared.clone());
    list.add(shared.clone());
    assert_eq!(list.objects.len(), 2);
    assert!(Arc::ptr_eq(&list.objects[0], &list.objects[1]));
    list.clear();
    assert!(list.objects.is_empty());
    let d: HittableList<u32> = HittableList::default();
    assert!(d.objects.is_empty());
}

#[test]
fn closest_hit_of_no_objects() {
    assert_eq!(closest_hit(&vec![]), None);
}

#[test]
fn closest_hit_when_everything_missed() {
    assert_eq!(closest_hit(&vec![None, None, None]), None);
}

#[test]
fn closest_hit_picks_smallest_distance() {
    assert_eq!(closest_hit(&vec![Some(9), None, Some(4), Some(6)]), Some(2));
    assert_eq!(closest_hit(&vec![Some(1), Some(4)]), Some(0));
    assert_eq!(closest_hit(&vec![None, Some(4)]), Some(1));
}

#[test]
fn closest_hit_keeps_first_of_equal_distances() {
    assert_eq!(closest_hit(&vec![Some(5), Some(3), None, Some(3)]), Some(1));
}

#[test]
fn closest_hit_on_float_distances() {
    // Bit patterns of non-negative doubles are ordered as the doubles are.
    let ts = [2.5f64, 1.0, 7.0, 1.25];
    let hits: Vec<Option<u64>> = ts.iter().map(|t| Some(t.to_bits())).collect();
    assert_eq!(closest_hit(&hits), Some(1));
}

#[test]
fn closest_hit_matches_independent_minimum() {
    let hits = vec![Some(30u64), None, Some(12), Some(40), Some(12), None, Some(11)];
    let expected = hits
        .iter()
        .enumerate()
        .filter_map(|(k, h)| h.map(|t| (t, k)))
        .min()
        .map(|(_, k)| k);
    assert_eq!(closest_hit(&hits), expected);
    assert_eq!(expected, Some(6));
}
