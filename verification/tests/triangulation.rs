use qevy::triangulation::{is_winding_in_range, retain_triangles, triangulate};

#[test]
fn polygons_with_too_few_corners_have_no_triangles() {
    assert_eq!(triangulate(&vec![]), None);
    assert_eq!(triangulate(&vec![0]), None);
    assert_eq!(triangulate(&vec![0, 1]), None);
}

#[test]
fn a_triangle_is_one_triangle() {
    assert_eq!(triangulate(&vec![0, 1, 2]), Some(vec![0, 1, 2]));
    assert_eq!(triangulate(&vec![2, 0, 1]), Some(vec![2, 0, 1]));
}

#[test]
fn a_fan_starts_every_triangle_at_the_first_corner() {
    assert_eq!(triangulate(&vec![0, 1, 2, 3]), Some(vec![0, 1, 2, 0, 2, 3]));
    assert_eq!(triangulate(&vec![3, 1, 0, 2]), Some(vec![3, 1, 0, 3, 0, 2]));
    assert_eq!(
        triangulate(&vec![4, 3, 2, 1, 0, 5]),
        Some(vec![4, 3, 2, 4, 2, 1, 4, 1, 0, 4, 0, 5])
    );
}

#[test]
fn a_polygon_of_n_corners_has_n_less_two_triangles() {
    for n in 3..40usize {
        let winding: Vec<usize> = (0..n).rev().collect();
        let triangles = triangulate(&winding).expect("three corners or more");
        assert_eq!(triangles.len(), 3 * (n - 2));
        for (t, corners) in triangles.chunks(3).enumerate() {
            assert_eq!(corners[0] as usize, winding[0]);
            assert_eq!(corners[1] as usize, winding[t + 1]);
            assert_eq!(corners[2] as usize, winding[t + 2]);
            assert!(corners[0] != corners[1] && corners[1] != corners[2] && corners[0] != corners[2]);
        }
        assert!(triangles.iter().all(|&i| (i as usize) < n));
    }
}

#[test]
fn windings_in_range() {
    assert!(is_winding_in_range(&vec![]));
    assert!(is_winding_in_range(&vec![0, 1, 2]));
    assert!(is_winding_in_range(&vec![2, 2, 2]));
    assert!(!is_winding_in_range(&vec![0, 1, 3]));
    assert!(!is_winding_in_range(&vec![1]));
}

#[test]
fn triangles_that_are_not_kept_are_left_out() {
    let fan = vec![0, 1, 2, 0, 2, 3, 0, 3, 4];
    assert_eq!(retain_triangles(&fan, &vec![true, true, true]), fan);
    assert_eq!(retain_triangles(&fan, &vec![true, false, true]), vec![0, 1, 2, 0, 3, 4]);
    assert_eq!(retain_triangles(&fan, &vec![false, true, false]), vec![0, 2, 3]);
    assert_eq!(retain_triangles(&fan, &vec![false, false, false]), Vec::<u32>::new());
    assert_eq!(retain_triangles(&vec![], &vec![]), Vec::<u32>::new());
}

#[test]
fn only_whole_triangles_with_a_mark_are_kept() {
    let fan = vec![0, 1, 2, 0, 2, 3, 0, 3];
    assert_eq!(retain_triangles(&fan, &vec![true, true, true, true]), vec![0, 1, 2, 0, 2, 3]);
    assert_eq!(retain_triangles(&fan, &vec![true]), vec![0, 1, 2]);
    assert_eq!(retain_triangles(&fan, &vec![]), Vec::<u32>::new());
}
