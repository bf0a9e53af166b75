use dem2mesh::compact::optimize;
use dem2mesh::mesh::{check_mesh, indices_in_range, used_vertices};

fn numbered_vertices(count: i32) -> Vec<i32> {
    (0..count).flat_map(|v| [10 * v, 10 * v + 1, 10 * v + 2]).collect()
}

#[test]
fn unused_vertices_are_dropped() {
    let positions = numbered_vertices(6);
    let mut indices: Vec<u32> = vec![4, 1, 5];
    let compact = optimize(&mut indices, &positions);
    assert_eq!(compact, vec![40, 41, 42, 10, 11, 12, 50, 51, 52]);
    assert_eq!(indices, vec![0, 1, 2]);
}

#[test]
fn vertices_come_in_order_of_first_use() {
    let positions = numbered_vertices(5);
    let mut indices: Vec<u32> = vec![3, 0, 3, 4, 0, 3, 1, 4, 1];
    let compact = optimize(&mut indices, &positions);
    assert_eq!(compact, vec![30, 31, 32, 0, 1, 2, 40, 41, 42, 10, 11, 12]);
    assert_eq!(indices, vec![0, 1, 0, 2, 1, 0, 3, 2, 3]);
}

#[test]
fn fully_used_buffer_in_order_is_unchanged() {
    let positions = numbered_vertices(4);
    let mut indices: Vec<u32> = vec![0, 1, 2, 2, 1, 3];
    let compact = optimize(&mut indices, &positions);
    assert_eq!(compact, positions);
    assert_eq!(indices, vec![0, 1, 2, 2, 1, 3]);
}

#[test]
fn no_indices_leave_no_vertices() {
    let positions = numbered_vertices(4);
    let mut indices: Vec<u32> = Vec::new();
    let compact = optimize(&mut indices, &positions);
    assert!(compact.is_empty());
    assert!(indices.is_empty());
}

#[test]
fn every_kept_vertex_is_referenced() {
    let positions = numbered_vertices(9);
    let mut indices: Vec<u32> = vec![8, 2, 5, 5, 2, 7, 7, 2, 8];
    let compact = optimize(&mut indices, &positions);
    let kept = compact.len() / 3;
    assert_eq!(kept, 4);
    for v in 0..kept as u32 {
        assert!(indices.contains(&v));
    }
    assert!(indices.iter().all(|&i| (i as usize) < kept));
}

#[test]
fn kept_vertex_count_is_the_distinct_index_count() {
    let positions = numbered_vertices(7);
    let given: Vec<u32> = vec![6, 6, 6, 1, 6, 1, 0, 0, 1];
    let mut distinct = given.clone();
    distinct.sort();
    distinct.dedup();
    let mut indices = given.clone();
    let compact = optimize(&mut indices, &positions);
    assert_eq!(compact.len() / 3, distinct.len());
}

#[test]
fn corners_keep_their_coordinates() {
    let positions = numbered_vertices(9);
    let given: Vec<u32> = vec![8, 2, 5, 5, 2, 7, 7, 2, 8, 0, 8, 3];
    let mut indices = given.clone();
    let compact = optimize(&mut indices, &positions);
    assert_eq!(indices.len(), given.len());
    for (new, old) in indices.iter().zip(given.iter()) {
        let n = 3 * *new as usize;
        let o = 3 * *old as usize;
        assert_eq!(compact[n..n + 3], positions[o..o + 3]);
    }
}

#[test]
fn range_check_finds_the_offender() {
    assert!(indices_in_range(&[0, 1, 2], 3));
    assert!(!indices_in_range(&[0, 3, 2], 3));
    assert!(indices_in_range(&[], 0));
    assert!(!indices_in_range(&[0], 0));
}

#[test]
fn mesh_check_wants_whole_vertices_and_triangles() {
    assert!(check_mesh(&[0, 0, 0, 1, 1, 1, 2, 2, 2], &[0, 1, 2]));
    assert!(!check_mesh(&[0, 0, 0, 1, 1, 1, 2, 2], &[0, 1, 1]));
    assert!(!check_mesh(&[0, 0, 0, 1, 1, 1, 2, 2, 2], &[0, 1]));
    assert!(!check_mesh(&[0, 0, 0, 1, 1, 1, 2, 2, 2], &[0, 1, 3]));
    assert!(check_mesh(&[], &[]));
}

#[test]
fn used_vertices_are_marked() {
    assert_eq!(used_vertices(&[0, 2, 2, 5], 4), vec![true, false, true, false]);
    assert_eq!(used_vertices(&[], 3), vec![false, false, false]);
    assert_eq!(used_vertices(&[1, 0, 1], 2), vec![true, true]);
    assert_eq!(used_vertices(&[1, 0, 1], 0), Vec::<bool>::new());
    assert_eq!(used_vertices(&[u32::MAX], 1), vec![false]);
}
