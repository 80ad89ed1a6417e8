use rusty_mooring::mesh::{LineMesh, MeshError};

#[test]
fn node_count_is_one_more_than_the_elements() {
    let mesh = LineMesh::new(&vec![10, 20, 10]).unwrap();
    assert_eq!(mesh.segment_count(), 3);
    assert_eq!(mesh.element_count(), 40);
    assert_eq!(mesh.node_count(), 41);
}

#[test]
fn single_element_line_has_two_nodes() {
    let mesh = LineMesh::new(&vec![1]).unwrap();
    assert_eq!(mesh.segment_count(), 1);
    assert_eq!(mesh.element_count(), 1);
    assert_eq!(mesh.node_count(), 2);
    assert_eq!(mesh.segment_of_step(0), Some(0));
    assert_eq!(mesh.segment_of_step(1), None);
}

#[test]
fn a_line_needs_a_segment() {
    assert_eq!(LineMesh::new(&vec![]).err(), Some(MeshError::NoSegments));
}

#[test]
fn a_segment_needs_an_element() {
    assert_eq!(
        LineMesh::new(&vec![10, 0, 5]).err(),
        Some(MeshError::EmptySegment { index: 1 })
    );
    assert_eq!(
        LineMesh::new(&vec![-3]).err(),
        Some(MeshError::EmptySegment { index: 0 })
    );
}

#[test]
fn the_first_empty_segment_is_reported() {
    assert_eq!(
        LineMesh::new(&vec![4, 4, -1, 0]).err(),
        Some(MeshError::EmptySegment { index: 2 })
    );
}

#[test]
fn largest_element_count_is_accepted() {
    let mesh = LineMesh::new(&vec![i32::MAX, 1]).unwrap();
    assert_eq!(mesh.element_count(), i32::MAX as usize + 1);
    assert_eq!(mesh.node_count(), i32::MAX as usize + 2);
    assert_eq!(mesh.segment_of_step(i32::MAX as usize - 1), Some(0));
    assert_eq!(mesh.segment_of_step(i32::MAX as usize), Some(1));
}

#[test]
fn elements_in_reads_each_segment() {
    let mesh = LineMesh::new(&vec![10, 20, 10]).unwrap();
    assert_eq!(mesh.elements_in(0), Some(10));
    assert_eq!(mesh.elements_in(1), Some(20));
    assert_eq!(mesh.elements_in(2), Some(10));
    assert_eq!(mesh.elements_in(3), None);
}

#[test]
fn segments_begin_where_the_ones_above_end() {
    let mesh = LineMesh::new(&vec![10, 20, 10]).unwrap();
    assert_eq!(mesh.first_node_of(0), Some(0));
    assert_eq!(mesh.first_node_of(1), Some(10));
    assert_eq!(mesh.first_node_of(2), Some(30));
    assert_eq!(mesh.first_node_of(3), Some(40));
    assert_eq!(mesh.first_node_of(4), None);
}

#[test]
fn a_step_at_a_segment_join_belongs_to_the_lower_segment() {
    let mesh = LineMesh::new(&vec![10, 20, 10]).unwrap();
    assert_eq!(mesh.segment_of_step(9), Some(0));
    assert_eq!(mesh.segment_of_step(10), Some(1));
    assert_eq!(mesh.segment_of_step(29), Some(1));
    assert_eq!(mesh.segment_of_step(30), Some(2));
    assert_eq!(mesh.segment_of_step(39), Some(2));
}

#[test]
fn there_is_no_step_past_the_bottom_node() {
    let mesh = LineMesh::new(&vec![10, 20, 10]).unwrap();
    assert_eq!(mesh.segment_of_step(40), None);
    assert_eq!(mesh.segment_of_step(usize::MAX), None);
}

#[test]
fn every_segment_takes_as_many_steps_as_it_has_elements() {
    let counts = vec![3, 1, 7, 2];
    let mesh = LineMesh::new(&counts).unwrap();
    let mut steps = vec![0usize; counts.len()];
    for i in 0..mesh.element_count() {
        steps[mesh.segment_of_step(i).unwrap()] += 1;
    }
    assert_eq!(steps, vec![3, 1, 7, 2]);
}

#[test]
fn steps_pass_through_the_segments_in_order() {
    let mesh = LineMesh::new(&vec![2, 5, 1, 4]).unwrap();
    let mut last = 0;
    for i in 0..mesh.element_count() {
        let segment = mesh.segment_of_step(i).unwrap();
        assert!(segment >= last);
        assert!(segment - last <= 1);
        last = segment;
    }
    assert_eq!(last, 3);
}
