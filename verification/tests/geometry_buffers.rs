use scene_graph::geometry::{
    byte_size, fits, indices_in_range, is_consistent, upload_plan, uploaded_handle, Attribute,
    UploadStep,
};
use scene_graph::resource::ResourceHandle;

#[test]
fn one_triangle_is_consistent() {
    assert!(is_consistent(9, 12, 9, &vec![0, 1, 2]));
}

#[test]
fn indices_may_name_any_subset_of_the_vertices() {
    assert!(is_consistent(12, 16, 12, &vec![3, 3, 3]));
    assert!(is_consistent(12, 16, 12, &vec![0, 1, 2, 2, 1, 3]));
}

#[test]
fn empty_buffers_are_not_consistent() {
    assert!(!is_consistent(0, 0, 0, &vec![]));
    assert!(!is_consistent(0, 0, 0, &vec![0, 1, 2]));
    assert!(!is_consistent(9, 12, 9, &vec![]));
}

#[test]
fn buffers_with_different_vertex_counts_are_not_consistent() {
    assert!(!is_consistent(9, 16, 9, &vec![0, 1, 2]));
    assert!(!is_consistent(9, 12, 12, &vec![0, 1, 2]));
    assert!(!is_consistent(9, 8, 9, &vec![0, 1, 2]));
    assert!(!is_consistent(9, 12, 6, &vec![0, 1, 2]));
}

#[test]
fn buffers_with_partial_vertices_are_not_consistent() {
    assert!(!is_consistent(10, 12, 9, &vec![0, 1, 2]));
    assert!(!is_consistent(9, 13, 9, &vec![0, 1, 2]));
    assert!(!is_consistent(9, 12, 10, &vec![0, 1, 2]));
    assert!(!is_consistent(9, 12, 11, &vec![0, 1, 2]));
}

#[test]
fn partial_triangles_are_not_consistent() {
    assert!(!is_consistent(9, 12, 9, &vec![0, 1]));
    assert!(!is_consistent(9, 12, 9, &vec![0, 1, 2, 0]));
}

#[test]
fn an_index_beyond_the_vertices_is_not_consistent() {
    assert!(!is_consistent(9, 12, 9, &vec![0, 1, 3]));
    assert!(!is_consistent(9, 12, 9, &vec![3, 1, 2]));
}

#[test]
fn indices_in_range_checks_every_index() {
    assert!(indices_in_range(&vec![], 0));
    assert!(indices_in_range(&vec![0, 4, 2], 5));
    assert!(!indices_in_range(&vec![0, 5, 2], 5));
    assert!(!indices_in_range(&vec![0, 1, 2, 7], 5));
}

#[test]
fn small_buffers_fit() {
    assert!(fits(9, 12, 9, 3));
    assert!(fits(0, 0, 0, 0));
}

#[test]
fn too_many_indices_do_not_fit_a_draw_call() {
    assert!(fits(9, 12, 9, 0x7fff_ffff) || usize::MAX / 4 < 0x7fff_ffff);
    assert!(!fits(9, 12, 9, 0x8000_0000));
}

#[test]
fn buffers_larger_than_the_signed_size_do_not_fit() {
    let most = isize::MAX as usize / 4;
    assert!(fits(most, 12, 9, 3));
    assert!(!fits(most + 1, 12, 9, 3));
    assert!(!fits(9, most + 1, 9, 3));
    assert!(!fits(9, 12, most + 1, 3));
    assert!(!fits(9, 12, 9, most + 1));
}

#[test]
fn byte_size_is_four_bytes_for_each_item() {
    assert_eq!(byte_size(0), 0);
    assert_eq!(byte_size(9), 36);
    assert_eq!(byte_size(12), 48);
}

#[test]
fn attributes_have_their_slots_and_strides() {
    assert_eq!(Attribute::Position.slot(), 0);
    assert_eq!(Attribute::Color.slot(), 1);
    assert_eq!(Attribute::Normal.slot(), 2);
    assert_eq!(Attribute::Position.components(), 3);
    assert_eq!(Attribute::Color.components(), 4);
    assert_eq!(Attribute::Normal.components(), 3);
    assert_eq!(Attribute::Position.stride(), 12);
    assert_eq!(Attribute::Color.stride(), 16);
    assert_eq!(Attribute::Normal.stride(), 12);
}

#[test]
fn upload_plan_of_one_triangle() {
    let plan = upload_plan(9, 12, 9, &vec![0, 1, 2]);
    assert_eq!(
        plan,
        vec![
            UploadStep::CreateVertexArray,
            UploadStep::UploadVertexBuffer { attribute: Attribute::Position, bytes: 36 },
            UploadStep::DescribeAttribute { slot: 0, components: 3, stride: 12 },
            UploadStep::EnableAttribute { slot: 0 },
            UploadStep::UploadVertexBuffer { attribute: Attribute::Color, bytes: 48 },
            UploadStep::DescribeAttribute { slot: 1, components: 4, stride: 16 },
            UploadStep::EnableAttribute { slot: 1 },
            UploadStep::UploadVertexBuffer { attribute: Attribute::Normal, bytes: 36 },
            UploadStep::DescribeAttribute { slot: 2, components: 3, stride: 12 },
            UploadStep::EnableAttribute { slot: 2 },
            UploadStep::UploadIndexBuffer { bytes: 12 },
        ]
    );
}

#[test]
fn upload_plan_sizes_follow_the_buffers() {
    let plan = upload_plan(12, 16, 12, &vec![0, 1, 2, 2, 1, 3]);
    assert_eq!(plan.len(), 11);
    assert_eq!(
        plan[1],
        UploadStep::UploadVertexBuffer { attribute: Attribute::Position, bytes: 48 }
    );
    assert_eq!(plan[4], UploadStep::UploadVertexBuffer { attribute: Attribute::Color, bytes: 64 });
    assert_eq!(plan[7], UploadStep::UploadVertexBuffer { attribute: Attribute::Normal, bytes: 48 });
    assert_eq!(plan[10], UploadStep::UploadIndexBuffer { bytes: 24 });
}

#[test]
fn uploaded_handle_draws_every_index() {
    let handle = uploaded_handle(7, &vec![0, 1, 2, 2, 1, 3]);
    assert_eq!(handle, ResourceHandle::new(7, 6));
    assert!(handle.has_geometry());
}
