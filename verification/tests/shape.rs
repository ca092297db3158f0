use gpuarray::shape::{checked_offset, checked_volume, compute_dim_steps};

#[test]
fn strides_are_the_volumes_of_the_trailing_dimensions() {
    assert_eq!(compute_dim_steps(&[2, 3, 4]), vec![12, 4, 1]);
    assert_eq!(compute_dim_steps(&[7]), vec![1]);
    assert_eq!(compute_dim_steps(&[5, 1, 2, 3]), vec![6, 6, 3, 1]);
}

#[test]
fn strides_of_the_empty_shape_are_empty() {
    assert_eq!(compute_dim_steps(&[]), Vec::<usize>::new());
}

#[test]
fn strides_have_one_entry_per_dimension() {
    for rank in 0..6 {
        let shape = vec![2usize; rank];
        assert_eq!(compute_dim_steps(&shape).len(), rank);
    }
}

#[test]
fn strides_after_a_zero_dimension_are_zero_before_it() {
    assert_eq!(compute_dim_steps(&[4, 0, 3]), vec![0, 3, 1]);
}

#[test]
fn a_stride_beyond_usize_is_clamped() {
    assert_eq!(compute_dim_steps(&[0, usize::MAX, 2]), vec![usize::MAX, 2, 1]);
    assert_eq!(compute_dim_steps(&[1, usize::MAX, usize::MAX, 0]), vec![0, 0, 0, 1]);
    assert_eq!(
        compute_dim_steps(&[1, 2, usize::MAX, usize::MAX]),
        vec![usize::MAX, usize::MAX, usize::MAX, 1]
    );
}

#[test]
fn volume_is_the_product_of_the_sizes() {
    assert_eq!(checked_volume(&[]), Some(1));
    assert_eq!(checked_volume(&[6]), Some(6));
    assert_eq!(checked_volume(&[2, 3, 4]), Some(24));
    assert_eq!(checked_volume(&[2, 0, 4]), Some(0));
    assert_eq!(checked_volume(&[usize::MAX, 1, 1]), Some(usize::MAX));
}

#[test]
fn volume_beyond_usize_is_none() {
    assert_eq!(checked_volume(&[usize::MAX, 2]), None);
    assert_eq!(checked_volume(&[1 << (usize::BITS / 2), 1 << (usize::BITS / 2)]), None);
}

#[test]
fn volume_with_a_zero_dimension_is_zero_whatever_the_others() {
    assert_eq!(checked_volume(&[usize::MAX, usize::MAX, 0]), Some(0));
    assert_eq!(checked_volume(&[0, usize::MAX, usize::MAX]), Some(0));
}

#[test]
fn offset_is_the_dot_product_with_the_strides() {
    let shape = [2, 3, 4];
    let steps = compute_dim_steps(&shape);
    assert_eq!(checked_offset(&shape, &steps, &[0, 0, 0]), Some(0));
    assert_eq!(checked_offset(&shape, &steps, &[1, 2, 3]), Some(23));
    assert_eq!(checked_offset(&shape, &steps, &[1, 0, 2]), Some(14));
    assert_eq!(checked_offset(&[], &[], &[]), Some(0));
}

#[test]
fn offset_of_coordinates_out_of_bounds_is_none() {
    let shape = [2, 3, 4];
    let steps = compute_dim_steps(&shape);
    assert_eq!(checked_offset(&shape, &steps, &[2, 0, 0]), None);
    assert_eq!(checked_offset(&shape, &steps, &[0, 0, 4]), None);
    assert_eq!(checked_offset(&shape, &steps, &[0, 0]), None);
    assert_eq!(checked_offset(&shape, &steps, &[0, 0, 0, 0]), None);
    assert_eq!(checked_offset(&[], &[], &[0]), None);
}

#[test]
fn offsets_visit_every_index_once() {
    let shape = [3, 1, 2, 5];
    let steps = compute_dim_steps(&shape);
    let mut seen = vec![0; 30];
    for a in 0..3 {
        for c in 0..2 {
            for d in 0..5 {
                let at = checked_offset(&shape, &steps, &[a, 0, c, d]).unwrap();
                seen[at] += 1;
            }
        }
    }
    assert_eq!(seen, vec![1; 30]);
}
