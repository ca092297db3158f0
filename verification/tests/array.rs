use gpuarray::array::Array;
use gpuarray::error::Error;

#[test]
fn test_reshape() {
    let mut a = Array::from_vec(vec![2, 3], vec![1, 2, 3,
                                                 4, 5, 6]).unwrap();
    a.reshape(vec![6]).unwrap();

    assert!(*a.get(&[0]).unwrap() == 1);
    assert!(*a.get(&[1]).unwrap() == 2);
    assert!(*a.get(&[2]).unwrap() == 3);
    assert!(*a.get(&[3]).unwrap() == 4);
    assert!(*a.get(&[4]).unwrap() == 5);
    assert!(*a.get(&[5]).unwrap() == 6);
}

#[test]
fn test_array_indexing() {
    let a = Array::from_vec(vec![2, 3, 4], vec![1, 2, 3, 4,
                                                5, 6, 7, 8,
                                                9, 10, 11, 12,

                                                13, 14, 15, 16,
                                                17, 18, 19, 20,
                                                21, 22, 23, 24]).unwrap();
    assert!(*a.get(&[0, 0, 0]).unwrap() == 1);
    assert!(*a.get(&[0, 0, 1]).unwrap() == 2);
    assert!(*a.get(&[0, 0, 2]).unwrap() == 3);
    assert!(*a.get(&[0, 0, 3]).unwrap() == 4);
    assert!(*a.get(&[0, 1, 0]).unwrap() == 5);
    assert!(*a.get(&[0, 1, 1]).unwrap() == 6);
    assert!(*a.get(&[0, 1, 2]).unwrap() == 7);
    assert!(*a.get(&[0, 1, 3]).unwrap() == 8);
    assert!(*a.get(&[0, 2, 0]).unwrap() == 9);
    assert!(*a.get(&[0, 2, 1]).unwrap() == 10);
    assert!(*a.get(&[0, 2, 2]).unwrap() == 11);
    assert!(*a.get(&[0, 2, 3]).unwrap() == 12);
    assert!(*a.get(&[1, 0, 0]).unwrap() == 13);
    assert!(*a.get(&[1, 0, 1]).unwrap() == 14);
    assert!(*a.get(&[1, 0, 2]).unwrap() == 15);
    assert!(*a.get(&[1, 0, 3]).unwrap() == 16);
    assert!(*a.get(&[1, 1, 0]).unwrap() == 17);
    assert!(*a.get(&[1, 1, 1]).unwrap() == 18);
    assert!(*a.get(&[1, 1, 2]).unwrap() == 19);
    assert!(*a.get(&[1, 1, 3]).unwrap() == 20);
    assert!(*a.get(&[1, 2, 0]).unwrap() == 21);
    assert!(*a.get(&[1, 2, 1]).unwrap() == 22);
    assert!(*a.get(&[1, 2, 2]).unwrap() == 23);
    assert!(*a.get(&[1, 2, 3]).unwrap() == 24);
}

#[test]
fn test_array_indexing_mut() {
    let mut a = Array::from_vec(vec![3], vec![1, 2, 3]).unwrap();
    *a.get_mut(&[1]).unwrap() = 42;
    assert!(*a.get(&[1]).unwrap() == 42);
}

#[test]
fn new_fills_every_element() {
    let a = Array::new(vec![2, 3], 7u32).unwrap();
    assert_eq!(a.shape(), &[2, 3]);
    assert_eq!(a.dim_steps(), &[3, 1]);
    assert_eq!(a.buffer(), &[7, 7, 7, 7, 7, 7]);
}

#[test]
fn new_of_the_empty_shape_is_a_scalar() {
    let a = Array::new(Vec::new(), 5i64).unwrap();
    assert_eq!(a.shape().len(), 0);
    assert_eq!(a.dim_steps().len(), 0);
    assert_eq!(a.buffer(), &[5]);
    assert_eq!(*a.get(&[]).unwrap(), 5);
}

#[test]
fn new_with_a_zero_dimension_is_empty() {
    let a = Array::new(vec![3, 0, 2], 1u8).unwrap();
    assert_eq!(a.buffer().len(), 0);
    assert_eq!(a.dim_steps(), &[0, 2, 1]);
    assert!(matches!(a.get(&[0, 0, 0]), Err(Error::OutOfBounds)));
}

#[test]
fn new_too_large_is_an_allocation_error() {
    let r = Array::new(vec![usize::MAX, 2], 0u8);
    assert!(matches!(r, Err(Error::Allocation)));
}

#[test]
fn from_vec_keeps_shape_strides_and_elements() {
    let a = Array::from_vec(vec![2, 3, 4], (0..24).collect::<Vec<u32>>()).unwrap();
    assert_eq!(a.shape(), &[2, 3, 4]);
    assert_eq!(a.dim_steps(), &[12, 4, 1]);
    assert_eq!(a.buffer(), (0..24).collect::<Vec<u32>>().as_slice());
}

#[test]
fn from_vec_rejects_a_short_buffer() {
    let r = Array::from_vec(vec![2, 3], vec![1, 2, 3, 4, 5]);
    assert!(matches!(r, Err(Error::ShapeMismatch)));
}

#[test]
fn from_vec_rejects_a_long_buffer() {
    let r = Array::from_vec(vec![2, 3], vec![1, 2, 3, 4, 5, 6, 7]);
    assert!(matches!(r, Err(Error::ShapeMismatch)));
}

#[test]
fn from_vec_rejects_elements_for_a_zero_dimension() {
    let r = Array::from_vec(vec![2, 0], vec![1]);
    assert!(matches!(r, Err(Error::ShapeMismatch)));
}

#[test]
fn from_vec_rejects_a_shape_beyond_usize() {
    let r = Array::from_vec(vec![usize::MAX, usize::MAX], vec![1, 2]);
    assert!(matches!(r, Err(Error::ShapeMismatch)));
}

#[test]
fn from_vec_of_the_empty_shape_takes_one_element() {
    let a = Array::from_vec(Vec::new(), vec![9]).unwrap();
    assert_eq!(*a.get(&[]).unwrap(), 9);
    assert!(matches!(Array::from_vec(Vec::new(), Vec::<i32>::new()), Err(Error::ShapeMismatch)));
}

#[test]
fn reshape_recomputes_the_strides() {
    let mut a = Array::from_vec(vec![2, 6], (0..12).collect::<Vec<i32>>()).unwrap();
    assert_eq!(a.dim_steps(), &[6, 1]);
    assert_eq!(a.reshape(vec![3, 2, 2]), Ok(()));
    assert_eq!(a.shape(), &[3, 2, 2]);
    assert_eq!(a.dim_steps(), &[4, 2, 1]);
    assert_eq!(a.buffer(), (0..12).collect::<Vec<i32>>().as_slice());
    assert_eq!(*a.get(&[2, 1, 0]).unwrap(), 10);
}

#[test]
fn reshape_to_another_count_fails_and_changes_nothing() {
    let mut a = Array::from_vec(vec![2, 3], vec![1, 2, 3, 4, 5, 6]).unwrap();
    assert_eq!(a.reshape(vec![4, 2]), Err(Error::ShapeMismatch));
    assert_eq!(a.shape(), &[2, 3]);
    assert_eq!(a.dim_steps(), &[3, 1]);
    assert_eq!(a.buffer(), &[1, 2, 3, 4, 5, 6]);
    assert_eq!(a.reshape(vec![usize::MAX, usize::MAX]), Err(Error::ShapeMismatch));
    assert_eq!(a.shape(), &[2, 3]);
}

#[test]
fn reshape_there_and_back_restores_the_array() {
    let mut a = Array::from_vec(vec![2, 3], vec![1, 2, 3, 4, 5, 6]).unwrap();
    a.reshape(vec![3, 2]).unwrap();
    assert_eq!(a.shape(), &[3, 2]);
    assert_eq!(a.dim_steps(), &[2, 1]);
    a.reshape(vec![2, 3]).unwrap();
    assert_eq!(a.shape(), &[2, 3]);
    assert_eq!(a.dim_steps(), &[3, 1]);
    assert_eq!(a.buffer(), &[1, 2, 3, 4, 5, 6]);
}

#[test]
fn get_checks_the_number_of_coordinates() {
    let a = Array::from_vec(vec![2, 3], vec![1, 2, 3, 4, 5, 6]).unwrap();
    assert!(matches!(a.get(&[1]), Err(Error::OutOfBounds)));
    assert!(matches!(a.get(&[1, 2, 0]), Err(Error::OutOfBounds)));
    assert!(matches!(a.get(&[]), Err(Error::OutOfBounds)));
}

#[test]
fn get_checks_each_coordinate() {
    let a = Array::from_vec(vec![2, 3], vec![1, 2, 3, 4, 5, 6]).unwrap();
    assert!(matches!(a.get(&[2, 0]), Err(Error::OutOfBounds)));
    assert!(matches!(a.get(&[0, 3]), Err(Error::OutOfBounds)));
    assert!(matches!(a.get(&[usize::MAX, usize::MAX]), Err(Error::OutOfBounds)));
    assert_eq!(*a.get(&[1, 2]).unwrap(), 6);
}

#[test]
fn get_mut_out_of_bounds_changes_nothing() {
    let mut a = Array::from_vec(vec![2, 2], vec![1, 2, 3, 4]).unwrap();
    assert!(matches!(a.get_mut(&[0, 2]), Err(Error::OutOfBounds)));
    assert!(matches!(a.get_mut(&[0]), Err(Error::OutOfBounds)));
    assert_eq!(a.buffer(), &[1, 2, 3, 4]);
}

#[test]
fn get_mut_writes_one_element() {
    let mut a = Array::from_vec(vec![2, 2], vec![1, 2, 3, 4]).unwrap();
    *a.get_mut(&[1, 0]).unwrap() += 10;
    assert_eq!(a.buffer(), &[1, 2, 13, 4]);
}

#[test]
fn set_stores_at_the_coordinates() {
    let mut a = Array::from_vec(vec![2, 3], vec![0; 6]).unwrap();
    assert_eq!(a.set(&[1, 1], 8), Ok(()));
    assert_eq!(a.set(&[0, 2], 9), Ok(()));
    assert_eq!(a.buffer(), &[0, 0, 9, 0, 8, 0]);
    assert_eq!(a.set(&[2, 0], 1), Err(Error::OutOfBounds));
    assert_eq!(a.set(&[0], 1), Err(Error::OutOfBounds));
    assert_eq!(a.buffer(), &[0, 0, 9, 0, 8, 0]);
}

#[test]
fn buffer_mut_writes_through_to_the_array() {
    let mut a = Array::from_vec(vec![2, 2], vec![1, 2, 3, 4]).unwrap();
    {
        let elements = a.buffer_mut();
        assert_eq!(elements.len(), 4);
        elements[3] = 40;
        elements[0] = 10;
    }
    assert_eq!(*a.get(&[1, 1]).unwrap(), 40);
    assert_eq!(*a.get(&[0, 0]).unwrap(), 10);
    assert_eq!(a.shape(), &[2, 2]);
    assert_eq!(a.dim_steps(), &[2, 1]);
    assert_eq!(a.buffer(), &[10, 2, 3, 40]);
}

#[test]
fn every_element_is_reached_by_one_coordinate_sequence() {
    let a = Array::from_vec(vec![2, 3, 4], (0..24).collect::<Vec<usize>>()).unwrap();
    let mut seen = vec![0; 24];
    for i in 0..2 {
        for j in 0..3 {
            for k in 0..4 {
                let at = *a.get(&[i, j, k]).unwrap();
                assert_eq!(at, i * 12 + j * 4 + k);
                seen[at] += 1;
            }
        }
    }
    assert_eq!(seen, vec![1; 24]);
}
