use dfdx_core::shapes::{
    default_strides, is_contiguous, is_representable, num_elements, remove_dim, replace_dim, Const,
    Dim,
};
use dfdx_core::strided::{is_addressable, strided_offset, unravel};

#[test]
fn both_kinds_of_dimension_have_their_size() {
    assert_eq!(7usize.size(), 7);
    assert_eq!(Const::<7>.size(), 7);
    assert_eq!(Const::<0>.size(), 0);
}

#[test]
fn strides_step_over_the_dimensions_behind() {
    assert_eq!(default_strides(&vec![2, 3, 4]), vec![12, 4, 1]);
    assert_eq!(default_strides(&vec![5]), vec![1]);
    assert_eq!(default_strides(&vec![]), Vec::<usize>::new());
    assert_eq!(default_strides(&vec![2, 0, 3]), vec![0, 3, 1]);
}

#[test]
fn number_of_elements_is_the_product() {
    assert_eq!(num_elements(&vec![2, 3, 4]), 24);
    assert_eq!(num_elements(&vec![]), 1);
    assert_eq!(num_elements(&vec![3, 0, 2]), 0);
}

#[test]
fn contiguity_is_equality_with_the_default_strides() {
    assert!(is_contiguous(&vec![2, 3], &vec![3, 1]));
    assert!(!is_contiguous(&vec![2, 3], &vec![1, 2]));
    assert!(!is_contiguous(&vec![2, 3], &vec![3]));
    assert!(!is_contiguous(&vec![2, 3], &vec![0, 1]));
}

#[test]
fn a_shape_too_large_for_the_machine_is_not_representable() {
    assert!(is_representable(&vec![2, 3, 4]));
    assert!(is_representable(&vec![usize::MAX]));
    assert!(!is_representable(&vec![usize::MAX, 2]));
    assert!(!is_representable(&vec![0, usize::MAX, 2]));
    assert!(is_representable(&vec![usize::MAX, 0]));
}

#[test]
fn removing_a_dimension() {
    assert_eq!(remove_dim(&vec![2, 3, 4], 0), vec![3, 4]);
    assert_eq!(remove_dim(&vec![2, 3, 4], 1), vec![2, 4]);
    assert_eq!(remove_dim(&vec![2, 3, 4], 2), vec![2, 3]);
    assert_eq!(remove_dim(&vec![5], 0), Vec::<usize>::new());
}

#[test]
fn replacing_a_dimension_by_those_of_an_index_tensor() {
    assert_eq!(replace_dim(&vec![5, 3], &vec![7], 0), vec![7, 3]);
    assert_eq!(replace_dim(&vec![5, 3], &vec![2, 7], 0), vec![2, 7, 3]);
    assert_eq!(replace_dim(&vec![5, 3], &vec![5, 7], 1), vec![5, 7]);
    assert_eq!(replace_dim(&vec![5, 3, 4], &vec![5], 1), vec![5, 4]);
    assert_eq!(replace_dim(&vec![5], &vec![], 0), Vec::<usize>::new());
}

#[test]
fn an_element_has_one_index_for_each_dimension() {
    assert_eq!(unravel(&vec![2, 3, 4], 0), vec![0, 0, 0]);
    assert_eq!(unravel(&vec![2, 3, 4], 17), vec![1, 1, 1]);
    assert_eq!(unravel(&vec![2, 3, 4], 23), vec![1, 2, 3]);
    assert_eq!(unravel(&vec![], 0), Vec::<usize>::new());
}

#[test]
fn an_index_has_its_position_under_the_strides() {
    let shape = vec![2, 3, 4];
    assert_eq!(strided_offset(&vec![1, 2, 3], &shape, &vec![12, 4, 1]), 23);
    assert_eq!(strided_offset(&vec![1, 2, 3], &shape, &vec![1, 2, 6]), 23);
    assert_eq!(strided_offset(&vec![1, 2, 3], &shape, &vec![0, 4, 1]), 11);
    for i in 0..24 {
        let index = unravel(&shape, i);
        assert_eq!(strided_offset(&index, &shape, &default_strides(&shape)), i);
    }
}

#[test]
fn addressable_means_the_furthest_element_is_in_the_buffer() {
    assert!(is_addressable(&vec![2, 3], &vec![3, 1], 6));
    assert!(!is_addressable(&vec![2, 3], &vec![3, 1], 5));
    assert!(is_addressable(&vec![2, 3], &vec![0, 1], 3));
    assert!(is_addressable(&vec![2, 0], &vec![7, 7], 0));
    assert!(!is_addressable(&vec![2, 3], &vec![3], 6));
    assert!(!is_addressable(&vec![2, 3], &vec![usize::MAX, usize::MAX], 6));
    assert!(is_addressable(&vec![], &vec![], 1));
    assert!(!is_addressable(&vec![], &vec![], 0));
}
