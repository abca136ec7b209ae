use breadcrumbs::outline::{
    child_outline_indices, outline_parents, sibling_outline_indices, top_level_outline_indices,
};

#[test]
fn test_sibling_outline_indices_top_level() {
    let depths = [0, 0, 0];
    assert_eq!(sibling_outline_indices(&depths, 0), vec![0, 1, 2]);
    assert_eq!(sibling_outline_indices(&depths, 1), vec![0, 1, 2]);
    assert_eq!(sibling_outline_indices(&depths, 2), vec![0, 1, 2]);
}

#[test]
fn test_sibling_outline_indices_nested() {
    // `impl A { fn one; fn two }` then `impl B { fn three }`.
    let depths = [0, 1, 1, 0, 1];
    assert_eq!(sibling_outline_indices(&depths, 1), vec![1, 2]);
    assert_eq!(sibling_outline_indices(&depths, 2), vec![1, 2]);
    assert_eq!(sibling_outline_indices(&depths, 4), vec![4]);
    assert_eq!(sibling_outline_indices(&depths, 0), vec![0, 3]);
    assert_eq!(sibling_outline_indices(&depths, 3), vec![0, 3]);
}

#[test]
fn test_sibling_outline_indices_uneven_depths() {
    let depths = [0, 2, 2, 0];
    assert_eq!(sibling_outline_indices(&depths, 1), vec![1, 2]);
    assert_eq!(sibling_outline_indices(&depths, 2), vec![1, 2]);
    assert_eq!(sibling_outline_indices(&depths, 0), vec![0, 3]);
}

#[test]
fn test_sibling_outline_indices_single_item() {
    let depths = [0];
    assert_eq!(sibling_outline_indices(&depths, 0), vec![0]);
}

#[test]
fn test_sibling_outline_indices_out_of_bounds() {
    let depths = [0, 0];
    assert_eq!(sibling_outline_indices(&depths, 5), Vec::<usize>::new());
}

#[test]
fn test_child_outline_indices_top_level() {
    let depths = [0, 0, 0];
    assert_eq!(child_outline_indices(&depths, 0), Vec::<usize>::new());
    assert_eq!(child_outline_indices(&depths, 1), Vec::<usize>::new());
    assert_eq!(child_outline_indices(&depths, 2), Vec::<usize>::new());
}

#[test]
fn test_child_outline_indices_nested() {
    // `impl A { fn one; fn two }` then `impl B { fn three }`.
    let depths = [0, 1, 1, 0, 1];
    assert_eq!(child_outline_indices(&depths, 0), vec![1, 2]);
    assert_eq!(child_outline_indices(&depths, 3), vec![4]);
    assert_eq!(child_outline_indices(&depths, 1), Vec::<usize>::new());
    assert_eq!(child_outline_indices(&depths, 2), Vec::<usize>::new());
    assert_eq!(child_outline_indices(&depths, 4), Vec::<usize>::new());
}

#[test]
fn test_child_outline_indices_uneven_depths() {
    let depths = [0, 2, 2, 0];
    assert_eq!(child_outline_indices(&depths, 0), vec![1, 2]);
    assert_eq!(child_outline_indices(&depths, 3), Vec::<usize>::new());
}

#[test]
fn test_child_outline_indices_out_of_bounds() {
    let depths = [0, 0];
    assert_eq!(child_outline_indices(&depths, 5), Vec::<usize>::new());
}

#[test]
fn test_top_level_outline_indices() {
    let depths = [0, 1, 1, 0, 1];
    assert_eq!(top_level_outline_indices(&depths), vec![0, 3]);

    let depths_uneven = [0, 2, 2, 0];
    assert_eq!(top_level_outline_indices(&depths_uneven), vec![0, 3]);

    let depths_empty: [usize; 0] = [];
    assert_eq!(
        top_level_outline_indices(&depths_empty),
        Vec::<usize>::new()
    );
}

#[test]
fn parents_are_the_nearest_shallower_entries() {
    assert_eq!(
        outline_parents(&[0, 3, 2, 4, 1, 0]),
        vec![None, Some(0), Some(0), Some(2), Some(0), None]
    );
    assert_eq!(outline_parents(&[2, 1, 0]), vec![None, None, None]);
}

#[test]
fn siblings_of_a_child_are_the_children_of_its_parent() {
    let depths = [0, 1, 2, 1, 0, 4, 4];
    for child in child_outline_indices(&depths, 0) {
        assert_eq!(
            sibling_outline_indices(&depths, child),
            child_outline_indices(&depths, 0)
        );
    }
    assert_eq!(
        sibling_outline_indices(&depths, 4),
        top_level_outline_indices(&depths)
    );
}
