use meshfit::scene::{
    ancestor_chain, build_parents, check_inverse_bind_count, check_vertex_attribute_counts, try_ancestor_chain,
    views_kept,
};

#[test]
fn parents_of_a_small_tree() {
    // 0 -> {1, 2}, 2 -> {3}, 4 alone
    let children = vec![vec![1, 2], vec![], vec![3], vec![], vec![]];
    let parents = build_parents(&children);
    assert_eq!(parents, vec![None, Some(0), Some(0), Some(2), None]);
}

#[test]
fn later_listing_wins() {
    let children = vec![vec![2], vec![2], vec![]];
    assert_eq!(build_parents(&children), vec![None, None, Some(1)]);
}

#[test]
fn ancestor_chain_is_root_first() {
    let children = vec![vec![1, 2], vec![], vec![3], vec![], vec![]];
    let parents = build_parents(&children);
    assert_eq!(ancestor_chain(&parents, 3), vec![0, 2, 3]);
    assert_eq!(ancestor_chain(&parents, 1), vec![0, 1]);
    assert_eq!(ancestor_chain(&parents, 0), vec![0]);
    assert_eq!(ancestor_chain(&parents, 4), vec![4]);
}

#[test]
fn checked_chain_matches_the_plain_one() {
    let children = vec![vec![1, 2], vec![], vec![3], vec![], vec![]];
    let parents = build_parents(&children);
    assert_eq!(try_ancestor_chain(&parents, 3), Some(vec![0, 2, 3]));
    assert_eq!(try_ancestor_chain(&parents, 4), Some(vec![4]));
}

#[test]
fn checked_chain_refuses_a_cycle() {
    // 0 -> 1 -> 2 -> 0, and 3 hangs below 2
    let parents = vec![Some(2), Some(0), Some(1), Some(2)];
    assert_eq!(try_ancestor_chain(&parents, 0), None);
    assert_eq!(try_ancestor_chain(&parents, 3), None);
    // a node that is its own parent
    assert_eq!(try_ancestor_chain(&vec![Some(0)], 0), None);
}

#[test]
fn vertex_attribute_counts() {
    assert_eq!(check_vertex_attribute_counts(10, 10, 10), Ok(()));
    assert_eq!(
        check_vertex_attribute_counts(10, 9, 10),
        Err("positions/joints/weights length mismatch".to_string())
    );
    assert!(check_vertex_attribute_counts(10, 10, 11).is_err());
}

#[test]
fn inverse_bind_counts() {
    assert_eq!(check_inverse_bind_count(3, 3), Ok(()));
    assert_eq!(
        check_inverse_bind_count(2, 3),
        Err("inverse bind matrices count != joints count".to_string())
    );
}

#[test]
fn kept_view_counts() {
    assert_eq!(views_kept(10, 6), 6);
    assert_eq!(views_kept(4, 6), 4);
    assert_eq!(views_kept(10, 0), 10);
    assert_eq!(views_kept(6, 6), 6);
}
