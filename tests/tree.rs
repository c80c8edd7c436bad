use exercises::binary_tree::BinaryTree;

fn depth(t: &BinaryTree) -> usize {
    let l = t.left().map(depth).unwrap_or(0);
    let r = t.right().map(depth).unwrap_or(0);
    1 + l.max(r)
}

fn node_count(t: &BinaryTree) -> usize {
    1 + t.left().map(node_count).unwrap_or(0) + t.right().map(node_count).unwrap_or(0)
}

#[test]
fn inserts_come_out_in_order() {
    let mut tree = BinaryTree::new(1);
    for k in [10, 5, 6, 3, 60, 25, 18] {
        tree.insert_value(k);
    }
    assert_eq!(tree.in_order(), vec![1, 3, 5, 6, 10, 18, 25, 60]);
    assert_eq!(tree.value(), 1);
    assert!(tree.left().is_none());
    assert_eq!(tree.right().unwrap().value(), 10);
}

#[test]
fn duplicate_of_root_leaves_single_node() {
    let mut tree = BinaryTree::new(5);
    tree.insert_value(5);
    assert_eq!(tree.value(), 5);
    assert!(tree.left().is_none());
    assert!(tree.right().is_none());
    assert_eq!(tree.in_order(), vec![5]);
}

#[test]
fn increasing_keys_make_a_right_chain() {
    let mut tree = BinaryTree::new(1);
    for k in [2, 3, 4, 5] {
        tree.insert_value(k);
    }
    assert_eq!(depth(&tree), 5);
    let mut node = &tree;
    let mut expected = 1;
    loop {
        assert_eq!(node.value(), expected);
        assert!(node.left().is_none());
        match node.right() {
            Some(next) => node = next,
            None => break,
        }
        expected += 1;
    }
    assert_eq!(expected, 5);
}

#[test]
fn second_insert_of_a_key_changes_nothing() {
    let mut tree = BinaryTree::new(50);
    for k in [30, 70, 40] {
        tree.insert_value(k);
    }
    tree.insert_value(40);
    let before = tree.in_order();
    let count = node_count(&tree);
    tree.insert_value(40);
    assert_eq!(tree.in_order(), before);
    assert_eq!(node_count(&tree), count);
}

#[test]
fn size_is_number_of_distinct_keys() {
    let mut tree = BinaryTree::new(8);
    for k in [3, 8, 10, 3, 1, 6, 14, 10, 0, u32::MAX] {
        tree.insert_value(k);
    }
    assert_eq!(node_count(&tree), 8);
    assert_eq!(tree.in_order().len(), 8);
}

#[test]
fn traversal_is_strictly_increasing() {
    let mut tree = BinaryTree::new(500);
    let mut k: u32 = 7;
    for _ in 0..200 {
        k = k.wrapping_mul(1103515245).wrapping_add(12345) % 1000;
        tree.insert_value(k);
    }
    let keys = tree.in_order();
    for w in keys.windows(2) {
        assert!(w[0] < w[1]);
    }
}

#[test]
fn ordering_holds_at_every_node() {
    fn assert_ordered(t: &BinaryTree) {
        if let Some(l) = t.left() {
            assert!(l.in_order().iter().all(|&k| k < t.value()));
            assert_ordered(l);
        }
        if let Some(r) = t.right() {
            assert!(r.in_order().iter().all(|&k| k > t.value()));
            assert_ordered(r);
        }
    }
    let mut tree = BinaryTree::new(20);
    for k in [10, 30, 5, 15, 25, 35, 12, 17, 0] {
        tree.insert_value(k);
        assert_ordered(&tree);
    }
}
