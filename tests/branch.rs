use poseidon_branch::branch::{
    BranchError, PoseidonBranch, PoseidonLevel, StoreBranch, StoreLevel, ARITY,
};
use poseidon_branch::hades::{digest, permute, WIDTH};
use poseidon_branch::scalar::Scalar;

fn s(n: u64) -> Scalar {
    Scalar::from_u64(n)
}

fn node(children: Vec<Option<Scalar>>, offset: usize) -> StoreLevel {
    StoreLevel { children, offset }
}

/// The digest that a store would annotate a node with.
fn node_digest(children: &[Option<Scalar>]) -> Scalar {
    let mut leaves = [Scalar::zero(); WIDTH];
    let mut mask = 0u64;
    for (i, c) in children.iter().enumerate() {
        if let Some(v) = c {
            leaves[i + 1] = *v;
            mask |= 1 << (ARITY - 1 - i);
        }
    }
    leaves[0] = s(mask);
    digest(&leaves)
}

#[test]
fn bitmask_and_children_of_a_level() {
    let store = StoreBranch {
        root: s(1),
        levels: vec![node(vec![Some(s(7)), None, None, Some(s(9))], 2)],
    };
    let b = PoseidonBranch::from_store(&store, 1);
    assert_eq!(b.levels.len(), 1);
    let l = &b.levels[0];
    assert_eq!(l.leaves, [s(0b1001), s(7), s(0), s(0), s(9)]);
    assert_eq!(l.offset, 3);
}

#[test]
fn bitmask_first_child_is_most_significant() {
    let store = StoreBranch {
        root: s(1),
        levels: vec![
            node(vec![Some(s(5)), None, None, None], 0),
            node(vec![None, None, None, None], 1),
            node(vec![Some(s(1)), Some(s(2)), Some(s(3)), Some(s(4))], 3),
            node(vec![None, Some(s(6))], 1),
        ],
    };
    let b = PoseidonBranch::from_store(&store, 4);
    // leaf first: the store's last level comes first
    assert_eq!(b.levels[0].leaves, [s(0b0100), s(0), s(6), s(0), s(0)]);
    assert_eq!(b.levels[1].leaves, [s(0b1111), s(1), s(2), s(3), s(4)]);
    assert_eq!(b.levels[2].leaves, [Scalar::zero(); WIDTH]);
    assert_eq!(b.levels[3].leaves, [s(0b1000), s(5), s(0), s(0), s(0)]);
}

#[test]
fn offsets_are_shifted_by_one() {
    let levels: Vec<StoreLevel> = (0..ARITY)
        .map(|o| node(vec![Some(s(o as u64)), None, None, None], o))
        .collect();
    let store = StoreBranch { root: s(0), levels };
    let b = PoseidonBranch::from_store(&store, ARITY);
    for (i, l) in b.levels.iter().enumerate() {
        assert_eq!(l.offset, store.levels[ARITY - 1 - i].offset + 1);
        assert!(1 <= l.offset && l.offset < WIDTH);
    }
}

#[test]
fn root_is_copied_from_the_store() {
    let store = StoreBranch { root: s(123_456), levels: vec![node(vec![Some(s(1))], 0)] };
    let b = PoseidonBranch::from_store(&store, 3);
    assert_eq!(b.root(), s(123_456));
}

#[test]
fn shallow_branch_is_padded_to_depth() {
    let store = StoreBranch {
        root: s(1),
        levels: vec![node(vec![Some(s(1))], 0), node(vec![None, Some(s(2))], 1)],
    };
    let b = PoseidonBranch::from_store(&store, 17);
    assert_eq!(b.levels.len(), 2);
    assert_eq!(b.levels.len() + b.padding_levels.len(), 17);
    for p in &b.padding_levels {
        assert_eq!(p.offset, 0);
        assert_eq!(p.leaves, [Scalar::zero(); WIDTH]);
    }
}

#[test]
fn deep_branch_gets_no_padding() {
    let store = StoreBranch {
        root: s(1),
        levels: vec![node(vec![Some(s(1))], 0), node(vec![Some(s(2))], 0)],
    };
    assert!(PoseidonBranch::from_store(&store, 2).padding_levels.is_empty());
    assert!(PoseidonBranch::from_store(&store, 1).padding_levels.is_empty());
}

#[test]
fn missing_opening_is_branch_not_found() {
    assert_eq!(PoseidonBranch::from_opening(None, 4).err(), Some(BranchError::BranchNotFound));
    let store = StoreBranch { root: s(8), levels: vec![node(vec![Some(s(1))], 0)] };
    let b = PoseidonBranch::from_opening(Some(&store), 4).expect("an opening compacts");
    assert_eq!(b.root(), s(8));
    assert_eq!(b.padding_levels.len(), 3);
}

#[test]
fn default_level_and_empty_branch() {
    let l = PoseidonLevel::default();
    assert_eq!(l.offset, 0);
    assert_eq!(l.leaves, [Scalar::zero(); WIDTH]);
    let b = PoseidonBranch::new();
    assert_eq!(b.root(), Scalar::zero());
    assert!(b.levels.is_empty() && b.padding_levels.is_empty());
    let c = PoseidonBranch::with_capacity(8);
    assert!(c.levels.is_empty() && c.levels.capacity() >= 8);
}

#[test]
fn permutation_changes_the_state() {
    let start = [s(1), s(2), s(3), s(4), s(5)];
    let mut state = start;
    permute(&mut state);
    assert_ne!(state, start);
    let mut again = start;
    permute(&mut again);
    assert_eq!(state, again);
    assert_eq!(digest(&start), state[1]);
}

#[test]
fn opening_recomputes_the_store_root() {
    // leaves of a two-level tree: the leaf sits at slot 2 of the bottom node
    let bottom = vec![Some(s(10)), Some(s(11)), Some(s(12)), None];
    let sibling = vec![Some(s(20)), None, None, None];
    let bottom_digest = node_digest(&bottom);
    let top = vec![Some(node_digest(&sibling)), Some(bottom_digest), None, None];
    let root = node_digest(&top);
    let store = StoreBranch { root, levels: vec![node(top, 1), node(bottom, 2)] };
    let b = PoseidonBranch::from_store(&store, 17);
    assert_eq!(b.opening_root(&s(12)), root);
    assert_ne!(b.opening_root(&s(13)), root);
}

#[test]
fn opening_of_every_position_matches_root() {
    let leaves: Vec<Scalar> = (0..ARITY as u64).map(|i| s(1000 + 7 * i)).collect();
    let children: Vec<Option<Scalar>> = leaves.iter().map(|v| Some(*v)).collect();
    let root = node_digest(&children);
    for (p, leaf) in leaves.iter().enumerate() {
        let store = StoreBranch { root, levels: vec![node(children.clone(), p)] };
        let b = PoseidonBranch::from_store(&store, 5);
        assert_eq!(b.opening_root(leaf), root);
    }
}
