//! An unbalanced binary search tree of `u32` keys.
//!
//! Each node owns its two optional subtrees. Keys in a left subtree are
//! strictly smaller than the node's key, keys in a right subtree strictly
//! greater; inserting a key that is already present changes nothing.

use vstd::prelude::*;
use vstd::seq_lib::seq_to_set_distributes_over_add;

verus! {

pub struct BinaryTree {
    value: u32,
    left: Option<Box<BinaryTree>>,
    right: Option<Box<BinaryTree>>,
}

impl BinaryTree {
    /// The key held at the root.
    pub closed spec fn root(self) -> u32 {
        self.value
    }

    /// The left subtree, if any.
    pub closed spec fn left_child(self) -> Option<Box<BinaryTree>> {
        self.left
    }

    /// The right subtree, if any.
    pub closed spec fn right_child(self) -> Option<Box<BinaryTree>> {
        self.right
    }

    /// The keys met by an in-order walk: left subtree, root, right subtree.
    pub closed spec fn keys(self) -> Seq<u32>
        decreases self,
    {
        let l = match self.left {
            Some(t) => t.keys(),
            None => Seq::empty(),
        };
        let r = match self.right {
            Some(t) => t.keys(),
            None => Seq::empty(),
        };
        l + seq![self.value] + r
    }

    /// The set of keys the tree holds.
    pub closed spec fn key_set(self) -> Set<u32>
        decreases self,
    {
        let l = match self.left {
            Some(t) => t.key_set(),
            None => Set::empty(),
        };
        let r = match self.right {
            Some(t) => t.key_set(),
            None => Set::empty(),
        };
        l.insert(self.value) + r
    }

    /// Length of the longest path from the root down, counted in nodes.
    pub closed spec fn height(self) -> nat
        decreases self,
    {
        let l = match self.left {
            Some(t) => t.height(),
            None => 0,
        };
        let r = match self.right {
            Some(t) => t.height(),
            None => 0,
        };
        1 + if l >= r { l } else { r }
    }

    /// The ordering invariant: at every node, each key of the left subtree is
    /// smaller than the node's key and each key of the right subtree greater.
    pub closed spec fn is_bst(self) -> bool
        decreases self,
    {
        &&& match self.left {
            Some(t) => t.is_bst() && forall|k: u32| #[trigger] t.key_set().contains(k) ==> k < self.value,
            None => true,
        }
        &&& match self.right {
            Some(t) => t.is_bst() && forall|k: u32| #[trigger] t.key_set().contains(k) ==> k > self.value,
            None => true,
        }
    }

    /// A single node holding `value`.
    pub closed spec fn leaf(value: u32) -> BinaryTree {
        BinaryTree { value, left: None, right: None }
    }

    /// The tree that inserting `v` produces: walk down by comparison and hang
    /// a new leaf in the first empty slot; an equal key leaves the tree as is.
    pub closed spec fn inserted(self, v: u32) -> BinaryTree
        decreases self,
    {
        if v > self.value {
            match self.right {
                Some(t) => BinaryTree { right: Some(Box::new(t.inserted(v))), ..self },
                None => BinaryTree { right: Some(Box::new(BinaryTree::leaf(v))), ..self },
            }
        } else if v < self.value {
            match self.left {
                Some(t) => BinaryTree { left: Some(Box::new(t.inserted(v))), ..self },
                None => BinaryTree { left: Some(Box::new(BinaryTree::leaf(v))), ..self },
            }
        } else {
            self
        }
    }

    /// A tree of one node holding `value`, with no children.
    pub fn new(value: u32) -> (r: BinaryTree)
        ensures
            r == BinaryTree::leaf(value),
            r.keys() == seq![value],
            r.is_bst(),
    {
        let r = BinaryTree { value, left: None, right: None };
        assert(r.keys() =~= seq![value]);
        r
    }

    /// Inserts `value`: it goes right of larger keys and left of smaller
    /// ones, into a new leaf at the first empty slot; a key already present
    /// is dropped. Nothing is rebalanced.
    pub fn insert_value(&mut self, value: u32)
        ensures
            *final(self) == old(self).inserted(value),
            final(self).key_set() == old(self).key_set().insert(value),
            old(self).is_bst() ==> final(self).is_bst(),
            old(self).is_bst() && old(self).key_set().contains(value) ==> *final(self) == *old(self),
        decreases old(self).height(),
    {
        proof {
            lemma_inserted_keys(*self, value);
            if self.is_bst() {
                lemma_inserted_is_bst(*self, value);
                if self.key_set().contains(value) {
                    lemma_insert_present(*self, value);
                }
            }
        }
        if value > self.value {
            match self.right.as_mut() {
                Some(v) => {
                    v.insert_value(value);
                },
                None => {
                    let leaf = BinaryTree { value, left: None, right: None };
                    self.right = Some(Box::new(leaf));
                },
            }
        } else if value < self.value {
            match self.left.as_mut() {
                Some(v) => {
                    v.insert_value(value);
                },
                None => {
                    let leaf = BinaryTree { value, left: None, right: None };
                    self.left = Some(Box::new(leaf));
                },
            }
        }
    }

    /// The key held at the root.
    pub fn value(&self) -> (r: u32)
        ensures
            r == self.root(),
    {
        self.value
    }

    /// The left subtree, if there is one.
    pub fn left(&self) -> (r: Option<&BinaryTree>)
        ensures
            r.is_some() == self.left_child().is_some(),
            r.is_some() ==> *r.unwrap() == *self.left_child().unwrap(),
    {
        match &self.left {
            Some(b) => Some(&**b),
            None => None,
        }
    }

    /// The right subtree, if there is one.
    pub fn right(&self) -> (r: Option<&BinaryTree>)
        ensures
            r.is_some() == self.right_child().is_some(),
            r.is_some() ==> *r.unwrap() == *self.right_child().unwrap(),
    {
        match &self.right {
            Some(b) => Some(&**b),
            None => None,
        }
    }

    fn collect_keys(&self, out: &mut Vec<u32>)
        ensures
            final(out)@ == old(out)@ + self.keys(),
        decreases self.height(),
    {
        match &self.left {
            Some(t) => t.collect_keys(out),
            None => {},
        }
        out.push(self.value);
        match &self.right {
            Some(t) => t.collect_keys(out),
            None => {},
        }
        assert(final(out)@ =~= old(out)@ + self.keys());
    }

    /// The keys in in-order: left subtree, root, right subtree. For an
    /// ordered tree they come out strictly ascending.
    pub fn in_order(&self) -> (r: Vec<u32>)
        ensures
            r@ == self.keys(),
            self.is_bst() ==> forall|i: int, j: int| 0 <= i < j < r.len() ==> r[i] < r[j],
    {
        let mut r: Vec<u32> = Vec::new();
        self.collect_keys(&mut r);
        assert(r@ =~= self.keys());
        proof {
            if self.is_bst() {
                lemma_keys_sorted(*self);
            }
        }
        r
    }
}

/// The tree that starts as a single node holding `first` and then has each
/// key of `ks` inserted, in order.
pub closed spec fn built(first: u32, ks: Seq<u32>) -> BinaryTree
    decreases ks.len(),
{
    if ks.len() == 0 {
        BinaryTree::leaf(first)
    } else {
        built(first, ks.drop_last()).inserted(ks.last())
    }
}

proof fn lemma_singleton_to_set(x: u32)
    ensures
        seq![x].to_set() == set![x],
{
    assert forall|k: u32| #[trigger] seq![x].to_set().contains(k) <==> k == x by {
        if k == x {
            assert(seq![x][0] == k);
        }
    }
    assert(seq![x].to_set() =~= set![x]);
}

/// The in-order keys, taken as a set, are the keys the tree holds.
pub proof fn lemma_keys_to_set(t: BinaryTree)
    ensures
        t.keys().to_set() == t.key_set(),
    decreases t,
{
    let l = match t.left { Some(c) => c.keys(), None => Seq::empty() };
    let r = match t.right { Some(c) => c.keys(), None => Seq::empty() };
    match t.left { Some(c) => lemma_keys_to_set(*c), None => { assert(l.to_set() =~= Set::empty()); } }
    match t.right { Some(c) => lemma_keys_to_set(*c), None => { assert(r.to_set() =~= Set::empty()); } }
    seq_to_set_distributes_over_add(l, seq![t.value]);
    seq_to_set_distributes_over_add(l + seq![t.value], r);
    lemma_singleton_to_set(t.value);
    assert(t.keys().to_set() =~= t.key_set());
}

/// Inserting adds exactly the inserted key to the keys a tree holds.
pub proof fn lemma_inserted_keys(t: BinaryTree, v: u32)
    ensures
        t.inserted(v).key_set() == t.key_set().insert(v),
    decreases t,
{
    reveal_with_fuel(BinaryTree::key_set, 2);
    if v > t.value {
        match t.right {
            Some(c) => lemma_inserted_keys(*c, v),
            None => {},
        }
    } else if v < t.value {
        match t.left {
            Some(c) => lemma_inserted_keys(*c, v),
            None => {},
        }
    }
    assert(t.inserted(v).key_set() =~= t.key_set().insert(v));
}

/// Inserting a key that an ordered tree already holds changes nothing.
pub proof fn lemma_insert_present(t: BinaryTree, v: u32)
    requires
        t.is_bst(),
        t.key_set().contains(v),
    ensures
        t.inserted(v) == t,
    decreases t,
{
    match t.left {
        Some(c) => assert(v > t.value ==> !c.key_set().contains(v)),
        None => {},
    }
    match t.right {
        Some(c) => assert(v < t.value ==> !c.key_set().contains(v)),
        None => {},
    }
    if v > t.value {
        match t.right {
            Some(c) => lemma_insert_present(*c, v),
            None => {},
        }
    } else if v < t.value {
        match t.left {
            Some(c) => lemma_insert_present(*c, v),
            None => {},
        }
    }
}

/// Insertion keeps the ordering invariant.
pub proof fn lemma_inserted_is_bst(t: BinaryTree, v: u32)
    requires
        t.is_bst(),
    ensures
        t.inserted(v).is_bst(),
    decreases t,
{
    reveal_with_fuel(BinaryTree::is_bst, 2);
    reveal_with_fuel(BinaryTree::key_set, 2);
    if v > t.value {
        match t.right {
            Some(c) => {
                lemma_inserted_is_bst(*c, v);
                lemma_inserted_keys(*c, v);
            },
            None => {},
        }
    } else if v < t.value {
        match t.left {
            Some(c) => {
                lemma_inserted_is_bst(*c, v);
                lemma_inserted_keys(*c, v);
            },
            None => {},
        }
    }
}

/// Inserting the same key a second time leaves the tree, and so its node
/// count and its in-order keys, exactly as the first insertion left it.
pub proof fn lemma_insert_twice(t: BinaryTree, v: u32)
    ensures
        t.inserted(v).inserted(v) == t.inserted(v),
        t.inserted(v).inserted(v).keys().len() == t.inserted(v).keys().len(),
    decreases t,
{
    reveal_with_fuel(BinaryTree::inserted, 2);
    if v > t.value {
        match t.right {
            Some(c) => lemma_insert_twice(*c, v),
            None => {},
        }
    } else if v < t.value {
        match t.left {
            Some(c) => lemma_insert_twice(*c, v),
            None => {},
        }
    }
}

/// The in-order keys of an ordered tree are strictly increasing.
pub proof fn lemma_keys_sorted(t: BinaryTree)
    requires
        t.is_bst(),
    ensures
        forall|i: int, j: int| 0 <= i < j < t.keys().len() ==> t.keys()[i] < t.keys()[j],
    decreases t,
{
    let l = match t.left { Some(c) => c.keys(), None => Seq::empty() };
    let r = match t.right { Some(c) => c.keys(), None => Seq::empty() };
    match t.left { Some(c) => { lemma_keys_sorted(*c); lemma_keys_to_set(*c); }, None => {} }
    match t.right { Some(c) => { lemma_keys_sorted(*c); lemma_keys_to_set(*c); }, None => {} }
    let s = t.keys();
    assert(s == l + seq![t.value] + r);
    assert forall|i: int, j: int| 0 <= i < j < s.len() implies s[i] < s[j] by {
        if i < l.len() {
            assert(l.contains(s[i]) && l.to_set().contains(s[i]));
        }
        if j > l.len() {
            assert(s[j] == r[j - l.len() - 1]);
            assert(r.contains(s[j]) && r.to_set().contains(s[j]));
        }
    }
}

/// Whatever keys are inserted, in whatever order, the tree stays ordered and
/// its in-order walk visits one node per distinct key.
pub proof fn lemma_built(first: u32, ks: Seq<u32>)
    ensures
        built(first, ks).is_bst(),
        built(first, ks).key_set() == (seq![first] + ks).to_set(),
        built(first, ks).keys().len() == (seq![first] + ks).to_set().len(),
    decreases ks.len(),
{
    let t = built(first, ks);
    if ks.len() == 0 {
        assert(seq![first] + ks =~= seq![first]);
        lemma_singleton_to_set(first);
        assert(BinaryTree::leaf(first).key_set() =~= set![first]);
    } else {
        let p = built(first, ks.drop_last());
        lemma_built(first, ks.drop_last());
        lemma_inserted_is_bst(p, ks.last());
        lemma_inserted_keys(p, ks.last());
        assert(seq![first] + ks =~= (seq![first] + ks.drop_last()).push(ks.last()));
        (seq![first] + ks.drop_last()).lemma_push_to_set_commute(ks.last());
    }
    lemma_keys_sorted(t);
    lemma_keys_to_set(t);
    assert(t.keys().no_duplicates());
    t.keys().unique_seq_to_set();
}

} // verus!
