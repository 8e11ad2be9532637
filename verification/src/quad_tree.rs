//! A quad tree that collects objects for collision checks.
//!
//! Which quadrant of a node an object goes to is a matter of geometry,
//! which the caller answers: the tree asks `quadrant(route, object)`, where
//! `route` is the list of quadrants that leads from the root to the node.
//! Everything else (when a leaf splits, where its objects go, what the tree
//! holds) is decided here.
use vstd::prelude::*;
use vstd::multiset::Multiset;
use vstd::seq_lib::lemma_multiset_commutative;

verus! {

/// A quarter of a node: lower left, upper left, lower right, upper right.
#[derive(Debug, Clone, Copy, PartialEq, Eq, Structural)]
pub enum Quadrant {
    LowerLeft,
    UpperLeft,
    LowerRight,
    UpperRight,
}

/// The objects of a leaf, in the order in which they were put there.
pub struct Leaf<T> {
    objects: Vec<T>,
}

/// What a node holds: four child nodes (lower left, upper left, lower
/// right, upper right), or a leaf of objects.
pub enum QuadTreeBranch<T> {
    Node(Box<QuadTreeNode<T>>, Box<QuadTreeNode<T>>, Box<QuadTreeNode<T>>, Box<QuadTreeNode<T>>),
    Leaf(Leaf<T>),
}

/// A node of the tree. `depth_left` is how many more times the node may
/// split; `None` is taken as "may not split".
pub struct QuadTreeNode<T> {
    child: Option<QuadTreeBranch<T>>,
    max_leaf_objects: usize,
    depth_left: Option<u32>,
}

/// A node may split when its depth left is some number above 0.
pub open spec fn may_split(depth_left: Option<u32>) -> bool {
    depth_left matches Some(d) && d > 0
}

impl<T> QuadTreeNode<T> {
    /// The objects of the node, leaf by leaf, the children in the order
    /// lower left, upper left, lower right, upper right.
    pub closed spec fn contents(self) -> Seq<T>
        decreases self,
    {
        match self.child {
            None => Seq::empty(),
            Some(QuadTreeBranch::Leaf(leaf)) => leaf.objects@,
            Some(QuadTreeBranch::Node(a, b, c, d)) => a.contents() + b.contents() + c.contents()
                + d.contents(),
        }
    }

    /// The node is well formed: a node that has children could split, its
    /// children have one split less left and are well formed; a leaf that
    /// could still split holds at most `max_leaf_objects` objects, and
    /// `max_leaf_objects` is 1.
    pub closed spec fn wf(self) -> bool
        decreases self,
    {
        &&& self.max_leaf_objects == 1
        &&& match self.child {
            None => true,
            Some(QuadTreeBranch::Leaf(leaf)) => may_split(self.depth_left) ==> leaf.objects.len()
                <= self.max_leaf_objects,
            Some(QuadTreeBranch::Node(a, b, c, d)) => {
                &&& may_split(self.depth_left)
                &&& a.depth_left == Some((self.depth_left.unwrap() - 1) as u32)
                &&& b.depth_left == Some((self.depth_left.unwrap() - 1) as u32)
                &&& c.depth_left == Some((self.depth_left.unwrap() - 1) as u32)
                &&& d.depth_left == Some((self.depth_left.unwrap() - 1) as u32)
                &&& a.wf() && b.wf() && c.wf() && d.wf()
                &&& a.child is Some && b.child is Some && c.child is Some && d.child is Some
            },
        }
    }

    /// The objects of the leaf reached from this node by going down the
    /// children that `path` names, one quadrant per level; `None` where the
    /// way ends at a node that holds nothing, or the path runs out above a leaf.
    pub closed spec fn leaf_along(self, path: Seq<Quadrant>) -> Option<Seq<T>>
        decreases self,
    {
        match self.child {
            None => None,
            Some(QuadTreeBranch::Leaf(leaf)) => Some(leaf.objects@),
            Some(QuadTreeBranch::Node(a, b, c, d)) => {
                if path.len() == 0 {
                    None
                } else {
                    match path[0] {
                        Quadrant::LowerLeft => a.leaf_along(path.drop_first()),
                        Quadrant::UpperLeft => b.leaf_along(path.drop_first()),
                        Quadrant::LowerRight => c.leaf_along(path.drop_first()),
                        Quadrant::UpperRight => d.leaf_along(path.drop_first()),
                    }
                }
            },
        }
    }

    /// Whether `path` leads from this node down to a node without children,
    /// one quadrant per level, and no further.
    pub closed spec fn reaches_bottom(self, path: Seq<Quadrant>) -> bool
        decreases self,
    {
        match self.child {
            Some(QuadTreeBranch::Node(a, b, c, d)) => {
                path.len() > 0 && match path[0] {
                    Quadrant::LowerLeft => a.reaches_bottom(path.drop_first()),
                    Quadrant::UpperLeft => b.reaches_bottom(path.drop_first()),
                    Quadrant::LowerRight => c.reaches_bottom(path.drop_first()),
                    Quadrant::UpperRight => d.reaches_bottom(path.drop_first()),
                }
            },
            _ => path.len() == 0,
        }
    }

    /// Whether `x` lies in the leaf that a way down picked for it by
    /// `quadrant` leads to from this node, whose route from the root is
    /// `route`; with `at_end`, as the last object of that leaf.
    pub open spec fn placed_as<F: Fn(&Vec<Quadrant>, &T) -> Quadrant>(
        self,
        quadrant: &F,
        route: Seq<Quadrant>,
        x: T,
        at_end: bool,
    ) -> bool {
        exists|path: Seq<Quadrant>|
            #![trigger self.leaf_along(path)]
            self.reaches_bottom(path) && picked_path(quadrant, &x, route, path) && self.leaf_along(path) is Some
                && leaf_holds(self.leaf_along(path).unwrap(), x, at_end)
    }

    /// Lying at the end of a leaf is lying in it.
    proof fn lemma_at_end_is_in<F: Fn(&Vec<Quadrant>, &T) -> Quadrant>(
        self,
        quadrant: &F,
        route: Seq<Quadrant>,
        x: T,
    )
        requires
            self.placed_as(quadrant, route, x, true),
        ensures
            self.placed_as(quadrant, route, x, false),
    {
        let path = choose|path: Seq<Quadrant>|
            #![trigger self.leaf_along(path)]
            self.reaches_bottom(path) && picked_path(quadrant, &x, route, path) && self.leaf_along(path) is Some
                && leaf_holds(self.leaf_along(path).unwrap(), x, true);
        let leaf = self.leaf_along(path).unwrap();
        assert(leaf[leaf.len() - 1] == x);
    }

    /// The child in quadrant `q` of four children.
    spec fn child_at(a: Box<Self>, b: Box<Self>, c: Box<Self>, d: Box<Self>, q: Quadrant) -> Self {
        match q {
            Quadrant::LowerLeft => *a,
            Quadrant::UpperLeft => *b,
            Quadrant::LowerRight => *c,
            Quadrant::UpperRight => *d,
        }
    }

    /// Whether `x` lies in the child that `quadrant` picks for it at `route`,
    /// placed there as `placed_as` says.
    spec fn placed_below<F: Fn(&Vec<Quadrant>, &T) -> Quadrant>(
        a: Box<Self>,
        b: Box<Self>,
        c: Box<Self>,
        d: Box<Self>,
        quadrant: &F,
        route: Seq<Quadrant>,
        x: T,
        at_end: bool,
    ) -> bool {
        exists|q: Quadrant|
            #![trigger Self::child_at(a, b, c, d, q)]
            (exists|rv: &Vec<Quadrant>| rv@ == route && #[trigger] quadrant.ensures((rv, &x), q))
                && Self::child_at(a, b, c, d, q).placed_as(quadrant, route.push(q), x, at_end)
    }

    /// An object lies in a node with children as `placed_as` says exactly when
    /// it lies so in the child that the quadrant function picks for it.
    proof fn lemma_placed_node<F: Fn(&Vec<Quadrant>, &T) -> Quadrant>(
        n: Self,
        a: Box<Self>,
        b: Box<Self>,
        c: Box<Self>,
        d: Box<Self>,
        quadrant: &F,
        route: Seq<Quadrant>,
        at_end: bool,
    )
        requires
            n.child == Some(QuadTreeBranch::Node(a, b, c, d)),
        ensures
            forall|x: T|
                #![trigger n.placed_as(quadrant, route, x, at_end)]
                #![trigger Self::placed_below(a, b, c, d, quadrant, route, x, at_end)]
                n.placed_as(quadrant, route, x, at_end) <==> Self::placed_below(a, b, c, d, quadrant, route, x, at_end),
    {
        assert forall|x: T|
            #![trigger n.placed_as(quadrant, route, x, at_end)]
            #![trigger Self::placed_below(a, b, c, d, quadrant, route, x, at_end)]
            n.placed_as(quadrant, route, x, at_end) <==> Self::placed_below(a, b, c, d, quadrant, route, x, at_end) by {
            if n.placed_as(quadrant, route, x, at_end) {
                let path = choose|path: Seq<Quadrant>|
                    #![trigger n.leaf_along(path)]
                    n.reaches_bottom(path) && picked_path(quadrant, &x, route, path) && n.leaf_along(path) is Some
                        && leaf_holds(n.leaf_along(path).unwrap(), x, at_end);
                let q = path[0];
                let rest = path.drop_first();
                let child = Self::child_at(a, b, c, d, q);
                assert(child.leaf_along(rest) == n.leaf_along(path));
                assert(child.reaches_bottom(rest));
                assert(picked_path(quadrant, &x, route.push(q), rest));
                assert(child.placed_as(quadrant, route.push(q), x, at_end));
            }
            if Self::placed_below(a, b, c, d, quadrant, route, x, at_end) {
                let q = choose|q: Quadrant|
                    #![trigger Self::child_at(a, b, c, d, q)]
                    (exists|rv: &Vec<Quadrant>| rv@ == route && #[trigger] quadrant.ensures((rv, &x), q))
                        && Self::child_at(a, b, c, d, q).placed_as(quadrant, route.push(q), x, at_end);
                let child = Self::child_at(a, b, c, d, q);
                let rest = choose|path: Seq<Quadrant>|
                    #![trigger child.leaf_along(path)]
                    child.reaches_bottom(path) && picked_path(quadrant, &x, route.push(q), path)
                        && child.leaf_along(path) is Some && leaf_holds(child.leaf_along(path).unwrap(), x, at_end);
                let path = seq![q] + rest;
                assert(path[0] == q);
                assert(path.drop_first() =~= rest);
                assert(n.leaf_along(path) == child.leaf_along(rest));
                assert(n.reaches_bottom(path));
                assert(picked_path(quadrant, &x, route, path));
            }
        }
    }

    /// In a well formed node, a leaf that could still split (the way down to
    /// it is shorter than the splits the node has left) holds at most one
    /// object.
    proof fn lemma_full_leaves_split(self, path: Seq<Quadrant>)
        requires
            self.wf(),
            self.reaches_bottom(path),
            self.leaf_along(path) is Some,
            self.depth_left matches Some(d) && path.len() < d,
        ensures
            self.leaf_along(path).unwrap().len() <= 1,
        decreases self,
    {
        match self.child {
            Some(QuadTreeBranch::Node(a, b, c, d)) => {
                let rest = path.drop_first();
                match path[0] {
                    Quadrant::LowerLeft => a.lemma_full_leaves_split(rest),
                    Quadrant::UpperLeft => b.lemma_full_leaves_split(rest),
                    Quadrant::LowerRight => c.lemma_full_leaves_split(rest),
                    Quadrant::UpperRight => d.lemma_full_leaves_split(rest),
                }
            },
            _ => {},
        }
    }

    /// How many more times the node may split.
    pub closed spec fn depth_measure(self) -> nat {
        match self.depth_left {
            Some(d) => d as nat,
            None => 0,
        }
    }

    /// A node with an empty leaf, as the children of a split node are made.
    fn new(depth_left: Option<u32>) -> (n: Self)
        ensures
            n.wf(),
            n.child is Some,
            n.contents() == Seq::<T>::empty(),
            n.depth_left == depth_left,
    {
        QuadTreeNode {
            child: Some(QuadTreeBranch::Leaf(Leaf { objects: Vec::new() })),
            max_leaf_objects: 1,
            depth_left,
        }
    }

    /// Puts `object` into this node, whose route from the root is `route`:
    /// into the child that `quadrant` picks if the node has children; into
    /// its leaf if the leaf has room or the node may not split; otherwise
    /// the node splits into four children with one split less left, and
    /// the leaf's objects, then `object`, go to the children that
    /// `quadrant` picks.
    fn insert<F: Fn(&Vec<Quadrant>, &T) -> Quadrant>(&mut self, object: T, route: &Vec<Quadrant>, quadrant: &F)
        requires
            old(self).wf(),
            forall|r: &Vec<Quadrant>, t: &T| #[trigger] quadrant.requires((r, t)),
        ensures
            final(self).wf(),
            final(self).child is Some,
            final(self).depth_left == old(self).depth_left,
            final(self).max_leaf_objects == old(self).max_leaf_objects,
            final(self).contents().to_multiset() == old(self).contents().to_multiset().insert(object),
            final(self).placed_as(quadrant, route@, object, true),
            forall|x: T| #[trigger] old(self).placed_as(quadrant, route@, x, false) ==> final(self).placed_as(
                quadrant,
                route@,
                x,
                false,
            ),
        decreases 2 * old(self).depth_measure(),
    {
        let child = self.child.take();
        match child {
            None => {
                let mut objects: Vec<T> = Vec::new();
                objects.push(object);
                self.child = Some(QuadTreeBranch::Leaf(Leaf { objects }));
                proof {
                    assert(self.contents() =~= seq![object]);
                    assert(seq![object] =~= Seq::<T>::empty().push(object));
                    vstd::seq_lib::to_multiset_build(Seq::<T>::empty(), object);
                    let p = Seq::<Quadrant>::empty();
                    assert(self.leaf_along(p) == Some(seq![object]));
                    assert(seq![object][0] == object);
                    assert(self.reaches_bottom(p));
                    assert(self.placed_as(quadrant, route@, object, true));
                    assert forall|x: T| #[trigger] old(self).placed_as(quadrant, route@, x, false) implies self.placed_as(quadrant, route@, x, false) by {
                        let path = choose|path: Seq<Quadrant>|
                            #![trigger old(self).leaf_along(path)]
                            old(self).reaches_bottom(path) && picked_path(quadrant, &x, route@, path)
                                && old(self).leaf_along(path) is Some && leaf_holds(old(self).leaf_along(path).unwrap(), x, false);
                        assert(old(self).leaf_along(path) is None);
                    }
                }
            },
            Some(QuadTreeBranch::Node(mut a, mut b, mut c, mut d)) => {
                let ghost old_a = a.contents();
                let ghost old_b = b.contents();
                let ghost old_c = c.contents();
                let ghost old_d = d.contents();
                proof {
                    Self::lemma_placed_node(*old(self), a, b, c, d, quadrant, route@, false);
                }
                Self::insert_into_child(&mut a, &mut b, &mut c, &mut d, object, route, quadrant);
                let ghost (a1, b1, c1, d1) = (a, b, c, d);
                self.child = Some(QuadTreeBranch::Node(a, b, c, d));
                proof {
                    Self::lemma_four_multisets(old_a, old_b, old_c, old_d);
                    Self::lemma_four_multisets(a1.contents(), b1.contents(), c1.contents(), d1.contents());
                    Self::lemma_placed_node(*self, a1, b1, c1, d1, quadrant, route@, false);
                    Self::lemma_placed_node(*self, a1, b1, c1, d1, quadrant, route@, true);
                }
            },
            Some(QuadTreeBranch::Leaf(leaf)) => {
                let can_split = match self.depth_left {
                    Some(k) => k > 0,
                    None => false,
                };
                if leaf.objects.len() < self.max_leaf_objects || !can_split {
                    let mut objects = leaf.objects;
                    let ghost before = objects@;
                    objects.push(object);
                    self.child = Some(QuadTreeBranch::Leaf(Leaf { objects }));
                    proof {
                        vstd::seq_lib::to_multiset_build(before, object);
                        let p = Seq::<Quadrant>::empty();
                        assert(self.leaf_along(p) == Some(before.push(object)));
                        assert(before.push(object)[before.len() as int] == object);
                        assert(self.reaches_bottom(p));
                        assert(self.placed_as(quadrant, route@, object, true));
                        assert forall|x: T| #[trigger] old(self).placed_as(quadrant, route@, x, false) implies self.placed_as(quadrant, route@, x, false) by {
                            let path = choose|path: Seq<Quadrant>|
                                #![trigger old(self).leaf_along(path)]
                                old(self).reaches_bottom(path) && picked_path(quadrant, &x, route@, path)
                                    && old(self).leaf_along(path) is Some && leaf_holds(old(self).leaf_along(path).unwrap(), x, false);
                            assert(path.len() == 0);
                            let k = choose|k: int| 0 <= k < before.len() && before[k] == x;
                            assert(before.push(object)[k] == x);
                            assert(self.leaf_along(path) == Some(before.push(object)));
                        }
                    }
                } else {
                    let mut objects = leaf.objects;
                    let ghost before = objects@;
                    objects.push(object);
                    proof {
                        vstd::seq_lib::to_multiset_build(before, object);
                    }
                    let k = match self.depth_left {
                        Some(k) => k,
                        None => 0,
                    };
                    let new_depth = Some(k - 1);
                    let mut a = Box::new(QuadTreeNode::new(new_depth));
                    let mut b = Box::new(QuadTreeNode::new(new_depth));
                    let mut c = Box::new(QuadTreeNode::new(new_depth));
                    let mut d = Box::new(QuadTreeNode::new(new_depth));
                    let ghost all = objects@;
                    let mut i: usize = 0;
                    proof {
                        assert(a.contents() + b.contents() + c.contents() + d.contents() =~= Seq::<T>::empty());
                        assert(all.take(0) =~= Seq::<T>::empty());
                        assert(all.len() == objects.len());
                    }
                    while objects.len() > 0
                        invariant
                            0 <= i <= all.len(),
                            objects@ == all.skip(i as int),
                            objects.len() == all.len() - i,
                            all.len() <= usize::MAX,
                            a.wf() && b.wf() && c.wf() && d.wf(),
                            a.child is Some && b.child is Some && c.child is Some && d.child is Some,
                            a.depth_left == new_depth && b.depth_left == new_depth,
                            c.depth_left == new_depth && d.depth_left == new_depth,
                            new_depth == Some((k - 1) as u32),
                            k > 0,
                            k as nat == old(self).depth_measure(),
                            forall|r: &Vec<Quadrant>, t: &T| #[trigger] quadrant.requires((r, t)),
                            (a.contents() + b.contents() + c.contents() + d.contents()).to_multiset()
                                == all.take(i as int).to_multiset(),
                            forall|j: int|
                                0 <= j < i ==> Self::placed_below(a, b, c, d, quadrant, route@, #[trigger] all[j], false),
                            i > 0 ==> Self::placed_below(a, b, c, d, quadrant, route@, all[i - 1], true),
                        decreases objects.len(),
                    {
                        let ghost old_a = a.contents();
                        let ghost old_b = b.contents();
                        let ghost old_c = c.contents();
                        let ghost old_d = d.contents();
                        let next = objects.remove(0);
                        proof {
                            assert(all.take(i + 1) =~= all.take(i as int).push(next));
                            vstd::seq_lib::to_multiset_build(all.take(i as int), next);
                            assert(objects@ =~= all.skip(i + 1));
                            Self::lemma_four_multisets(old_a, old_b, old_c, old_d);
                        }
                        let ghost (a0, b0, c0, d0) = (a, b, c, d);
                        proof {
                            assert(next == all[i as int]);
                        }
                        Self::insert_into_child(&mut a, &mut b, &mut c, &mut d, next, route, quadrant);
                        proof {
                            Self::lemma_four_multisets(a.contents(), b.contents(), c.contents(), d.contents());
                            assert forall|j: int| 0 <= j < i + 1 implies Self::placed_below(a, b, c, d, quadrant, route@, #[trigger] all[j], false) by {
                                if j < i {
                                    assert(Self::placed_below(a0, b0, c0, d0, quadrant, route@, all[j], false));
                                }
                            }
                        }
                        i = i + 1;
                    }
                    proof {
                        assert(all.take(i as int) =~= all);
                    }
                    let ghost (a1, b1, c1, d1) = (a, b, c, d);
                    self.child = Some(QuadTreeBranch::Node(a, b, c, d));
                    proof {
                        Self::lemma_placed_node(*self, a1, b1, c1, d1, quadrant, route@, false);
                    Self::lemma_placed_node(*self, a1, b1, c1, d1, quadrant, route@, true);
                        assert(all[all.len() - 1] == object);
                        assert(Self::placed_below(a1, b1, c1, d1, quadrant, route@, all[all.len() - 1], true));
                        assert forall|x: T| #[trigger] old(self).placed_as(quadrant, route@, x, false) implies self.placed_as(quadrant, route@, x, false) by {
                            let path = choose|path: Seq<Quadrant>|
                                #![trigger old(self).leaf_along(path)]
                                old(self).reaches_bottom(path) && picked_path(quadrant, &x, route@, path)
                                    && old(self).leaf_along(path) is Some && leaf_holds(old(self).leaf_along(path).unwrap(), x, false);
                            let k = choose|k: int| 0 <= k < before.len() && before[k] == x;
                            assert(all[k] == x);
                            assert(Self::placed_below(a1, b1, c1, d1, quadrant, route@, all[k], false));
                        }
                    }
                }
            },
        }
    }

    /// Puts `object` into the child that `quadrant` picks for it.
    fn insert_into_child<F: Fn(&Vec<Quadrant>, &T) -> Quadrant>(
        a: &mut Box<QuadTreeNode<T>>,
        b: &mut Box<QuadTreeNode<T>>,
        c: &mut Box<QuadTreeNode<T>>,
        d: &mut Box<QuadTreeNode<T>>,
        object: T,
        route: &Vec<Quadrant>,
        quadrant: &F,
    )
        requires
            old(a).wf() && old(b).wf() && old(c).wf() && old(d).wf(),
            old(b).depth_left == old(a).depth_left,
            old(c).depth_left == old(a).depth_left,
            old(d).depth_left == old(a).depth_left,
            forall|r: &Vec<Quadrant>, t: &T| #[trigger] quadrant.requires((r, t)),
        ensures
            final(a).wf() && final(b).wf() && final(c).wf() && final(d).wf(),
            old(a).child is Some ==> final(a).child is Some,
            old(b).child is Some ==> final(b).child is Some,
            old(c).child is Some ==> final(c).child is Some,
            old(d).child is Some ==> final(d).child is Some,
            final(a).depth_left == old(a).depth_left && final(b).depth_left == old(b).depth_left,
            final(c).depth_left == old(c).depth_left && final(d).depth_left == old(d).depth_left,
            final(a).contents().to_multiset().add(final(b).contents().to_multiset()).add(
                final(c).contents().to_multiset(),
            ).add(final(d).contents().to_multiset()) == old(a).contents().to_multiset().add(
                old(b).contents().to_multiset(),
            ).add(old(c).contents().to_multiset()).add(old(d).contents().to_multiset()).insert(object),
            Self::placed_below(*final(a), *final(b), *final(c), *final(d), quadrant, route@, object, true),
            Self::placed_below(*final(a), *final(b), *final(c), *final(d), quadrant, route@, object, false),
            forall|x: T|
                #[trigger] Self::placed_below(*old(a), *old(b), *old(c), *old(d), quadrant, route@, x, false)
                    ==> Self::placed_below(*final(a), *final(b), *final(c), *final(d), quadrant, route@, x, false),
        decreases 2 * old(a).depth_measure() + 1,
    {
        let q = quadrant(route, &object);
        let mut child_route = route.clone();
        child_route.push(q);
        match q {
            Quadrant::LowerLeft => a.insert(object, &child_route, quadrant),
            Quadrant::UpperLeft => b.insert(object, &child_route, quadrant),
            Quadrant::LowerRight => c.insert(object, &child_route, quadrant),
            Quadrant::UpperRight => d.insert(object, &child_route, quadrant),
        }
        proof {
            assert(Self::child_at(*a, *b, *c, *d, q).placed_as(quadrant, route@.push(q), object, true));
            Self::child_at(*a, *b, *c, *d, q).lemma_at_end_is_in(quadrant, route@.push(q), object);
            assert(quadrant.ensures((route, &object), q));
            assert forall|x: T|
                #[trigger] Self::placed_below(*old(a), *old(b), *old(c), *old(d), quadrant, route@, x, false)
                    implies Self::placed_below(*a, *b, *c, *d, quadrant, route@, x, false) by {
                let p = choose|p: Quadrant|
                    #![trigger Self::child_at(*old(a), *old(b), *old(c), *old(d), p)]
                    (exists|rv: &Vec<Quadrant>| rv@ == route@ && #[trigger] quadrant.ensures((rv, &x), p))
                        && Self::child_at(*old(a), *old(b), *old(c), *old(d), p).placed_as(quadrant, route@.push(p), x, false);
                assert(Self::child_at(*a, *b, *c, *d, p).placed_as(quadrant, route@.push(p), x, false));
            }
        }
        assert(final(a).contents().to_multiset().add(final(b).contents().to_multiset()).add(
            final(c).contents().to_multiset(),
        ).add(final(d).contents().to_multiset()) =~= old(a).contents().to_multiset().add(
            old(b).contents().to_multiset(),
        ).add(old(c).contents().to_multiset()).add(old(d).contents().to_multiset()).insert(object));
    }

    proof fn lemma_four_multisets(a: Seq<T>, b: Seq<T>, c: Seq<T>, d: Seq<T>)
        ensures
            (a + b + c + d).to_multiset() == a.to_multiset().add(b.to_multiset()).add(c.to_multiset()).add(
                d.to_multiset(),
            ),
    {
        lemma_multiset_commutative(a, b);
        lemma_multiset_commutative(a + b, c);
        lemma_multiset_commutative(a + b + c, d);
    }

    /// The first object of the leaf that `object` leads to, going down the
    /// children that `quadrant` picks for it.
    fn first_in_leaf<'a, F: Fn(&Vec<Quadrant>, &T) -> Quadrant>(&'a self, object: &T, route: &Vec<Quadrant>, quadrant: &F) -> (r: LeafFirst<'a, T>)
        requires
            self.wf(),
            forall|r: &Vec<Quadrant>, t: &T| #[trigger] quadrant.requires((r, t)),
        ensures
            r matches LeafFirst::First(x) ==> self.contents().contains(*x),
            r is NoLeaf ==> self.child is None,
            exists|path: Seq<Quadrant>|
                #![trigger self.leaf_along(path)]
                self.reaches_bottom(path) && picked_path(quadrant, object, route@, path)
                    && finds_first(r, self.leaf_along(path)),
        decreases self,
    {
        match &self.child {
            None => {
                assert(self.reaches_bottom(Seq::empty()) && self.leaf_along(Seq::empty()) is None);
                LeafFirst::NoLeaf
            },
            Some(QuadTreeBranch::Leaf(leaf)) => {
                assert(self.reaches_bottom(Seq::empty()) && self.leaf_along(Seq::empty()) == Some(leaf.objects@));
                if leaf.objects.len() == 0 {
                    assert(leaf.objects@ =~= Seq::<T>::empty());
                    LeafFirst::EmptyLeaf
                } else {
                    let first = &leaf.objects[0];
                    assert(self.contents()[0] == *first);
                    LeafFirst::First(first)
                }
            },
            Some(QuadTreeBranch::Node(a, b, c, d)) => {
                let q = quadrant(route, object);
                let mut child_route = route.clone();
                child_route.push(q);
                let ghost child: QuadTreeNode<T> = match q {
                    Quadrant::LowerLeft => **a,
                    Quadrant::UpperLeft => **b,
                    Quadrant::LowerRight => **c,
                    Quadrant::UpperRight => **d,
                };
                let found = match q {
                    Quadrant::LowerLeft => a.first_in_leaf(object, &child_route, quadrant),
                    Quadrant::UpperLeft => b.first_in_leaf(object, &child_route, quadrant),
                    Quadrant::LowerRight => c.first_in_leaf(object, &child_route, quadrant),
                    Quadrant::UpperRight => d.first_in_leaf(object, &child_route, quadrant),
                };
                proof {
                    let rest = choose|p: Seq<Quadrant>|
                        #![trigger child.leaf_along(p)]
                        child.reaches_bottom(p) && picked_path(quadrant, object, child_route@, p)
                            && finds_first(found, child.leaf_along(p));
                    let path = seq![q] + rest;
                    assert(path[0] == q);
                    assert(path.drop_first() =~= rest);
                    assert(self.reaches_bottom(path));
                    assert(self.leaf_along(path) == child.leaf_along(rest));
                    lemma_picked_path_step(quadrant, object, route, q, rest);
                    assert(picked_path(quadrant, object, route@, path));
                    let all = a.contents() + b.contents() + c.contents() + d.contents();
                    assert(self.contents() == all);
                    if let LeafFirst::First(x) = found {
                        if q == Quadrant::LowerLeft {
                            let k = choose|k: int| 0 <= k < a.contents().len() && a.contents()[k] == *x;
                            assert(all[k] == *x);
                        } else if q == Quadrant::UpperLeft {
                            let k = choose|k: int| 0 <= k < b.contents().len() && b.contents()[k] == *x;
                            assert(all[a.contents().len() + k] == *x);
                        } else if q == Quadrant::LowerRight {
                            let k = choose|k: int| 0 <= k < c.contents().len() && c.contents()[k] == *x;
                            assert(all[a.contents().len() + b.contents().len() + k] == *x);
                        } else {
                            let k = choose|k: int| 0 <= k < d.contents().len() && d.contents()[k] == *x;
                            assert(all[a.contents().len() + b.contents().len() + c.contents().len() + k] == *x);
                        }
                    }
                }
                found
            },
        }
    }

    /// Appends references to the node's objects, in the order of
    /// `contents`, to `out`.
    fn collect_into<'a>(&'a self, out: &mut Vec<&'a T>)
        ensures
            final(out)@.len() == old(out)@.len() + self.contents().len(),
            forall|i: int| 0 <= i < old(out)@.len() ==> #[trigger] final(out)@[i] == old(out)@[i],
            forall|i: int|
                0 <= i < self.contents().len() ==> *#[trigger] final(out)@[old(out)@.len() + i]
                    == self.contents()[i],
        decreases self,
    {
        match &self.child {
            None => {},
            Some(QuadTreeBranch::Leaf(leaf)) => {
                let ghost start = out@.len();
                let mut i: usize = 0;
                while i < leaf.objects.len()
                    invariant
                        0 <= i <= leaf.objects.len(),
                        start == old(out)@.len(),
                        out@.len() == start + i,
                        self.contents() == leaf.objects@,
                        forall|j: int| 0 <= j < start ==> #[trigger] out@[j] == old(out)@[j],
                        forall|j: int| 0 <= j < i ==> *#[trigger] out@[start + j] == leaf.objects@[j],
                    decreases leaf.objects.len() - i,
                {
                    out.push(&leaf.objects[i]);
                    i = i + 1;
                }
            },
            Some(QuadTreeBranch::Node(a, b, c, d)) => {
                let ghost start = out@.len();
                let ghost ca = a.contents();
                let ghost cb = b.contents();
                let ghost cc = c.contents();
                let ghost cd = d.contents();
                a.collect_into(out);
                let ghost o1 = out@;
                b.collect_into(out);
                let ghost o2 = out@;
                c.collect_into(out);
                let ghost o3 = out@;
                d.collect_into(out);
                proof {
                    assert(self.contents() == ca + cb + cc + cd);
                    assert forall|i: int| 0 <= i < self.contents().len() implies *#[trigger] out@[start + i]
                        == self.contents()[i] by {
                        let la = ca.len();
                        let lb = cb.len();
                        let lc = cc.len();
                        if i < la {
                            assert(out@[start + i] == o3[start + i]);
                            assert(o3[start + i] == o2[start + i]);
                            assert(o2[start + i] == o1[start + i]);
                            assert(*o1[start + i] == ca[i]);
                        } else if i < la + lb {
                            let k = i - la;
                            assert(out@[start + i] == o3[start + i]);
                            assert(o3[start + i] == o2[start + i]);
                            assert(o2[o1.len() + k] == o2[start + i]);
                            assert(*o2[o1.len() + k] == cb[k]);
                        } else if i < la + lb + lc {
                            let k = i - la - lb;
                            assert(out@[start + i] == o3[start + i]);
                            assert(o3[o2.len() + k] == o3[start + i]);
                            assert(*o3[o2.len() + k] == cc[k]);
                        } else {
                            let k = i - la - lb - lc;
                            assert(out@[o3.len() + k] == out@[start + i]);
                            assert(*out@[o3.len() + k] == cd[k]);
                        }
                    }
                }
            },
        }
    }
}

/// What going down the tree to a leaf finds: no leaf (the tree has never
/// held anything), an empty leaf, or the first object of the leaf.
pub enum LeafFirst<'a, T> {
    NoLeaf,
    EmptyLeaf,
    First(&'a T),
}

/// Whether a leaf with objects `leaf` holds `x`; with `at_end`, as its
/// last object.
pub open spec fn leaf_holds<T>(leaf: Seq<T>, x: T, at_end: bool) -> bool {
    if at_end {
        leaf.len() > 0 && leaf.last() == x
    } else {
        leaf.contains(x)
    }
}

/// Whether `path` is a way down that the quadrant function picks for
/// `object`, starting at the node that the route `start` leads to: at each level the
/// function, asked with the route so far, gave the next quadrant of `path`.
pub open spec fn picked_path<T, F: Fn(&Vec<Quadrant>, &T) -> Quadrant>(
    quadrant: &F,
    object: &T,
    start: Seq<Quadrant>,
    path: Seq<Quadrant>,
) -> bool
    decreases path.len(),
{
    path.len() == 0 || {
        &&& exists|rv: &Vec<Quadrant>| rv@ == start && #[trigger] quadrant.ensures((rv, object), path[0])
        &&& picked_path(quadrant, object, start.push(path[0]), path.drop_first())
    }
}

/// A way down that starts with the quadrant the function gave at `start`,
/// and goes on as it picks below, is a way down it picks.
proof fn lemma_picked_path_step<T, F: Fn(&Vec<Quadrant>, &T) -> Quadrant>(
    quadrant: &F,
    object: &T,
    start: &Vec<Quadrant>,
    q: Quadrant,
    rest: Seq<Quadrant>,
)
    requires
        quadrant.ensures((start, object), q),
        picked_path(quadrant, object, start@.push(q), rest),
    ensures
        picked_path(quadrant, object, start@, seq![q] + rest),
{
    let path = seq![q] + rest;
    assert(path[0] == q);
    assert(path.drop_first() =~= rest);
}

/// Whether `found` is what a leaf with objects `leaf` gives: no leaf for
/// `None`, an empty leaf for no objects, otherwise its first object.
pub open spec fn finds_first<'a, T>(found: LeafFirst<'a, T>, leaf: Option<Seq<T>>) -> bool {
    match found {
        LeafFirst::NoLeaf => leaf is None,
        LeafFirst::EmptyLeaf => leaf == Some(Seq::<T>::empty()),
        LeafFirst::First(x) => leaf is Some && leaf.unwrap().len() > 0 && *x == leaf.unwrap()[0],
    }
}

/// A quad tree of objects.
pub struct QuadTree<T> {
    root: QuadTreeNode<T>,
}

impl<T> QuadTree<T> {
    /// The tree is well formed.
    pub closed spec fn wf(&self) -> bool {
        self.root.wf()
    }

    /// The objects of the tree, in the order in which `collect_objects` gives them.
    pub closed spec fn contents(&self) -> Seq<T> {
        self.root.contents()
    }

    /// The objects of the leaf reached from the root by going down the
    /// children that `path` names; `None` where the way ends at a node that
    /// holds nothing (the tree has never held anything) or `path` runs out
    /// above a leaf.
    pub closed spec fn leaf_along(&self, path: Seq<Quadrant>) -> Option<Seq<T>> {
        self.root.leaf_along(path)
    }

    /// Whether `path` leads from the root down to a node without children,
    /// one quadrant per level, and no further.
    pub closed spec fn reaches_bottom(&self, path: Seq<Quadrant>) -> bool {
        self.root.reaches_bottom(path)
    }

    /// Whether `x` lies in the leaf that a way down from the root, picked
    /// for it level by level by `quadrant`, leads to; with `at_end`, as the
    /// last object of that leaf.
    pub open spec fn placed_as<F: Fn(&Vec<Quadrant>, &T) -> Quadrant>(&self, quadrant: &F, x: T, at_end: bool) -> bool {
        exists|path: Seq<Quadrant>|
            #![trigger self.leaf_along(path)]
            self.reaches_bottom(path) && picked_path(quadrant, &x, Seq::empty(), path) && self.leaf_along(path) is Some
                && leaf_holds(self.leaf_along(path).unwrap(), x, at_end)
    }

    /// No leaf that could still split holds more than one object: a leaf
    /// whose way down from the root is shorter than the tree's maximum depth
    /// splits when a second object comes to it.
    pub open spec fn leaves_split_when_full(&self) -> bool {
        forall|path: Seq<Quadrant>|
            #![trigger self.leaf_along(path)]
            self.reaches_bottom(path) && self.leaf_along(path) is Some && (self.max_depth() matches Some(d)
                && path.len() < d) ==> self.leaf_along(path).unwrap().len() <= 1
    }

    /// A well formed tree splits its full leaves.
    proof fn lemma_leaves_split_when_full(&self)
        requires
            self.wf(),
        ensures
            self.leaves_split_when_full(),
    {
        assert forall|path: Seq<Quadrant>|
            #![trigger self.leaf_along(path)]
            self.reaches_bottom(path) && self.leaf_along(path) is Some && (self.max_depth() matches Some(d)
                && path.len() < d) implies self.leaf_along(path).unwrap().len() <= 1 by {
            self.root.lemma_full_leaves_split(path);
        }
    }

    /// `placed_as` on the tree is `placed_as` on its root, whose route is empty.
    proof fn lemma_placed_root<F: Fn(&Vec<Quadrant>, &T) -> Quadrant>(&self, quadrant: &F, at_end: bool)
        ensures
            forall|x: T|
                #![trigger self.placed_as(quadrant, x, at_end)]
                #![trigger self.root.placed_as(quadrant, Seq::empty(), x, at_end)]
                self.placed_as(quadrant, x, at_end) <==> self.root.placed_as(quadrant, Seq::empty(), x, at_end),
    {
        assert forall|x: T|
            #![trigger self.placed_as(quadrant, x, at_end)]
            #![trigger self.root.placed_as(quadrant, Seq::empty(), x, at_end)]
            self.placed_as(quadrant, x, at_end) <==> self.root.placed_as(quadrant, Seq::empty(), x, at_end) by {
            if self.placed_as(quadrant, x, at_end) {
                let path = choose|path: Seq<Quadrant>|
                    #![trigger self.leaf_along(path)]
                    self.reaches_bottom(path) && picked_path(quadrant, &x, Seq::empty(), path)
                        && self.leaf_along(path) is Some && leaf_holds(self.leaf_along(path).unwrap(), x, at_end);
                assert(self.root.leaf_along(path) == self.leaf_along(path));
            }
            if self.root.placed_as(quadrant, Seq::empty(), x, at_end) {
                let path = choose|path: Seq<Quadrant>|
                    #![trigger self.root.leaf_along(path)]
                    self.root.reaches_bottom(path) && picked_path(quadrant, &x, Seq::empty(), path)
                        && self.root.leaf_along(path) is Some && leaf_holds(self.root.leaf_along(path).unwrap(), x, at_end);
                assert(self.root.leaf_along(path) == self.leaf_along(path));
            }
        }
    }

    /// How many times the root may split; `None` is taken as "may not split".
    pub closed spec fn max_depth(&self) -> Option<u32> {
        self.root.depth_left
    }

    /// An empty tree whose root may split `max_depth` times (not at all if `None`).
    pub fn new(max_depth: Option<u32>) -> (tree: Self)
        ensures
            tree.wf(),
            tree.contents() == Seq::<T>::empty(),
            tree.max_depth() == max_depth,
            tree.leaves_split_when_full(),
    {
        let tree = QuadTree { root: QuadTreeNode { child: None, max_leaf_objects: 1, depth_left: max_depth } };
        proof {
            tree.lemma_leaves_split_when_full();
        }
        tree
    }

    /// Puts an object into the tree; `quadrant(route, object)` tells which
    /// quadrant of the node reached by `route` from the root the object is in.
    /// The object lands at the end of the leaf that the quadrants lead it
    /// to (`placed_as` with `at_end`), and so also lies in it; a full
    /// leaf that may still split splits, and objects that lay in the leaves
    /// their quadrants lead to still do.
    pub fn insert<F: Fn(&Vec<Quadrant>, &T) -> Quadrant>(&mut self, object: T, quadrant: &F)
        requires
            old(self).wf(),
            forall|r: &Vec<Quadrant>, t: &T| #[trigger] quadrant.requires((r, t)),
        ensures
            final(self).wf(),
            final(self).max_depth() == old(self).max_depth(),
            final(self).contents().to_multiset() == old(self).contents().to_multiset().insert(object),
            final(self).placed_as(quadrant, object, true),
            final(self).placed_as(quadrant, object, false),
            forall|x: T| #[trigger] old(self).placed_as(quadrant, x, false) ==> final(self).placed_as(quadrant, x, false),
            final(self).leaves_split_when_full(),
    {
        let route: Vec<Quadrant> = Vec::new();
        proof {
            old(self).lemma_placed_root(quadrant, false);
            assert(route@ =~= Seq::<Quadrant>::empty());
        }
        self.root.insert(object, &route, quadrant);
        proof {
            self.lemma_placed_root(quadrant, false);
            self.lemma_placed_root(quadrant, true);
            self.root.lemma_at_end_is_in(quadrant, route@, object);
            self.lemma_leaves_split_when_full();
        }
    }

    /// Puts each of the objects into the tree, in order: each lands in the
    /// leaf that its quadrants lead it to, as `insert` says.
    pub fn bulk_insert<F: Fn(&Vec<Quadrant>, &T) -> Quadrant>(&mut self, objects: Vec<T>, quadrant: &F)
        requires
            old(self).wf(),
            forall|r: &Vec<Quadrant>, t: &T| #[trigger] quadrant.requires((r, t)),
        ensures
            final(self).wf(),
            final(self).max_depth() == old(self).max_depth(),
            final(self).contents().to_multiset() == old(self).contents().to_multiset().add(
                objects@.to_multiset(),
            ),
            forall|i: int| 0 <= i < objects@.len() ==> final(self).placed_as(quadrant, #[trigger] objects@[i], false),
            forall|x: T| #[trigger] old(self).placed_as(quadrant, x, false) ==> final(self).placed_as(quadrant, x, false),
            final(self).leaves_split_when_full(),
    {
        let mut objects = objects;
        let ghost all = objects@;
        let ghost start = self.contents().to_multiset();
        let mut i: usize = 0;
        proof {
            assert(all.take(0) =~= Seq::<T>::empty());
            lemma_empty_multiset::<T>();
            assert(start.add(Seq::<T>::empty().to_multiset()) =~= start);
            assert(all.len() == objects.len());
        }
        while objects.len() > 0
            invariant
                0 <= i <= all.len(),
                all.len() <= usize::MAX,
                objects@ == all.skip(i as int),
                objects.len() == all.len() - i,
                self.wf(),
                self.max_depth() == old(self).max_depth(),
                start == old(self).contents().to_multiset(),
                forall|r: &Vec<Quadrant>, t: &T| #[trigger] quadrant.requires((r, t)),
                self.contents().to_multiset() == start.add(all.take(i as int).to_multiset()),
                forall|j: int| 0 <= j < i ==> self.placed_as(quadrant, #[trigger] all[j], false),
                forall|x: T| #[trigger] old(self).placed_as(quadrant, x, false) ==> self.placed_as(quadrant, x, false),
            decreases objects.len(),
        {
            let next = objects.remove(0);
            proof {
                assert(all.take(i + 1) =~= all.take(i as int).push(next));
                vstd::seq_lib::to_multiset_build(all.take(i as int), next);
                assert(objects@ =~= all.skip(i + 1));
            }
            let ghost before = *self;
            proof {
                assert(next == all[i as int]);
            }
            self.insert(next, quadrant);
            proof {
                assert(self.contents().to_multiset() =~= start.add(all.take(i + 1).to_multiset()));
                assert forall|j: int| 0 <= j < i + 1 implies self.placed_as(quadrant, #[trigger] all[j], false) by {
                    if j < i {
                        assert(before.placed_as(quadrant, all[j], false));
                    }
                }
                assert forall|x: T| #[trigger] old(self).placed_as(quadrant, x, false) implies self.placed_as(quadrant, x, false) by {
                    assert(before.placed_as(quadrant, x, false));
                }
            }
            i = i + 1;
        }
        proof {
            assert(all.take(i as int) =~= all);
            self.lemma_leaves_split_when_full();
        }
    }

    /// Goes down the tree as `object` would be put in, each level to the
    /// quadrant that `quadrant` gives, and tells what the node it reaches
    /// holds: no leaf (the tree has never held anything), an empty leaf, or
    /// the first object of its leaf.
    pub fn find_closest_object_to_point<'a, F: Fn(&Vec<Quadrant>, &T) -> Quadrant>(&'a self, object: &T, quadrant: &F) -> (r: LeafFirst<'a, T>)
        requires
            self.wf(),
            forall|r: &Vec<Quadrant>, t: &T| #[trigger] quadrant.requires((r, t)),
        ensures
            r matches LeafFirst::First(x) ==> self.contents().contains(*x),
            r is NoLeaf ==> self.contents().len() == 0,
            exists|path: Seq<Quadrant>|
                #![trigger self.leaf_along(path)]
                self.reaches_bottom(path) && picked_path(quadrant, object, Seq::empty(), path)
                    && finds_first(r, self.leaf_along(path)),
    {
        let route: Vec<Quadrant> = Vec::new();
        let r = self.root.first_in_leaf(object, &route, quadrant);
        proof {
            let path = choose|p: Seq<Quadrant>|
                #![trigger self.root.leaf_along(p)]
                self.root.reaches_bottom(p) && picked_path(quadrant, object, route@, p)
                    && finds_first(r, self.root.leaf_along(p));
            assert(self.leaf_along(path) == self.root.leaf_along(path));
        }
        r
    }

    /// References to all objects of the tree, leaf by leaf, children in the
    /// order lower left, upper left, lower right, upper right.
    pub fn collect_objects(&self) -> (objects: Vec<&T>)
        ensures
            objects@.len() == self.contents().len(),
            forall|i: int| 0 <= i < objects@.len() ==> *#[trigger] objects@[i] == self.contents()[i],
    {
        let mut out: Vec<&T> = Vec::new();
        self.root.collect_into(&mut out);
        assert forall|i: int| 0 <= i < out@.len() implies *#[trigger] out@[i] == self.contents()[i] by {
            assert(out@[0 + i] == out@[i]);
        }
        out
    }
}

/// The empty sequence holds nothing.
pub proof fn lemma_empty_multiset<T>()
    ensures
        Seq::<T>::empty().to_multiset() == Multiset::<T>::empty(),
{
    vstd::seq_lib::to_multiset_len(Seq::<T>::empty());
    vstd::multiset::lemma_multiset_empty_len(Seq::<T>::empty().to_multiset());
}

/// What the tree gives back is what was put in: after objects are put into
/// an empty tree, its contents hold each of them as often as they were put
/// in, and nothing else.
pub proof fn law_tree_holds_what_was_inserted<T>(contents: Seq<T>, inserted: Seq<T>)
    requires
        contents.to_multiset() == Seq::<T>::empty().to_multiset().add(inserted.to_multiset()),
    ensures
        contents.to_multiset() == inserted.to_multiset(),
        contents.len() == inserted.len(),
{
    lemma_empty_multiset::<T>();
    assert(Seq::<T>::empty().to_multiset().add(inserted.to_multiset()) =~= inserted.to_multiset());
    vstd::seq_lib::to_multiset_len(contents);
    vstd::seq_lib::to_multiset_len(inserted);
}

} // verus!
