use abc_game_engine::quad_tree::{LeafFirst, QuadTree, Quadrant};
use rand::rngs::StdRng;
use rand::{Rng, SeedableRng};

/// The quadrant of the node reached by `route` from a root at `[0, 0]` of
/// width 100 that a point lies in, the way the engine lays out its nodes.
fn quadrant_of(route: &Vec<Quadrant>, point: &(f64, f64)) -> Quadrant {
    let mut pos = [0.0f64, 0.0f64];
    let mut width = 100.0f64;
    for q in route {
        let new_width = width / 2.0;
        pos = match q {
            Quadrant::LowerLeft => [pos[0], pos[1] + new_width],
            Quadrant::UpperLeft => [pos[0], pos[1]],
            Quadrant::LowerRight => [pos[0] + new_width, pos[1] + new_width],
            Quadrant::UpperRight => [pos[0] + new_width, pos[1]],
        };
        width = new_width;
    }
    let center = [pos[0] + width / 2.0, pos[1] + width / 2.0];
    let left = point.0 <= center[0];
    let top = point.1 >= center[1];
    match (left, top) {
        (true, true) => Quadrant::UpperLeft,
        (true, false) => Quadrant::LowerLeft,
        (false, true) => Quadrant::UpperRight,
        (false, false) => Quadrant::LowerRight,
    }
}

fn random_points(n: usize, seed: u64) -> Vec<(f64, f64)> {
    let mut rng = StdRng::seed_from_u64(seed);
    (0..n)
        .map(|_| (rng.gen::<f64>() * 100.0, rng.gen::<f64>() * 100.0))
        .collect()
}

#[test]
fn test_insert() {
    let mut quad_tree = QuadTree::new(Some(100));
    let points = random_points(10000, 7);
    quad_tree.bulk_insert(points.clone(), &quadrant_of);

    for point in points.iter() {
        match quad_tree.find_closest_object_to_point(point, &quadrant_of) {
            LeafFirst::First(found) => {
                if found != point {
                    panic!(
                        "expected object at [{:.2}, {:.2}] found object at [{:.2}, {:.2}]",
                        point.0, point.1, found.0, found.1
                    );
                }
            }
            _ => panic!("could not find object at [{:.2}, {:.2}]", point.0, point.1),
        }
    }
}

#[test]
fn test_max_depth() {
    let mut quad_tree = QuadTree::new(Some(100));
    let point = (31.5, 77.25);
    let objects = vec![point; 10000];
    // without a depth limit on splitting this would never end
    quad_tree.bulk_insert(objects, &quadrant_of);
    assert_eq!(quad_tree.collect_objects().len(), 10000);
}

#[test]
fn collects_every_inserted_object_once() {
    let mut quad_tree = QuadTree::new(Some(12));
    let points = random_points(500, 3);
    for p in points.iter() {
        quad_tree.insert(*p, &quadrant_of);
    }
    let mut collected: Vec<(f64, f64)> = quad_tree.collect_objects().into_iter().copied().collect();
    let mut expected = points.clone();
    collected.sort_by(|a, b| a.partial_cmp(b).unwrap());
    expected.sort_by(|a, b| a.partial_cmp(b).unwrap());
    assert_eq!(collected, expected);
}

#[test]
fn tree_without_depth_never_splits() {
    let mut quad_tree = QuadTree::new(None);
    quad_tree.insert((10.0, 10.0), &quadrant_of);
    quad_tree.insert((90.0, 90.0), &quadrant_of);
    quad_tree.insert((10.0, 90.0), &quadrant_of);
    let collected: Vec<(f64, f64)> = quad_tree.collect_objects().into_iter().copied().collect();
    // a single leaf keeps the order of insertion
    assert_eq!(collected, vec![(10.0, 10.0), (90.0, 90.0), (10.0, 90.0)]);
}

#[test]
fn split_orders_objects_by_quadrant() {
    let mut quad_tree = QuadTree::new(Some(1));
    // upper right first, then lower left
    quad_tree.insert((90.0, 90.0), &quadrant_of);
    quad_tree.insert((10.0, 10.0), &quadrant_of);
    let collected: Vec<(f64, f64)> = quad_tree.collect_objects().into_iter().copied().collect();
    // children are collected lower left, upper left, lower right, upper right
    assert_eq!(collected, vec![(10.0, 10.0), (90.0, 90.0)]);
}

#[test]
fn empty_tree_has_no_leaf() {
    let quad_tree: QuadTree<(f64, f64)> = QuadTree::new(Some(4));
    assert!(matches!(
        quad_tree.find_closest_object_to_point(&(1.0, 1.0), &quadrant_of),
        LeafFirst::NoLeaf
    ));
    assert_eq!(quad_tree.collect_objects().len(), 0);
}

#[test]
fn descending_to_an_empty_leaf() {
    let mut quad_tree = QuadTree::new(Some(1));
    quad_tree.insert((90.0, 90.0), &quadrant_of);
    quad_tree.insert((10.0, 10.0), &quadrant_of);
    // the lower right child is an empty leaf
    assert!(matches!(
        quad_tree.find_closest_object_to_point(&(90.0, 10.0), &quadrant_of),
        LeafFirst::EmptyLeaf
    ));
}

#[test]
fn every_inserted_point_is_found_again() {
    // inserted one by one, into a tree that splits its full leaves
    let mut quad_tree = QuadTree::new(Some(100));
    let points = random_points(300, 11);
    for p in points.iter() {
        quad_tree.insert(*p, &quadrant_of);
    }
    for p in points.iter() {
        match quad_tree.find_closest_object_to_point(p, &quadrant_of) {
            LeafFirst::First(found) => assert_eq!(found, p),
            _ => panic!("point lost"),
        }
    }
}

#[test]
fn an_inserted_point_goes_to_the_end_of_its_leaf() {
    // a tree that may not split keeps everything in one leaf, in order
    let mut quad_tree = QuadTree::new(Some(0));
    quad_tree.insert((10.0, 10.0), &quadrant_of);
    quad_tree.insert((90.0, 90.0), &quadrant_of);
    quad_tree.insert((50.0, 20.0), &quadrant_of);
    let collected: Vec<(f64, f64)> = quad_tree.collect_objects().into_iter().copied().collect();
    assert_eq!(collected, vec![(10.0, 10.0), (90.0, 90.0), (50.0, 20.0)]);
    match quad_tree.find_closest_object_to_point(&(50.0, 20.0), &quadrant_of) {
        LeafFirst::First(found) => assert_eq!(*found, (10.0, 10.0)),
        _ => panic!("the leaf is not empty"),
    }
}
