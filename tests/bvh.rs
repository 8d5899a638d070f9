use raytracer::bvh::{scene_boxes, to_lattice, BVHNode, LatticePoint, AABB, MAX_OBJECTS};
use raytracer::number::Decimal;
use raytracer::scene::Scene;
use raytracer::scene_file::parse_file;

fn p(x: i128, y: i128, z: i128) -> LatticePoint {
    LatticePoint { x, y, z }
}

#[test]
fn overlaps_with_partially_outside_box() {
    let a = AABB::new(p(-1, -1, -1), p(1, 1, 1));
    let b = AABB::new(p(-2, -2, -2), p(0, 0, 0));
    assert_eq!(true, a.overlaps(&b));
    assert_eq!(true, b.overlaps(&a));
}

#[test]
fn overlaps_with_entirely_inside_box() {
    // Coordinates in tenths: the boxes [-1, 1] and [0, 0.5] on each axis.
    let a = AABB::new(p(-10, -10, -10), p(10, 10, 10));
    let b = AABB::new(p(0, 0, 0), p(5, 5, 5));
    assert_eq!(true, a.overlaps(&b));
    assert_eq!(true, b.overlaps(&a));
}

#[test]
fn does_not_overlap_with_entirely_outside_box() {
    let a = AABB::new(p(-1, -1, -1), p(1, 1, 1));
    let b = AABB::new(p(2, 2, 2), p(3, 3, 3));
    assert_eq!(false, a.overlaps(&b));
    assert_eq!(false, b.overlaps(&a));
}

#[test]
fn touching_boxes_meet_but_do_not_overlap() {
    let a = AABB::new(p(0, 0, 0), p(1, 1, 1));
    let b = AABB::new(p(1, 0, 0), p(2, 1, 1));
    assert!(!a.overlaps(&b) && !b.overlaps(&a));
    assert!(a.meets(&b) && b.meets(&a));
    let flat = AABB::new(p(0, 0, 5), p(1, 1, 5));
    assert!(flat.meets(&AABB::new(p(0, 0, 0), p(1, 1, 5))));
}

#[test]
fn subdivide_gives_eight_octants() {
    let b = AABB::new(p(0, -4, 10), p(8, 4, 13));
    let o = b.subdivide();
    assert_eq!(o.len(), 8);
    assert_eq!(o[0], AABB::new(p(0, -4, 10), p(4, 0, 11)));
    assert_eq!(o[1], AABB::new(p(0, -4, 11), p(4, 0, 13)));
    assert_eq!(o[2], AABB::new(p(0, 0, 10), p(4, 4, 11)));
    assert_eq!(o[7], AABB::new(p(4, 0, 11), p(8, 4, 13)));
    for i in 0..8 {
        for j in 0..8 {
            if i != j {
                assert!(!o[i].overlaps(&o[j]));
            }
        }
    }
}

#[test]
fn decimals_on_the_lattice() {
    let d = Decimal { negative: true, magnitude: 15, scale: 1 };
    assert_eq!(to_lattice(&d, 3), Some(-1500));
    assert_eq!(to_lattice(&d, 0), None);
    assert_eq!(to_lattice(&Decimal { negative: false, magnitude: 0, scale: 0 }, 200), Some(0));
    assert_eq!(to_lattice(&Decimal { negative: false, magnitude: 1, scale: 0 }, 40), None);
}

#[test]
fn object_boxes_on_the_scene_lattice() {
    let text = "png 1 1 a.png\nsphere 1 2 3 0.5\nplane 0 1 0 0\nxyz 0 0 0\nxyz 2 -1 0.25\nxyz 1 3 -1\ntrif 1 2 3\n";
    let scene = Scene::from_file(&parse_file(text).unwrap()).unwrap();
    let boxes = scene_boxes(&scene.objects).unwrap();
    assert_eq!(boxes.scale, 2);
    assert_eq!(boxes.boxes[0], Some(AABB::new(p(50, 150, 250), p(150, 250, 350))));
    assert_eq!(boxes.boxes[1], None);
    assert_eq!(boxes.boxes[2], Some(AABB::new(p(0, -100, -100), p(200, 300, 25))));
}

#[test]
fn small_scenes_are_one_leaf() {
    let text = "png 1 1 a.png\nsphere 0 0 0 1\nsphere 4 0 0 1\nplane 0 1 0 0\n";
    let scene = Scene::from_file(&parse_file(text).unwrap()).unwrap();
    let index = BVHNode::from_objects(&scene.objects).unwrap();
    let root = index.root.unwrap();
    assert!(root.is_leaf());
    assert_eq!(root.objects, vec![0, 1]);
    assert_eq!(root.aabb, AABB::new(p(-1, -1, -1), p(5, 1, 1)));
}

#[test]
fn large_scenes_split_into_octants() {
    let mut text = String::from("png 1 1 a.png\n");
    for i in 0..(MAX_OBJECTS + 5) {
        let x = if i % 2 == 0 { -10 } else { 10 };
        text.push_str(&format!("sphere {} 0 {} 1\n", x, i));
    }
    let scene = Scene::from_file(&parse_file(&text).unwrap()).unwrap();
    let index = BVHNode::from_objects(&scene.objects).unwrap();
    let root = index.root.unwrap();
    assert!(!root.is_leaf());
    let children = root.children.unwrap();
    assert!(!children.is_empty());
    let mut seen = vec![false; scene.objects.len()];
    for c in &children {
        for &o in &c.objects {
            seen[o] = true;
        }
    }
    assert!(seen.iter().all(|&s| s));
}

#[test]
fn scenes_without_boxes_have_no_hierarchy() {
    let scene = Scene::from_file(&parse_file("png 1 1 a.png\nplane 0 0 1 0\n").unwrap()).unwrap();
    let index = BVHNode::from_objects(&scene.objects).unwrap();
    assert!(index.root.is_none());
    assert_eq!(index.boxes, vec![None]);
}
