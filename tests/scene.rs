use raytracer::number::Decimal;
use raytracer::scene::{
    get_vertex, CameraSettings, LightPrimitive, Material, ObjPrimative, Scene, SceneError, Triple,
};
use raytracer::scene_file::parse_file;

fn num(negative: bool, magnitude: u64, scale: u32) -> Decimal {
    Decimal { negative, magnitude, scale }
}

fn whole(v: i64) -> Decimal {
    num(v < 0, v.unsigned_abs(), 0)
}

fn triple(x: i64, y: i64, z: i64) -> Triple {
    Triple { x: whole(x), y: whole(y), z: whole(z) }
}

#[test]
fn defaults_before_any_state_entry() {
    let m = Material::default_material();
    assert_eq!(m.color, triple(1, 1, 1));
    assert_eq!(m.albedo, num(false, 104, 2));
    assert!(m.shininess.is_zero());
    let c = CameraSettings::default_camera();
    assert_eq!(c.position, triple(0, 0, 0));
    assert_eq!(c.forward, triple(0, 0, -1));
    assert_eq!(c.right, triple(1, 0, 0));
    assert_eq!(c.up, triple(0, 1, 0));
}

#[test]
fn objects_take_the_current_material() {
    let text = "png 10 10 a.png\nsphere 0 0 -2 1\ncolor 1 0 0\nshininess 0.5\nsphere 1 0 -2 1\nsun 0 0 1\ncolor 0 1 0\nbulb 0 5 0\nplane 0 1 0 1\n";
    let file = parse_file(text).unwrap();
    let scene = Scene::from_file(&file).unwrap();
    assert_eq!(scene.objects.len(), 3);
    assert_eq!(scene.objects[0].material, Material::default_material());
    assert_eq!(scene.objects[1].material.color, triple(1, 0, 0));
    assert_eq!(scene.objects[1].material.shininess, num(false, 5, 1));
    assert_eq!(scene.objects[2].material.color, triple(0, 1, 0));
    assert_eq!(scene.objects[1].primitive, ObjPrimative::Sphere { xyz: triple(1, 0, -2), r: whole(1) });
    assert_eq!(scene.light_sources.len(), 2);
    assert_eq!(scene.light_sources[0].source, LightPrimitive::Directional(triple(0, 0, 1)));
    assert_eq!(scene.light_sources[0].color, triple(1, 0, 0));
    assert_eq!(scene.light_sources[1].source, LightPrimitive::Point(triple(0, 5, 0)));
    assert_eq!(scene.light_sources[1].color, triple(0, 1, 0));
    assert!(scene.get_object(2).is_some());
    assert!(scene.get_object(3).is_none());
}

#[test]
fn triangles_resolve_vertex_indices() {
    let text = "png 10 10 a.png\nxyz 0 0 0\nxyz 1 0 0\nxyz 0 1 0\ntrif 1 2 3\ntrif -1 -2 -3\n";
    let scene = Scene::from_file(&parse_file(text).unwrap()).unwrap();
    assert_eq!(
        scene.objects[0].primitive,
        ObjPrimative::Triangle { p0: triple(0, 0, 0), p1: triple(1, 0, 0), p2: triple(0, 1, 0) }
    );
    assert_eq!(
        scene.objects[1].primitive,
        ObjPrimative::Triangle { p0: triple(0, 1, 0), p1: triple(1, 0, 0), p2: triple(0, 0, 0) }
    );
}

#[test]
fn bad_vertex_index_and_forward_are_refused() {
    let bad = parse_file("png 1 1 a.png\nxyz 0 0 0\ntrif 1 1 2\n").unwrap();
    assert!(matches!(Scene::from_file(&bad), Err(SceneError::BadVertexIndex)));
    let zero = parse_file("png 1 1 a.png\nxyz 0 0 0\ntrif 1 0 1\n").unwrap();
    assert!(matches!(Scene::from_file(&zero), Err(SceneError::BadVertexIndex)));
    let fwd = parse_file("png 1 1 a.png\nforward 0 0 1\n").unwrap();
    assert!(matches!(Scene::from_file(&fwd), Err(SceneError::ForwardUnsupported)));
}

#[test]
fn eye_and_up_update_the_camera() {
    let text = "png 1 1 a.png\neye 1 2 3\nup 0.5 1 0\n";
    let scene = Scene::from_file(&parse_file(text).unwrap()).unwrap();
    let c = scene.camera_settings;
    assert_eq!(c.position, triple(1, 2, 3));
    assert_eq!(c.up, Triple { x: num(false, 5, 1), y: whole(1), z: whole(0) });
    assert_eq!(c.right, Triple { x: whole(1), y: num(true, 5, 1), z: whole(0) });
    assert_eq!(c.forward, triple(0, 0, -1));
}

#[test]
fn vertex_indices_count_from_either_end() {
    let v = vec![10, 20, 30];
    assert_eq!(get_vertex(1, &v), Some(10));
    assert_eq!(get_vertex(3, &v), Some(30));
    assert_eq!(get_vertex(-1, &v), Some(30));
    assert_eq!(get_vertex(-3, &v), Some(10));
    assert_eq!(get_vertex(0, &v), None);
    assert_eq!(get_vertex(4, &v), None);
    assert_eq!(get_vertex(-4, &v), None);
    assert_eq!(get_vertex(i32::MIN, &v), None);
}

#[test]
fn building_twice_gives_the_same_scene() {
    let text = "png 8 6 a.png\ncolor 0.5 0.25 1\nsphere 0 0 -3 1\nshininess 1\nplane 0 1 0 1\nbulb 1 2 3\nup 0 1 0.5\n";
    let a = Scene::from_file(&parse_file(text).unwrap()).unwrap();
    let b = Scene::from_file(&parse_file(text).unwrap()).unwrap();
    assert_eq!(a.objects, b.objects);
    assert_eq!(a.light_sources, b.light_sources);
    assert_eq!(a.camera_settings, b.camera_settings);
}
