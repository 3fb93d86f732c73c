use pathtracer::gpu::Info;
use pathtracer::scene::{Material, Scalar, Scene, Vec3};

fn empty_scene() -> Scene {
    Scene::new(
        Vec3::new("0", "0", "0"),
        Vec3::new("0", "0", "-1"),
        Vec3::new("0", "1", "0"),
        Scalar::new("60"),
    )
}

fn plain_material() -> Material {
    Material {
        colour: Vec3::new("0", "0", "0"),
        glow: Vec3::new("0", "0", "0"),
        gloss: Scalar::new("0"),
        reflect_c: Vec3::new("1", "1", "1"),
    }
}

#[test]
fn new_scene_is_empty() {
    let scene = empty_scene();
    assert_eq!(scene.triangles.len(), 0);
    assert_eq!(scene.materials.len(), 0);
    assert_eq!(scene.camera.fov.text, "60");
    assert_eq!(scene.camera.front.z.text, "-1");
}

#[test]
fn quad_appends_two_triangles() {
    let mut scene = empty_scene();
    let a = Vec3::new("0", "0", "0");
    let b = Vec3::new("1", "0", "0");
    let c = Vec3::new("1", "1", "0");
    let d = Vec3::new("0", "1", "0");
    scene.add_quad(a.clone(), b.clone(), c.clone(), d.clone(), 7);
    assert_eq!(scene.triangles.len(), 2);
    assert_eq!(scene.triangles[0].a, a);
    assert_eq!(scene.triangles[0].b, b);
    assert_eq!(scene.triangles[0].c, c);
    assert_eq!(scene.triangles[0].mat, 7);
    assert_eq!(scene.triangles[1].a, a);
    assert_eq!(scene.triangles[1].b, d);
    assert_eq!(scene.triangles[1].c, c);
    assert_eq!(scene.triangles[1].mat, 7);
}

#[test]
fn triangles_append_in_order() {
    let mut scene = empty_scene();
    scene.add_triangle(
        Vec3::new("0", "0", "0"),
        Vec3::new("1", "0", "0"),
        Vec3::new("0", "1", "0"),
        0,
    );
    scene.add_triangle(
        Vec3::new("2", "0", "0"),
        Vec3::new("3", "0", "0"),
        Vec3::new("2", "1", "0"),
        1,
    );
    assert_eq!(scene.triangles.len(), 2);
    assert_eq!(scene.triangles[0].a.x.text, "0");
    assert_eq!(scene.triangles[1].a.x.text, "2");
}

#[test]
fn material_indexes_count_up() {
    let mut scene = empty_scene();
    assert_eq!(scene.add_material(plain_material()), 0);
    assert_eq!(scene.add_material(plain_material()), 1);
    assert_eq!(scene.add_material(plain_material()), 2);
    assert_eq!(scene.materials.len(), 3);
}

#[test]
fn material_reference_check() {
    let mut scene = empty_scene();
    scene.add_triangle(
        Vec3::new("0", "0", "0"),
        Vec3::new("1", "0", "0"),
        Vec3::new("0", "1", "0"),
        1,
    );
    // The index points past the (empty) material list.
    assert!(!scene.materials_in_range());
    scene.add_material(plain_material());
    assert!(!scene.materials_in_range());
    scene.add_material(plain_material());
    assert!(scene.materials_in_range());
}

#[test]
fn info_block_mirrors_scene() {
    let mut scene = empty_scene();
    scene.add_material(plain_material());
    scene.add_triangle(
        Vec3::new("0", "0", "0"),
        Vec3::new("1", "0", "0"),
        Vec3::new("0", "1", "0"),
        0,
    );
    let info = Info::new(&scene, 640, 480, 5);
    assert_eq!(info.triangles, 1);
    assert_eq!(info.materials, 1);
    assert_eq!(info.width, 640);
    assert_eq!(info.height, 480);
    assert_eq!(info.samples, 1);
    assert_eq!(info.depth, 5);
}
