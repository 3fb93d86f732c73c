//! One input for each fault the scene reader can name.

use pathtracer::report::parse_time;
use pathtracer::scene::Scene;

fn with_camera(rest: &str) -> String {
    format!(
        "{{\"camera\":{{\"pos\":[0,0,0],\"front\":[0,0,-1],\"up\":[0,1,0],\"fov\":60}},{}}}",
        rest
    )
}

#[test]
fn camera_not_an_object() {
    let text = "{\"camera\":[],\"materials\":{},\"surfaces\":[]}";
    assert_eq!(
        Scene::parse(text).unwrap_err(),
        "\"camera\" entry in Scene wasn't an object"
    );
}

#[test]
fn camera_missing_fields() {
    let missing_pos = "{\"camera\":{\"front\":[0,0,-1],\"up\":[0,1,0],\"fov\":60},\"materials\":{},\"surfaces\":[]}";
    let missing_front = "{\"camera\":{\"pos\":[0,0,0],\"up\":[0,1,0],\"fov\":60},\"materials\":{},\"surfaces\":[]}";
    let missing_up = "{\"camera\":{\"pos\":[0,0,0],\"front\":[0,0,-1],\"fov\":60},\"materials\":{},\"surfaces\":[]}";
    let missing_fov = "{\"camera\":{\"pos\":[0,0,0],\"front\":[0,0,-1],\"up\":[0,1,0]},\"materials\":{},\"surfaces\":[]}";
    assert_eq!(
        Scene::parse(missing_pos).unwrap_err(),
        "\"camera\" didn't contain \"pos\" array"
    );
    assert_eq!(
        Scene::parse(missing_front).unwrap_err(),
        "\"camera\" didn't contain \"front\" array"
    );
    assert_eq!(
        Scene::parse(missing_up).unwrap_err(),
        "\"camera\" didn't contain \"up\" array"
    );
    assert_eq!(
        Scene::parse(missing_fov).unwrap_err(),
        "\"camera\" didn't contain \"fov\" number"
    );
}

#[test]
fn camera_vector_not_an_array() {
    let text = "{\"camera\":{\"pos\":7,\"front\":[0,0,-1],\"up\":[0,1,0],\"fov\":60},\"materials\":{},\"surfaces\":[]}";
    assert_eq!(
        Scene::parse(text).unwrap_err(),
        "\"pos\" in \"camera\" wasn't an array"
    );
}

#[test]
fn camera_vector_holds_non_numbers() {
    let first = "{\"camera\":{\"pos\":[\"a\",0,0],\"front\":[0,0,-1],\"up\":[0,1,0],\"fov\":60},\"materials\":{},\"surfaces\":[]}";
    let second = "{\"camera\":{\"pos\":[0,true,0],\"front\":[0,0,-1],\"up\":[0,1,0],\"fov\":60},\"materials\":{},\"surfaces\":[]}";
    let third = "{\"camera\":{\"pos\":[0,0,null],\"front\":[0,0,-1],\"up\":[0,1,0],\"fov\":60},\"materials\":{},\"surfaces\":[]}";
    assert_eq!(
        Scene::parse(first).unwrap_err(),
        "first value in \"pos\" wasn't a number"
    );
    assert_eq!(
        Scene::parse(second).unwrap_err(),
        "second value in \"pos\" wasn't a number"
    );
    assert_eq!(
        Scene::parse(third).unwrap_err(),
        "third value in \"pos\" wasn't a number"
    );
}

#[test]
fn materials_not_an_object() {
    let text = with_camera("\"materials\":[],\"surfaces\":[]");
    assert_eq!(
        Scene::parse(&text).unwrap_err(),
        "\"materials\" entry in Scene wasn't an object"
    );
}

#[test]
fn material_not_an_object() {
    let text = with_camera("\"materials\":{\"m\":3},\"surfaces\":[]");
    assert_eq!(
        Scene::parse(&text).unwrap_err(),
        "Material \"m\" wasn't an object"
    );
}

#[test]
fn surfaces_not_an_array() {
    let text = with_camera("\"materials\":{},\"surfaces\":{}");
    assert_eq!(
        Scene::parse(&text).unwrap_err(),
        "\"surfaces\" entry in Scene wasn't an array"
    );
}

#[test]
fn surface_not_an_object() {
    let text = with_camera("\"materials\":{},\"surfaces\":[3]");
    assert_eq!(Scene::parse(&text).unwrap_err(), "A surface wasn't an object");
}

#[test]
fn triangle_shape_faults() {
    let not_array = with_camera("\"materials\":{\"m\":{}},\"surfaces\":[{\"mat\":\"m\",\"tri\":3}]");
    let wrong_len =
        with_camera("\"materials\":{\"m\":{}},\"surfaces\":[{\"mat\":\"m\",\"tri\":[[0,0,0],[1,0,0]]}]");
    let bad_point = with_camera(
        "\"materials\":{\"m\":{}},\"surfaces\":[{\"mat\":\"m\",\"tri\":[[0,0],[1,0,0],[0,1,0]]}]",
    );
    assert_eq!(
        Scene::parse(&not_array).unwrap_err(),
        "A triangle was not an array of points"
    );
    assert_eq!(
        Scene::parse(&wrong_len).unwrap_err(),
        "A triangle list did not have length 3"
    );
    assert_eq!(
        Scene::parse(&bad_point).unwrap_err(),
        "\"0\" in \"tri\" didn't have a length of 3"
    );
}

#[test]
fn quad_shape_faults() {
    let not_array =
        with_camera("\"materials\":{\"m\":{}},\"surfaces\":[{\"mat\":\"m\",\"quad\":false}]");
    let wrong_len = with_camera(
        "\"materials\":{\"m\":{}},\"surfaces\":[{\"mat\":\"m\",\"quad\":[[0,0,0],[1,0,0],[1,1,0]]}]",
    );
    assert_eq!(
        Scene::parse(&not_array).unwrap_err(),
        "A quad was not an array of points"
    );
    assert_eq!(
        Scene::parse(&wrong_len).unwrap_err(),
        "A quad list did not have length 4"
    );
}

#[test]
fn time_limit_out_of_range() {
    // 5124095576030432 hours overflow a 64-bit second count.
    assert_eq!(
        parse_time("5124095576030432:0:0").unwrap_err(),
        "Time limit out of range"
    );
    assert_eq!(
        parse_time("400000000000000000:0").unwrap_err(),
        "Time limit out of range"
    );
}
