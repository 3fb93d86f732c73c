use pathtracer::json::{parse_text, Json};
use pathtracer::scene::Scene;

const MINIMAL: &str =
    "{\"camera\":{\"pos\":[0,0,0],\"front\":[0,0,-1],\"up\":[0,1,0],\"fov\":60},\"materials\":{},\"surfaces\":[]}";

fn tri_scene(mat: &str) -> String {
    format!(
        "{{\"camera\":{{\"pos\":[0,0,0],\"front\":[0,0,-1],\"up\":[0,1,0],\"fov\":60}},\
         \"materials\":{{\"red\":{{\"colour\":[1,0,0]}}}},\
         \"surfaces\":[{{\"mat\":{},\"tri\":[[0,0,0],[1,0,0],[0,1,0]]}}]}}",
        mat
    )
}

#[test]
fn parse_minimal_scene() {
    let scene = Scene::parse(MINIMAL).expect("minimal scene should parse");
    assert_eq!(scene.triangles.len(), 0);
    assert_eq!(scene.materials.len(), 0);
    assert_eq!(scene.camera.pos.x.text, "0");
    assert_eq!(scene.camera.front.z.text, "-1");
    assert_eq!(scene.camera.up.y.text, "1");
    assert_eq!(scene.camera.fov.text, "60");
}

#[test]
fn parse_is_deterministic() {
    let text = tri_scene("\"red\"");
    let first = Scene::parse(&text);
    let second = Scene::parse(&text);
    assert_eq!(first, second);
    let bad = "{\"camera\":{}}";
    assert_eq!(Scene::parse(bad), Scene::parse(bad));
}

#[test]
fn parse_not_an_object() {
    assert_eq!(Scene::parse("[]").unwrap_err(), "Scene wasn't a JSON object");
}

#[test]
fn parse_broken_text() {
    assert_eq!(Scene::parse("{").unwrap_err(), "Error parsing scene JSON");
    assert_eq!(Scene::parse("").unwrap_err(), "Error parsing scene JSON");
    assert_eq!(
        Scene::parse("{\"camera\":{}} x").unwrap_err(),
        "Error parsing scene JSON"
    );
}

#[test]
fn parse_missing_camera() {
    let text = "{\"materials\":{},\"surfaces\":[]}";
    assert_eq!(
        Scene::parse(text).unwrap_err(),
        "Scene didn't contain \"camera\" object"
    );
}

#[test]
fn parse_missing_materials() {
    let text = "{\"camera\":{\"pos\":[0,0,0],\"front\":[0,0,-1],\"up\":[0,1,0],\"fov\":60},\"surfaces\":[]}";
    assert_eq!(
        Scene::parse(text).unwrap_err(),
        "Scene didn't contain \"materials\" object"
    );
}

#[test]
fn parse_missing_surfaces() {
    let text = "{\"camera\":{\"pos\":[0,0,0],\"front\":[0,0,-1],\"up\":[0,1,0],\"fov\":60},\"materials\":{}}";
    assert_eq!(
        Scene::parse(text).unwrap_err(),
        "Scene didn't contain \"surfaces\" array"
    );
}

#[test]
fn parse_wrong_vector_length() {
    let text = "{\"camera\":{\"pos\":[0,0],\"front\":[0,0,-1],\"up\":[0,1,0],\"fov\":60},\"materials\":{},\"surfaces\":[]}";
    assert_eq!(
        Scene::parse(text).unwrap_err(),
        "\"pos\" in \"camera\" didn't have a length of 3"
    );
}

#[test]
fn parse_fov_not_a_number() {
    let text = "{\"camera\":{\"pos\":[0,0,0],\"front\":[0,0,-1],\"up\":[0,1,0],\"fov\":\"wide\"},\"materials\":{},\"surfaces\":[]}";
    assert_eq!(
        Scene::parse(text).unwrap_err(),
        "\"fov\" entry in \"camera\" wasn't a number"
    );
}

#[test]
fn parse_unknown_material() {
    let text = "{\"camera\":{\"pos\":[0,0,0],\"front\":[0,0,-1],\"up\":[0,1,0],\"fov\":60},\
                \"materials\":{},\
                \"surfaces\":[{\"mat\":\"red\",\"tri\":[[0,0,0],[1,0,0],[0,1,0]]}]}";
    assert_eq!(Scene::parse(text).unwrap_err(), "Unknown material \"red\"");
}

#[test]
fn parse_duplicate_material() {
    let text = "{\"camera\":{\"pos\":[0,0,0],\"front\":[0,0,-1],\"up\":[0,1,0],\"fov\":60},\
                \"materials\":{\"a\":{},\"a\":{}},\
                \"surfaces\":[]}";
    assert_eq!(Scene::parse(text).unwrap_err(), "Duplicate material \"a\"");
}

#[test]
fn parse_both_tri_and_quad() {
    let tri_first = "{\"camera\":{\"pos\":[0,0,0],\"front\":[0,0,-1],\"up\":[0,1,0],\"fov\":60},\
                     \"materials\":{\"m\":{}},\
                     \"surfaces\":[{\"mat\":\"m\",\"tri\":[[0,0,0],[1,0,0],[0,1,0]],\"quad\":[[0,0,0],[1,0,0],[1,1,0],[0,1,0]]}]}";
    let quad_first = "{\"camera\":{\"pos\":[0,0,0],\"front\":[0,0,-1],\"up\":[0,1,0],\"fov\":60},\
                      \"materials\":{\"m\":{}},\
                      \"surfaces\":[{\"mat\":\"m\",\"quad\":[[0,0,0],[1,0,0],[1,1,0],[0,1,0]],\"tri\":[[0,0,0],[1,0,0],[0,1,0]]}]}";
    assert_eq!(
        Scene::parse(tri_first).unwrap_err(),
        "A surface cannot be a triangle and a quad"
    );
    assert_eq!(
        Scene::parse(quad_first).unwrap_err(),
        "A surface cannot be a triangle and a quad"
    );
}

#[test]
fn parse_neither_tri_nor_quad() {
    let text = "{\"camera\":{\"pos\":[0,0,0],\"front\":[0,0,-1],\"up\":[0,1,0],\"fov\":60},\
                \"materials\":{\"m\":{}},\
                \"surfaces\":[{\"mat\":\"m\"}]}";
    assert_eq!(
        Scene::parse(text).unwrap_err(),
        "A surface wasn't a triangle or quad"
    );
}

#[test]
fn parse_surface_missing_mat() {
    let text = "{\"camera\":{\"pos\":[0,0,0],\"front\":[0,0,-1],\"up\":[0,1,0],\"fov\":60},\
                \"materials\":{},\
                \"surfaces\":[{\"tri\":[[0,0,0],[1,0,0],[0,1,0]]}]}";
    assert_eq!(
        Scene::parse(text).unwrap_err(),
        "Surfaces didn't contain a \"mat\" index"
    );
}

#[test]
fn parse_mat_neither_name_nor_index() {
    let text = "{\"camera\":{\"pos\":[0,0,0],\"front\":[0,0,-1],\"up\":[0,1,0],\"fov\":60},\
                \"materials\":{},\
                \"surfaces\":[{\"mat\":1.5,\"tri\":[[0,0,0],[1,0,0],[0,1,0]]}]}";
    assert_eq!(
        Scene::parse(text).unwrap_err(),
        "\"mat\" entry in a surface wasn't a string or an index"
    );
}

#[test]
fn parse_triangle_by_name_and_by_index() {
    let by_name = Scene::parse(&tri_scene("\"red\"")).expect("by name");
    let by_index = Scene::parse(&tri_scene("0")).expect("by index");
    assert_eq!(by_name.triangles.len(), 1);
    assert_eq!(by_name.triangles[0].mat, 0);
    assert_eq!(by_index.triangles[0].mat, 0);
    assert_eq!(by_name.triangles[0].b.x.text, "1");
    assert_eq!(by_name.materials.len(), 1);
    assert_eq!(by_name.materials[0].colour.x.text, "1");
}

#[test]
fn parse_quad_appends_two_triangles() {
    let text = "{\"camera\":{\"pos\":[0,0,0],\"front\":[0,0,-1],\"up\":[0,1,0],\"fov\":60},\
                \"materials\":{\"m\":{}},\
                \"surfaces\":[{\"mat\":\"m\",\"quad\":[[0,0,0],[1,0,0],[1,1,0],[0,1,0]]}]}";
    let scene = Scene::parse(text).expect("quad scene");
    assert_eq!(scene.triangles.len(), 2);
    // First triangle: corners a, b, c of the quad.
    assert_eq!(scene.triangles[0].a.x.text, "0");
    assert_eq!(scene.triangles[0].b.x.text, "1");
    assert_eq!(scene.triangles[0].b.y.text, "0");
    assert_eq!(scene.triangles[0].c.x.text, "1");
    assert_eq!(scene.triangles[0].c.y.text, "1");
    // Second triangle: corners a, d, c.
    assert_eq!(scene.triangles[1].a.x.text, "0");
    assert_eq!(scene.triangles[1].b.x.text, "0");
    assert_eq!(scene.triangles[1].b.y.text, "1");
    assert_eq!(scene.triangles[1].c.x.text, "1");
    assert_eq!(scene.triangles[1].c.y.text, "1");
}

#[test]
fn parse_material_defaults() {
    let text = "{\"camera\":{\"pos\":[0,0,0],\"front\":[0,0,-1],\"up\":[0,1,0],\"fov\":60},\
                \"materials\":{\"plain\":{}},\
                \"surfaces\":[]}";
    let scene = Scene::parse(text).expect("defaults");
    let m = &scene.materials[0];
    assert_eq!(m.colour.x.text, "0");
    assert_eq!(m.colour.y.text, "0");
    assert_eq!(m.colour.z.text, "0");
    assert_eq!(m.glow.x.text, "0");
    assert_eq!(m.gloss.text, "0");
    assert_eq!(m.reflect_c.x.text, "1");
    assert_eq!(m.reflect_c.y.text, "1");
    assert_eq!(m.reflect_c.z.text, "1");
}

#[test]
fn parse_gloss_not_a_number() {
    let text = "{\"camera\":{\"pos\":[0,0,0],\"front\":[0,0,-1],\"up\":[0,1,0],\"fov\":60},\
                \"materials\":{\"m\":{\"gloss\":\"shiny\"}},\
                \"surfaces\":[]}";
    assert_eq!(
        Scene::parse(text).unwrap_err(),
        "\"gloss\" entry in \"m\" wasn't a number"
    );
}

#[test]
fn parse_number_tokens_kept() {
    let text = "{\"camera\":{\"pos\":[-1.5e3,0.25,3],\"front\":[0,0,-1],\"up\":[0,1,0],\"fov\":60},\
                \"materials\":{},\"surfaces\":[]}";
    let scene = Scene::parse(text).expect("tokens");
    assert_eq!(scene.camera.pos.x.text, "-1.5e3");
    assert_eq!(scene.camera.pos.y.text, "0.25");
    assert_eq!(scene.camera.pos.z.text, "3");
}

#[test]
fn parse_escaped_material_name() {
    // \u0041 is the letter A; the surface refers to it undisguised.
    let text = "{\"camera\":{\"pos\":[0,0,0],\"front\":[0,0,-1],\"up\":[0,1,0],\"fov\":60},\
                \"materials\":{\"\\u0041\":{}},\
                \"surfaces\":[{\"mat\":\"A\",\"tri\":[[0,0,0],[1,0,0],[0,1,0]]}]}";
    let scene = Scene::parse(text).expect("escaped name");
    assert_eq!(scene.triangles[0].mat, 0);
}

#[test]
fn document_values_parse() {
    let doc = parse_text(" [1, true, null, \"a\\nb\", {\"k\": []}] ").expect("document");
    match doc {
        Json::Arr(items) => {
            assert_eq!(items.len(), 5);
            assert!(matches!(&items[0], Json::Num(t) if t == "1"));
            assert!(matches!(items[1], Json::Bool(true)));
            assert!(matches!(items[2], Json::Null));
            assert!(matches!(&items[3], Json::Str(s) if s == "a\nb"));
            assert!(matches!(&items[4], Json::Obj(m) if m.len() == 1 && m[0].0 == "k"));
        }
        other => panic!("not an array: {:?}", other),
    }
}

#[test]
fn document_refuses_malformed() {
    assert!(parse_text("[1,]").is_none());
    assert!(parse_text("{\"a\" 1}").is_none());
    assert!(parse_text("01").is_none());
    assert!(parse_text("\"unclosed").is_none());
    assert!(parse_text("nulll").is_none());
}
