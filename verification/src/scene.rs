//! The scene model: camera, triangle list and material list, built either
//! programmatically or by reading the structured scene text.
//!
//! Numeric fields hold their literal number token; the rendering backend
//! turns them into machine reals when the scene is uploaded. The camera's
//! field of view is kept in degrees, as the scene text gives it; the backend
//! converts it to radians when the camera block is built.

use vstd::prelude::*;
use vstd::string::StrSliceExecFns;
use vstd::string::StringExecFns;
use crate::json::{JVal, Json, json_view, json_views, json_members, spec_get, get_member};
use crate::json::{spec_doc, lemma_json_views, lemma_json_members};
use crate::textutil::{all_digits, digits_val};

verus! {

broadcast use vstd::std_specs::vec::axiom_vec_decreases_to_view, vstd::seq::axiom_seq_index_decreases;

/// One numeric value, as its literal token (for example `-1.5e3`).
#[derive(Debug, Clone, PartialEq)]
pub struct Scalar {
    pub text: String,
}

impl View for Scalar {
    type V = Seq<char>;

    open spec fn view(&self) -> Seq<char> {
        self.text@
    }
}

impl Scalar {
    /// Wraps a number token.
    pub fn new(text: &str) -> (r: Scalar)
        ensures
            r@ == text@,
    {
        Scalar { text: text.to_owned() }
    }
}

/// A three-component vector of numeric tokens.
#[derive(Debug, Clone, PartialEq)]
pub struct Vec3 {
    pub x: Scalar,
    pub y: Scalar,
    pub z: Scalar,
}

pub struct Vec3V {
    pub x: Seq<char>,
    pub y: Seq<char>,
    pub z: Seq<char>,
}

impl View for Vec3 {
    type V = Vec3V;

    open spec fn view(&self) -> Vec3V {
        Vec3V { x: self.x@, y: self.y@, z: self.z@ }
    }
}

impl Vec3 {
    pub fn new(x: &str, y: &str, z: &str) -> (r: Vec3)
        ensures
            r@ == (Vec3V { x: x@, y: y@, z: z@ }),
    {
        Vec3 { x: Scalar::new(x), y: Scalar::new(y), z: Scalar::new(z) }
    }

    /// A copy whose tokens read the same.
    pub fn duplicate(&self) -> (r: Vec3)
        ensures
            r@ == self@,
    {
        Vec3 {
            x: Scalar { text: self.x.text.clone() },
            y: Scalar { text: self.y.text.clone() },
            z: Scalar { text: self.z.text.clone() },
        }
    }
}

/// The viewpoint: position, forward and up directions, and the vertical
/// field of view in degrees.
#[derive(Debug, Clone, PartialEq)]
pub struct Camera {
    pub pos: Vec3,
    pub front: Vec3,
    pub up: Vec3,
    /// Vertical field of view, in degrees; the backend converts it to
    /// radians when the camera block is uploaded.
    pub fov: Scalar,
}

pub struct CameraV {
    pub pos: Vec3V,
    pub front: Vec3V,
    pub up: Vec3V,
    pub fov: Seq<char>,
}

impl View for Camera {
    type V = CameraV;

    open spec fn view(&self) -> CameraV {
        CameraV { pos: self.pos@, front: self.front@, up: self.up@, fov: self.fov@ }
    }
}

/// One triangle: three corners and an index into the material list.
#[derive(Debug, Clone, PartialEq)]
pub struct Triangle {
    pub a: Vec3,
    pub b: Vec3,
    pub c: Vec3,
    pub mat: u32,
}

pub struct TriangleV {
    pub a: Vec3V,
    pub b: Vec3V,
    pub c: Vec3V,
    pub mat: u32,
}

impl View for Triangle {
    type V = TriangleV;

    open spec fn view(&self) -> TriangleV {
        TriangleV { a: self.a@, b: self.b@, c: self.c@, mat: self.mat }
    }
}

/// Surface appearance: base colour, emissive glow, glossiness and
/// reflectance tint.
#[derive(Debug, Clone, PartialEq)]
pub struct Material {
    pub colour: Vec3,
    pub glow: Vec3,
    pub gloss: Scalar,
    pub reflect_c: Vec3,
}

pub struct MaterialV {
    pub colour: Vec3V,
    pub glow: Vec3V,
    pub gloss: Seq<char>,
    pub reflect_c: Vec3V,
}

impl View for Material {
    type V = MaterialV;

    open spec fn view(&self) -> MaterialV {
        MaterialV {
            colour: self.colour@,
            glow: self.glow@,
            gloss: self.gloss@,
            reflect_c: self.reflect_c@,
        }
    }
}

pub open spec fn tri_views(l: Seq<Triangle>) -> Seq<TriangleV>
    decreases l,
{
    if l.len() == 0 {
        Seq::empty()
    } else {
        seq![l[0]@] + tri_views(l.drop_first())
    }
}

pub open spec fn mat_views(l: Seq<Material>) -> Seq<MaterialV>
    decreases l,
{
    if l.len() == 0 {
        Seq::empty()
    } else {
        seq![l[0]@] + mat_views(l.drop_first())
    }
}

/// Element-wise reading of `tri_views`.
pub proof fn lemma_tri_views(l: Seq<Triangle>)
    ensures
        tri_views(l).len() == l.len(),
        forall|i: int| 0 <= i < l.len() ==> tri_views(l)[i] == l[i]@,
    decreases l.len(),
{
    if l.len() > 0 {
        lemma_tri_views(l.drop_first());
    }
}

/// Element-wise reading of `mat_views`.
pub proof fn lemma_mat_views(l: Seq<Material>)
    ensures
        mat_views(l).len() == l.len(),
        forall|i: int| 0 <= i < l.len() ==> mat_views(l)[i] == l[i]@,
    decreases l.len(),
{
    if l.len() > 0 {
        lemma_mat_views(l.drop_first());
    }
}

/// Appending one element appends one view.
pub proof fn lemma_tri_views_snoc(l: Seq<Triangle>, x: Triangle)
    ensures
        tri_views(l.push(x)) == tri_views(l) + seq![x@],
    decreases l.len(),
{
    if l.len() == 0 {
        assert(l.push(x)[l.len() as int] == x);
        assert(l.push(x).drop_first() =~= l);
        assert(tri_views(l.push(x)) =~= tri_views(l) + seq![x@]);
    } else {
        assert(l.push(x).drop_first() =~= l.drop_first().push(x));
        lemma_tri_views_snoc(l.drop_first(), x);
        assert(l.push(x)[0] == l[0]);
        assert(tri_views(l.push(x)) == seq![l[0]@] + (tri_views(l.drop_first()) + seq![x@]));
        assert(tri_views(l) == seq![l[0]@] + tri_views(l.drop_first()));
        assert(seq![l[0]@] + (tri_views(l.drop_first()) + seq![x@]) =~= (seq![l[0]@] + tri_views(
            l.drop_first(),
        )) + seq![x@]);
    }
}

/// Appending one element appends one view.
pub proof fn lemma_mat_views_snoc(l: Seq<Material>, x: Material)
    ensures
        mat_views(l.push(x)) == mat_views(l) + seq![x@],
    decreases l.len(),
{
    if l.len() == 0 {
        assert(l.push(x)[l.len() as int] == x);
        assert(l.push(x).drop_first() =~= l);
        assert(mat_views(l.push(x)) =~= mat_views(l) + seq![x@]);
    } else {
        assert(l.push(x).drop_first() =~= l.drop_first().push(x));
        lemma_mat_views_snoc(l.drop_first(), x);
        assert(l.push(x)[0] == l[0]);
        assert(mat_views(l.push(x)) == seq![l[0]@] + (mat_views(l.drop_first()) + seq![x@]));
        assert(mat_views(l) == seq![l[0]@] + mat_views(l.drop_first()));
        assert(seq![l[0]@] + (mat_views(l.drop_first()) + seq![x@]) =~= (seq![l[0]@] + mat_views(
            l.drop_first(),
        )) + seq![x@]);
    }
}

pub struct SceneV {
    pub camera: CameraV,
    pub triangles: Seq<TriangleV>,
    pub materials: Seq<MaterialV>,
}

/// A whole scene: one camera, the triangle list and the material list, in
/// insertion order.
#[derive(Debug, Clone, PartialEq)]
pub struct Scene {
    pub camera: Camera,
    pub triangles: Vec<Triangle>,
    pub materials: Vec<Material>,
}

impl View for Scene {
    type V = SceneV;

    open spec fn view(&self) -> SceneV {
        SceneV {
            camera: self.camera@,
            triangles: tri_views(self.triangles@),
            materials: mat_views(self.materials@),
        }
    }
}

impl Scene {
    /// A scene with the given viewpoint (field of view in degrees) and no
    /// geometry or materials yet.
    pub fn new(pos: Vec3, front: Vec3, up: Vec3, fov: Scalar) -> (r: Scene)
        ensures
            r@.camera == (CameraV { pos: pos@, front: front@, up: up@, fov: fov@ }),
            r@.triangles == Seq::<TriangleV>::empty(),
            r@.materials == Seq::<MaterialV>::empty(),
    {
        Scene {
            camera: Camera { pos, front, up, fov },
            triangles: Vec::new(),
            materials: Vec::new(),
        }
    }

    /// Appends one triangle. The material index is not checked here; it is
    /// held against the material list when the scene is handed to a render.
    pub fn add_triangle(&mut self, a: Vec3, b: Vec3, c: Vec3, mat: u32)
        ensures
            final (self)@.triangles == old(self)@.triangles.push(
                (TriangleV { a: a@, b: b@, c: c@, mat }),
            ),
            final (self)@.camera == old(self)@.camera,
            final (self)@.materials == old(self)@.materials,
    {
        let ghost olds = self.triangles@;
        let tri = Triangle { a, b, c, mat };
        proof {
            lemma_tri_views_snoc(olds, tri);
            assert(tri_views(olds) + seq![tri@] =~= tri_views(olds).push(tri@));
        }
        self.triangles.push(tri);
    }

    /// Appends the two triangles covering the quadrilateral `a b c d`:
    /// first `(a, b, c)`, second `(a, d, c)`, both with the same material.
    pub fn add_quad(&mut self, a: Vec3, b: Vec3, c: Vec3, d: Vec3, mat: u32)
        ensures
            final (self)@.triangles == old(self)@.triangles.push(
                (TriangleV { a: a@, b: b@, c: c@, mat }),
            ).push((TriangleV { a: a@, b: d@, c: c@, mat })),
            final (self)@.camera == old(self)@.camera,
            final (self)@.materials == old(self)@.materials,
    {
        let a2 = a.duplicate();
        let c2 = c.duplicate();
        self.add_triangle(a, b, c, mat);
        self.add_triangle(a2, d, c2, mat);
    }

    /// Reads a scene from its structured text form, exactly as
    /// `spec_parse_scene` describes: either the scene, or a message naming
    /// the first fault found.
    pub fn parse(s: &str) -> (r: Result<Scene, String>)
        ensures
            ({
                let sr = spec_parse_scene(s@);
                match r {
                    Ok(sc) => sr == Ok::<SceneV, Seq<char>>(sc@),
                    Err(e) => sr == Err::<SceneV, Seq<char>>(e@),
                }
            }),
    {
        let top = match crate::json::parse_text(s) {
            Some(t) => t,
            None => {
                return Err(String::from_str("Error parsing scene JSON"));
            },
        };
        scene_of(&top)
    }

    /// Appends a material and yields the index it was given: its position
    /// in the list, counted from zero.
    pub fn add_material(&mut self, mat: Material) -> (r: u32)
        requires
            old(self).materials@.len() < u32::MAX,
        ensures
            final (self)@.materials == old(self)@.materials.push(mat@),
            final (self)@.camera == old(self)@.camera,
            final (self)@.triangles == old(self)@.triangles,
            r == old(self)@.materials.len(),
    {
        let ghost olds = self.materials@;
        proof {
            lemma_mat_views_snoc(olds, mat);
            assert(mat_views(olds) + seq![mat@] =~= mat_views(olds).push(mat@));
            lemma_mat_views(olds);
        }
        let r = self.materials.len() as u32;
        self.materials.push(mat);
        r
    }
}

// ------------------------------------------------------------------
// Reading a scene from its structured text: the mathematical account.
// ------------------------------------------------------------------
/// A number token read as a plain index: digits only, value in range.
pub open spec fn token_as_u32(t: Seq<char>) -> Option<u32> {
    if t.len() > 0 && all_digits(t) && digits_val(t) <= u32::MAX {
        Some(digits_val(t) as u32)
    } else {
        None
    }
}

/// Lookup in the name-to-index list from `i` on.
pub open spec fn spec_map_get_at(m: Seq<(Seq<char>, u32)>, k: Seq<char>, i: int) -> Option<u32>
    decreases m.len() - i,
{
    if i < 0 || i >= m.len() {
        None
    } else if m[i].0 == k {
        Some(m[i].1)
    } else {
        spec_map_get_at(m, k, i + 1)
    }
}

pub open spec fn spec_map_get(m: Seq<(Seq<char>, u32)>, k: Seq<char>) -> Option<u32> {
    spec_map_get_at(m, k, 0)
}

/// A three-component vector read from a document value: an array of exactly
/// three numbers.
pub open spec fn spec_vec3(v: JVal, outer: Seq<char>, name: Seq<char>) -> Result<
    Vec3V,
    Seq<char>,
> {
    match v {
        JVal::Arr(items) => if items.len() != 3 {
            Err("\""@ + name + "\" in \""@ + outer + "\" didn't have a length of 3"@)
        } else {
            match items[0] {
                JVal::Num(x) => match items[1] {
                    JVal::Num(y) => match items[2] {
                        JVal::Num(z) => Ok(Vec3V { x, y, z }),
                        _ => Err("third value in \""@ + name + "\" wasn't a number"@),
                    },
                    _ => Err("second value in \""@ + name + "\" wasn't a number"@),
                },
                _ => Err("first value in \""@ + name + "\" wasn't a number"@),
            }
        },
        _ => Err("\""@ + name + "\" in \""@ + outer + "\" wasn't an array"@),
    }
}

/// The camera read from its document value.
pub open spec fn spec_camera(v: JVal) -> Result<CameraV, Seq<char>> {
    match v {
        JVal::Obj(m) => match spec_get(m, "pos"@) {
            Some(p) => match spec_vec3(p, "camera"@, "pos"@) {
                Ok(pos) => match spec_get(m, "front"@) {
                    Some(f) => match spec_vec3(f, "camera"@, "front"@) {
                        Ok(front) => match spec_get(m, "up"@) {
                            Some(u) => match spec_vec3(u, "camera"@, "up"@) {
                                Ok(up) => match spec_get(m, "fov"@) {
                                    Some(fv) => match fv {
                                        JVal::Num(t) => Ok(CameraV { pos, front, up, fov: t }),
                                        _ => Err("\"fov\" entry in \"camera\" wasn't a number"@),
                                    },
                                    None => Err("\"camera\" didn't contain \"fov\" number"@),
                                },
                                Err(e) => Err(e),
                            },
                            None => Err("\"camera\" didn't contain \"up\" array"@),
                        },
                        Err(e) => Err(e),
                    },
                    None => Err("\"camera\" didn't contain \"front\" array"@),
                },
                Err(e) => Err(e),
            },
            None => Err("\"camera\" didn't contain \"pos\" array"@),
        },
        _ => Err("\"camera\" entry in Scene wasn't an object"@),
    }
}

/// The default for an absent colour-like field.
pub open spec fn zero_vec3v() -> Vec3V {
    Vec3V { x: "0"@, y: "0"@, z: "0"@ }
}

/// The default for an absent reflectance tint.
pub open spec fn one_vec3v() -> Vec3V {
    Vec3V { x: "1"@, y: "1"@, z: "1"@ }
}

/// One material read from its document value; absent fields take their
/// defaults.
pub open spec fn spec_material(v: JVal, name: Seq<char>) -> Result<MaterialV, Seq<char>> {
    match v {
        JVal::Obj(f) => {
            let colour_r = match spec_get(f, "colour"@) {
                Some(c) => spec_vec3(c, name, "colour"@),
                None => Ok(zero_vec3v()),
            };
            match colour_r {
                Ok(colour) => {
                    let glow_r = match spec_get(f, "glow"@) {
                        Some(g) => spec_vec3(g, name, "glow"@),
                        None => Ok(zero_vec3v()),
                    };
                    match glow_r {
                        Ok(glow) => {
                            let gloss_r: Result<Seq<char>, Seq<char>> = match spec_get(
                                f,
                                "gloss"@,
                            ) {
                                Some(g) => match g {
                                    JVal::Num(t) => Ok(t),
                                    _ => Err(
                                        "\"gloss\" entry in \""@ + name + "\" wasn't a number"@,
                                    ),
                                },
                                None => Ok("0"@),
                            };
                            match gloss_r {
                                Ok(gloss) => {
                                    let refl_r = match spec_get(f, "reflect_c"@) {
                                        Some(rc) => spec_vec3(rc, name, "reflect_c"@),
                                        None => Ok(one_vec3v()),
                                    };
                                    match refl_r {
                                        Ok(reflect_c) => Ok(
                                            MaterialV { colour, glow, gloss, reflect_c },
                                        ),
                                        Err(e) => Err(e),
                                    }
                                },
                                Err(e) => Err(e),
                            }
                        },
                        Err(e) => Err(e),
                    }
                },
                Err(e) => Err(e),
            }
        },
        _ => Err("Material \""@ + name + "\" wasn't an object"@),
    }
}

/// The material list and the name-to-index list, read member by member in
/// document order. A repeated name is a fault.
pub open spec fn spec_materials_at(
    m: Seq<(Seq<char>, JVal)>,
    i: int,
    mats: Seq<MaterialV>,
    map: Seq<(Seq<char>, u32)>,
) -> Result<(Seq<MaterialV>, Seq<(Seq<char>, u32)>), Seq<char>>
    decreases m.len() - i,
{
    if i < 0 || i >= m.len() {
        Ok((mats, map))
    } else {
        let name = m[i].0;
        if spec_map_get(map, name) is Some {
            Err("Duplicate material \""@ + name + "\""@)
        } else {
            match spec_material(m[i].1, name) {
                Ok(mv) => if mats.len() >= u32::MAX {
                    Err("Too many materials"@)
                } else {
                    spec_materials_at(
                        m,
                        i + 1,
                        mats.push(mv),
                        map.push((name, mats.len() as u32)),
                    )
                },
                Err(e) => Err(e),
            }
        }
    }
}

pub open spec fn spec_materials(v: JVal) -> Result<
    (Seq<MaterialV>, Seq<(Seq<char>, u32)>),
    Seq<char>,
> {
    match v {
        JVal::Obj(m) => spec_materials_at(m, 0, Seq::empty(), Seq::empty()),
        _ => Err("\"materials\" entry in Scene wasn't an object"@),
    }
}

/// The triangles of one `tri` surface.
pub open spec fn spec_tri_surface(tv: JVal, ix: u32) -> Result<Seq<TriangleV>, Seq<char>> {
    match tv {
        JVal::Arr(pts) => if pts.len() != 3 {
            Err("A triangle list did not have length 3"@)
        } else {
            match spec_vec3(pts[0], "tri"@, "0"@) {
                Ok(a) => match spec_vec3(pts[1], "tri"@, "1"@) {
                    Ok(b) => match spec_vec3(pts[2], "tri"@, "2"@) {
                        Ok(c) => Ok(seq![TriangleV { a, b, c, mat: ix }]),
                        Err(e) => Err(e),
                    },
                    Err(e) => Err(e),
                },
                Err(e) => Err(e),
            }
        },
        _ => Err("A triangle was not an array of points"@),
    }
}

/// The two triangles of one `quad` surface: `(a, b, c)` and `(a, d, c)`.
pub open spec fn spec_quad_surface(qv: JVal, ix: u32) -> Result<Seq<TriangleV>, Seq<char>> {
    match qv {
        JVal::Arr(pts) => if pts.len() != 4 {
            Err("A quad list did not have length 4"@)
        } else {
            match spec_vec3(pts[0], "quad"@, "0"@) {
                Ok(a) => match spec_vec3(pts[1], "quad"@, "1"@) {
                    Ok(b) => match spec_vec3(pts[2], "quad"@, "2"@) {
                        Ok(c) => match spec_vec3(pts[3], "quad"@, "3"@) {
                            Ok(d) => Ok(
                                seq![
                                    TriangleV { a, b, c, mat: ix },
                                    TriangleV { a, b: d, c, mat: ix },
                                ],
                            ),
                            Err(e) => Err(e),
                        },
                        Err(e) => Err(e),
                    },
                    Err(e) => Err(e),
                },
                Err(e) => Err(e),
            }
        },
        _ => Err("A quad was not an array of points"@),
    }
}

/// The triangles of one surface: its material reference, and exactly one of
/// `tri` or `quad`.
pub open spec fn spec_surface(v: JVal, map: Seq<(Seq<char>, u32)>) -> Result<
    Seq<TriangleV>,
    Seq<char>,
> {
    match v {
        JVal::Obj(f) => match spec_get(f, "mat"@) {
            Some(mv) => {
                let mat_r: Result<u32, Seq<char>> = match mv {
                    JVal::Num(t) => match token_as_u32(t) {
                        Some(ix) => Ok(ix),
                        None => Err("\"mat\" entry in a surface wasn't a string or an index"@),
                    },
                    JVal::Str(nm) => match spec_map_get(map, nm) {
                        Some(ix) => Ok(ix),
                        None => Err("Unknown material \""@ + nm + "\""@),
                    },
                    _ => Err("\"mat\" entry in a surface wasn't a string or an index"@),
                };
                match mat_r {
                    Ok(ix) => match (spec_get(f, "tri"@), spec_get(f, "quad"@)) {
                        (Some(tv), Some(qv)) => Err("A surface cannot be a triangle and a quad"@),
                        (Some(tv), None) => spec_tri_surface(tv, ix),
                        (None, Some(qv)) => spec_quad_surface(qv, ix),
                        (None, None) => Err("A surface wasn't a triangle or quad"@),
                    },
                    Err(e) => Err(e),
                }
            },
            None => Err("Surfaces didn't contain a \"mat\" index"@),
        },
        _ => Err("A surface wasn't an object"@),
    }
}

/// All surfaces from `i` on, appended after `acc`.
pub open spec fn spec_surfaces_at(
    items: Seq<JVal>,
    map: Seq<(Seq<char>, u32)>,
    i: int,
    acc: Seq<TriangleV>,
) -> Result<Seq<TriangleV>, Seq<char>>
    decreases items.len() - i,
{
    if i < 0 || i >= items.len() {
        Ok(acc)
    } else {
        match spec_surface(items[i], map) {
            Ok(ts) => spec_surfaces_at(items, map, i + 1, acc + ts),
            Err(e) => Err(e),
        }
    }
}

/// A whole scene read from a parsed document value.
pub open spec fn spec_scene_of(top: JVal) -> Result<SceneV, Seq<char>> {
    match top {
        JVal::Obj(m) => match spec_get(m, "camera"@) {
            Some(camv) => match spec_camera(camv) {
                Ok(cam) => match spec_get(m, "materials"@) {
                    Some(matsv) => match spec_materials(matsv) {
                        Ok((mats, map)) => match spec_get(m, "surfaces"@) {
                            Some(surfv) => match surfv {
                                JVal::Arr(items) => match spec_surfaces_at(
                                    items,
                                    map,
                                    0,
                                    Seq::empty(),
                                ) {
                                    Ok(tris) => Ok(
                                        SceneV { camera: cam, triangles: tris, materials: mats },
                                    ),
                                    Err(e) => Err(e),
                                },
                                _ => Err("\"surfaces\" entry in Scene wasn't an array"@),
                            },
                            None => Err("Scene didn't contain \"surfaces\" array"@),
                        },
                        Err(e) => Err(e),
                    },
                    None => Err("Scene didn't contain \"materials\" object"@),
                },
                Err(e) => Err(e),
            },
            None => Err("Scene didn't contain \"camera\" object"@),
        },
        _ => Err("Scene wasn't a JSON object"@),
    }
}

/// What `Scene::parse` yields on any text: the scene its well-formed
/// document describes, or the message naming the first fault.
pub open spec fn spec_parse_scene(s: Seq<char>) -> Result<SceneV, Seq<char>> {
    match spec_doc(s) {
        Some(top) => spec_scene_of(top),
        None => Err("Error parsing scene JSON"@),
    }
}

// ------------------------------------------------------------------
// Reading a scene from its structured text: the checked code.
// ------------------------------------------------------------------
pub open spec fn map_view(l: Seq<(String, u32)>) -> Seq<(Seq<char>, u32)>
    decreases l,
{
    if l.len() == 0 {
        Seq::empty()
    } else {
        seq![(l[0].0@, l[0].1)] + map_view(l.drop_first())
    }
}

/// Element-wise reading of `map_view`.
pub proof fn lemma_map_view(l: Seq<(String, u32)>)
    ensures
        map_view(l).len() == l.len(),
        forall|i: int| 0 <= i < l.len() ==> map_view(l)[i] == (l[i].0@, l[i].1),
    decreases l.len(),
{
    if l.len() > 0 {
        lemma_map_view(l.drop_first());
    }
}

proof fn lemma_map_view_snoc(l: Seq<(String, u32)>, x: (String, u32))
    ensures
        map_view(l.push(x)) == map_view(l) + seq![(x.0@, x.1)],
    decreases l.len(),
{
    if l.len() == 0 {
        assert(l.push(x)[l.len() as int] == x);
        assert(l.push(x).drop_first() =~= l);
        assert(map_view(l.push(x)) =~= map_view(l) + seq![(x.0@, x.1)]);
    } else {
        assert(l.push(x).drop_first() =~= l.drop_first().push(x));
        lemma_map_view_snoc(l.drop_first(), x);
        assert(l.push(x)[0] == l[0]);
        assert(map_view(l.push(x)) == seq![(l[0].0@, l[0].1)] + (map_view(l.drop_first()) + seq![
            (x.0@, x.1),
        ]));
        assert(map_view(l) == seq![(l[0].0@, l[0].1)] + map_view(l.drop_first()));
        assert(seq![(l[0].0@, l[0].1)] + (map_view(l.drop_first()) + seq![(x.0@, x.1)]) =~= (seq![
            (l[0].0@, l[0].1),
        ] + map_view(l.drop_first())) + seq![(x.0@, x.1)]);
    }
}

fn map_get(m: &Vec<(String, u32)>, key: &str) -> (r: Option<u32>)
    ensures
        r == spec_map_get(map_view(m@), key@),
{
    proof {
        lemma_map_view(m@);
    }
    let n = m.len();
    let mut i: usize = 0;
    while i < n
        invariant
            0 <= i <= n,
            n == m@.len(),
            map_view(m@).len() == n,
            forall|q: int| 0 <= q < n ==> map_view(m@)[q] == (m@[q].0@, m@[q].1),
            spec_map_get_at(map_view(m@), key@, 0) == spec_map_get_at(map_view(m@), key@, i as int),
        decreases n - i,
    {
        let pair = &m[i];
        if crate::textutil::str_eq(pair.0.as_str(), key) {
            return Some(pair.1);
        }
        i = i + 1;
    }
    None
}

fn token_u32_of(t: &str) -> (r: Option<u32>)
    ensures
        r == token_as_u32(t@),
{
    proof {
        assert(t@.subrange(0, t@.len() as int) =~= t@);
    }
    match crate::textutil::digits_value_upto(t, 0, 0xffff_ffff) {
        Some(v) => Some(v as u32),
        None => None,
    }
}

fn cat3(a: &str, b: &str, c: &str) -> (r: String)
    ensures
        r@ == a@ + b@ + c@,
{
    let mut s = String::from_str(a);
    s.append(b);
    s.append(c);
    s
}

fn cat5(a: &str, b: &str, c: &str, d: &str, e: &str) -> (r: String)
    ensures
        r@ == a@ + b@ + c@ + d@ + e@,
{
    let mut s = String::from_str(a);
    s.append(b);
    s.append(c);
    s.append(d);
    s.append(e);
    s
}

fn zero_vec3() -> (r: Vec3)
    ensures
        r@ == zero_vec3v(),
{
    Vec3::new("0", "0", "0")
}

fn one_vec3() -> (r: Vec3)
    ensures
        r@ == one_vec3v(),
{
    Vec3::new("1", "1", "1")
}

fn vec3_of(v: &Json, outer: &str, name: &str) -> (r: Result<Vec3, String>)
    ensures
        ({
            let sr = spec_vec3(json_view(*v), outer@, name@);
            match r {
                Ok(w) => sr == Ok::<Vec3V, Seq<char>>(w@),
                Err(e) => sr == Err::<Vec3V, Seq<char>>(e@),
            }
        }),
{
    match v {
        Json::Arr(items) => {
            proof {
                lemma_json_views(items@);
            }
            if items.len() != 3 {
                return Err(cat5("\"", name, "\" in \"", outer, "\" didn't have a length of 3"));
            }
            let x = match &items[0] {
                Json::Num(t) => Scalar { text: t.clone() },
                _ => {
                    return Err(cat3("first value in \"", name, "\" wasn't a number"));
                },
            };
            let y = match &items[1] {
                Json::Num(t) => Scalar { text: t.clone() },
                _ => {
                    return Err(cat3("second value in \"", name, "\" wasn't a number"));
                },
            };
            let z = match &items[2] {
                Json::Num(t) => Scalar { text: t.clone() },
                _ => {
                    return Err(cat3("third value in \"", name, "\" wasn't a number"));
                },
            };
            Ok(Vec3 { x, y, z })
        },
        _ => Err(cat5("\"", name, "\" in \"", outer, "\" wasn't an array")),
    }
}

fn camera_of(v: &Json) -> (r: Result<Camera, String>)
    ensures
        ({
            let sr = spec_camera(json_view(*v));
            match r {
                Ok(c) => sr == Ok::<CameraV, Seq<char>>(c@),
                Err(e) => sr == Err::<CameraV, Seq<char>>(e@),
            }
        }),
{
    match v {
        Json::Obj(m) => {
            let pos_j = match get_member(m, "pos") {
                Some(p) => p,
                None => {
                    return Err(String::from_str("\"camera\" didn't contain \"pos\" array"));
                },
            };
            let pos = match vec3_of(pos_j, "camera", "pos") {
                Ok(p) => p,
                Err(e) => {
                    return Err(e);
                },
            };
            let front_j = match get_member(m, "front") {
                Some(f) => f,
                None => {
                    return Err(String::from_str("\"camera\" didn't contain \"front\" array"));
                },
            };
            let front = match vec3_of(front_j, "camera", "front") {
                Ok(f) => f,
                Err(e) => {
                    return Err(e);
                },
            };
            let up_j = match get_member(m, "up") {
                Some(u) => u,
                None => {
                    return Err(String::from_str("\"camera\" didn't contain \"up\" array"));
                },
            };
            let up = match vec3_of(up_j, "camera", "up") {
                Ok(u) => u,
                Err(e) => {
                    return Err(e);
                },
            };
            let fov_j = match get_member(m, "fov") {
                Some(f) => f,
                None => {
                    return Err(String::from_str("\"camera\" didn't contain \"fov\" number"));
                },
            };
            let fov = match fov_j {
                Json::Num(t) => Scalar { text: t.clone() },
                _ => {
                    return Err(String::from_str("\"fov\" entry in \"camera\" wasn't a number"));
                },
            };
            Ok(Camera { pos, front, up, fov })
        },
        _ => Err(String::from_str("\"camera\" entry in Scene wasn't an object")),
    }
}

fn material_of(v: &Json, name: &str) -> (r: Result<Material, String>)
    ensures
        ({
            let sr = spec_material(json_view(*v), name@);
            match r {
                Ok(m) => sr == Ok::<MaterialV, Seq<char>>(m@),
                Err(e) => sr == Err::<MaterialV, Seq<char>>(e@),
            }
        }),
{
    match v {
        Json::Obj(f) => {
            let colour = match get_member(f, "colour") {
                Some(c) => match vec3_of(c, name, "colour") {
                    Ok(x) => x,
                    Err(e) => {
                        return Err(e);
                    },
                },
                None => zero_vec3(),
            };
            let glow = match get_member(f, "glow") {
                Some(g) => match vec3_of(g, name, "glow") {
                    Ok(x) => x,
                    Err(e) => {
                        return Err(e);
                    },
                },
                None => zero_vec3(),
            };
            let gloss = match get_member(f, "gloss") {
                Some(g) => match g {
                    Json::Num(t) => Scalar { text: t.clone() },
                    _ => {
                        return Err(cat3("\"gloss\" entry in \"", name, "\" wasn't a number"));
                    },
                },
                None => Scalar::new("0"),
            };
            let reflect_c = match get_member(f, "reflect_c") {
                Some(rc) => match vec3_of(rc, name, "reflect_c") {
                    Ok(x) => x,
                    Err(e) => {
                        return Err(e);
                    },
                },
                None => one_vec3(),
            };
            Ok(Material { colour, glow, gloss, reflect_c })
        },
        _ => Err(cat3("Material \"", name, "\" wasn't an object")),
    }
}

fn materials_of(v: &Json) -> (r: Result<(Vec<Material>, Vec<(String, u32)>), String>)
    ensures
        ({
            let sr = spec_materials(json_view(*v));
            match r {
                Ok(p) => sr == Ok::<(Seq<MaterialV>, Seq<(Seq<char>, u32)>), Seq<char>>(
                    (mat_views(p.0@), map_view(p.1@)),
                ),
                Err(e) => sr == Err::<(Seq<MaterialV>, Seq<(Seq<char>, u32)>), Seq<char>>(e@),
            }
        }),
{
    match v {
        Json::Obj(m) => {
            proof {
                lemma_json_members(m@);
            }
            let n = m.len();
            let mut mats: Vec<Material> = Vec::new();
            let mut map: Vec<(String, u32)> = Vec::new();
            let mut i: usize = 0;
            proof {
                assert(mat_views(mats@) =~= Seq::<MaterialV>::empty());
                assert(map_view(map@) =~= Seq::<(Seq<char>, u32)>::empty());
            }
            while i < n
                invariant
                    0 <= i <= n,
                    n == m@.len(),
                    json_members(m@).len() == n,
                    forall|q: int|
                        0 <= q < n ==> json_members(m@)[q] == (m@[q].0@, json_view(m@[q].1)),
                    spec_materials(json_view(*v)) == spec_materials_at(
                        json_members(m@),
                        i as int,
                        mat_views(mats@),
                        map_view(map@),
                    ),
                decreases n - i,
            {
                let name = m[i].0.clone();
                if map_get(&map, name.as_str()).is_some() {
                    return Err(cat3("Duplicate material \"", name.as_str(), "\""));
                }
                let mv = match material_of(&m[i].1, name.as_str()) {
                    Ok(x) => x,
                    Err(e) => {
                        return Err(e);
                    },
                };
                proof {
                    lemma_mat_views(mats@);
                }
                if mats.len() >= 0xffff_ffff {
                    return Err(String::from_str("Too many materials"));
                }
                let ix = mats.len() as u32;
                proof {
                    lemma_mat_views_snoc(mats@, mv);
                    lemma_map_view_snoc(map@, (name, ix));
                    assert(mat_views(mats@) + seq![mv@] =~= mat_views(mats@).push(mv@));
                    assert(map_view(map@) + seq![(name@, ix)] =~= map_view(map@).push(
                        (name@, ix),
                    ));
                }
                mats.push(mv);
                map.push((name, ix));
                i = i + 1;
            }
            Ok((mats, map))
        },
        _ => Err(String::from_str("\"materials\" entry in Scene wasn't an object")),
    }
}

/// Reads one surface and appends its triangles.
fn push_surface(tris: &mut Vec<Triangle>, v: &Json, map: &Vec<(String, u32)>) -> (r: Result<
    (),
    String,
>)
    ensures
        ({
            let sr = spec_surface(json_view(*v), map_view(map@));
            match r {
                Ok(_) => sr matches Ok(ts) && tri_views(final (tris)@) == tri_views(old(tris)@)
                    + ts,
                Err(e) => sr == Err::<Seq<TriangleV>, Seq<char>>(e@) && final (tris)@ == old(
                    tris,
                )@,
            }
        }),
{
    match v {
        Json::Obj(f) => {
            let mj = match get_member(f, "mat") {
                Some(x) => x,
                None => {
                    return Err(String::from_str("Surfaces didn't contain a \"mat\" index"));
                },
            };
            let ix: u32 = match mj {
                Json::Num(t) => match token_u32_of(t.as_str()) {
                    Some(ix) => ix,
                    None => {
                        return Err(
                            String::from_str(
                                "\"mat\" entry in a surface wasn't a string or an index",
                            ),
                        );
                    },
                },
                Json::Str(nm) => match map_get(map, nm.as_str()) {
                    Some(ix) => ix,
                    None => {
                        return Err(cat3("Unknown material \"", nm.as_str(), "\""));
                    },
                },
                _ => {
                    return Err(
                        String::from_str("\"mat\" entry in a surface wasn't a string or an index"),
                    );
                },
            };
            let tri_m = get_member(f, "tri");
            let quad_m = get_member(f, "quad");
            match (tri_m, quad_m) {
                (Some(_), Some(_)) => Err(
                    String::from_str("A surface cannot be a triangle and a quad"),
                ),
                (Some(tv), None) => match tv {
                    Json::Arr(pts) => {
                        proof {
                            lemma_json_views(pts@);
                        }
                        if pts.len() != 3 {
                            return Err(
                                String::from_str("A triangle list did not have length 3"),
                            );
                        }
                        let a = match vec3_of(&pts[0], "tri", "0") {
                            Ok(x) => x,
                            Err(e) => {
                                return Err(e);
                            },
                        };
                        let b = match vec3_of(&pts[1], "tri", "1") {
                            Ok(x) => x,
                            Err(e) => {
                                return Err(e);
                            },
                        };
                        let c = match vec3_of(&pts[2], "tri", "2") {
                            Ok(x) => x,
                            Err(e) => {
                                return Err(e);
                            },
                        };
                        let t = Triangle { a, b, c, mat: ix };
                        proof {
                            lemma_tri_views_snoc(tris@, t);
                            assert(tri_views(tris@) + seq![t@] =~= tri_views(tris@).push(t@));
                        }
                        tris.push(t);
                        Ok(())
                    },
                    _ => Err(String::from_str("A triangle was not an array of points")),
                },
                (None, Some(qv)) => match qv {
                    Json::Arr(pts) => {
                        proof {
                            lemma_json_views(pts@);
                        }
                        if pts.len() != 4 {
                            return Err(String::from_str("A quad list did not have length 4"));
                        }
                        let a = match vec3_of(&pts[0], "quad", "0") {
                            Ok(x) => x,
                            Err(e) => {
                                return Err(e);
                            },
                        };
                        let b = match vec3_of(&pts[1], "quad", "1") {
                            Ok(x) => x,
                            Err(e) => {
                                return Err(e);
                            },
                        };
                        let c = match vec3_of(&pts[2], "quad", "2") {
                            Ok(x) => x,
                            Err(e) => {
                                return Err(e);
                            },
                        };
                        let d = match vec3_of(&pts[3], "quad", "3") {
                            Ok(x) => x,
                            Err(e) => {
                                return Err(e);
                            },
                        };
                        let t1 = Triangle { a: a.duplicate(), b, c: c.duplicate(), mat: ix };
                        let t2 = Triangle { a, b: d, c, mat: ix };
                        proof {
                            lemma_tri_views_snoc(tris@, t1);
                            lemma_tri_views_snoc(tris@.push(t1), t2);
                            assert(tri_views(tris@) + seq![t1@, t2@] =~= tri_views(tris@).push(
                                t1@,
                            ).push(t2@));
                        }
                        tris.push(t1);
                        tris.push(t2);
                        Ok(())
                    },
                    _ => Err(String::from_str("A quad was not an array of points")),
                },
                (None, None) => Err(String::from_str("A surface wasn't a triangle or quad")),
            }
        },
        _ => Err(String::from_str("A surface wasn't an object")),
    }
}

fn scene_of(top: &Json) -> (r: Result<Scene, String>)
    ensures
        ({
            let sr = spec_scene_of(json_view(*top));
            match r {
                Ok(sc) => sr == Ok::<SceneV, Seq<char>>(sc@),
                Err(e) => sr == Err::<SceneV, Seq<char>>(e@),
            }
        }),
{
    match top {
        Json::Obj(m) => {
            let camj = match get_member(m, "camera") {
                Some(c) => c,
                None => {
                    return Err(String::from_str("Scene didn't contain \"camera\" object"));
                },
            };
            let camera = match camera_of(camj) {
                Ok(c) => c,
                Err(e) => {
                    return Err(e);
                },
            };
            let matsj = match get_member(m, "materials") {
                Some(x) => x,
                None => {
                    return Err(String::from_str("Scene didn't contain \"materials\" object"));
                },
            };
            let (materials, map) = match materials_of(matsj) {
                Ok(p) => p,
                Err(e) => {
                    return Err(e);
                },
            };
            let surfj = match get_member(m, "surfaces") {
                Some(x) => x,
                None => {
                    return Err(String::from_str("Scene didn't contain \"surfaces\" array"));
                },
            };
            match surfj {
                Json::Arr(items) => {
                    proof {
                        lemma_json_views(items@);
                    }
                    let n = items.len();
                    let mut triangles: Vec<Triangle> = Vec::new();
                    let mut i: usize = 0;
                    proof {
                        assert(tri_views(triangles@) =~= Seq::<TriangleV>::empty());
                    }
                    while i < n
                        invariant
                            0 <= i <= n,
                            n == items@.len(),
                            json_views(items@).len() == n,
                            forall|q: int|
                                0 <= q < n ==> json_views(items@)[q] == json_view(items@[q]),
                            ({
                                let sr = spec_scene_of(json_view(*top));
                                match spec_surfaces_at(
                                    json_views(items@),
                                    map_view(map@),
                                    i as int,
                                    tri_views(triangles@),
                                ) {
                                    Ok(tris) => sr == Ok::<SceneV, Seq<char>>(
                                        (SceneV {
                                            camera: camera@,
                                            triangles: tris,
                                            materials: mat_views(materials@),
                                        }),
                                    ),
                                    Err(e) => sr == Err::<SceneV, Seq<char>>(e),
                                }
                            }),
                        decreases n - i,
                    {
                        match push_surface(&mut triangles, &items[i], &map) {
                            Ok(_) => {},
                            Err(e) => {
                                return Err(e);
                            },
                        }
                        i = i + 1;
                    }
                    Ok(Scene { camera, triangles, materials })
                },
                _ => Err(String::from_str("\"surfaces\" entry in Scene wasn't an array")),
            }
        },
        _ => Err(String::from_str("Scene wasn't a JSON object")),
    }
}


/// The invariant a scene must meet when it is handed to a render: every
/// triangle's material index lies within the material list.
pub open spec fn spec_materials_in_range(s: SceneV) -> bool {
    forall|i: int|
        0 <= i < s.triangles.len() ==> (#[trigger] s.triangles[i]).mat < s.materials.len()
}

impl Scene {
    /// Whether every triangle's material reference points into the material
    /// list. Geometry can be appended without a bound check, so a render
    /// holds the scene against this before the first dispatch.
    pub fn materials_in_range(&self) -> (r: bool)
        ensures
            r == spec_materials_in_range(self@),
    {
        proof {
            lemma_tri_views(self.triangles@);
            lemma_mat_views(self.materials@);
        }
        let nmat = self.materials.len();
        let n = self.triangles.len();
        let mut i: usize = 0;
        while i < n
            invariant
                0 <= i <= n,
                n == self.triangles@.len(),
                nmat == self.materials@.len(),
                tri_views(self.triangles@).len() == n,
                mat_views(self.materials@).len() == nmat,
                forall|q: int|
                    0 <= q < n ==> tri_views(self.triangles@)[q] == self.triangles@[q]@,
                forall|q: int|
                    0 <= q < i ==> (#[trigger] tri_views(self.triangles@)[q]).mat < nmat,
            decreases n - i,
        {
            if self.triangles[i].mat as usize >= nmat {
                proof {
                    assert((self@).triangles[i as int].mat >= (self@).materials.len());
                }
                return false;
            }
            i = i + 1;
        }
        true
    }
}

// ------------------------------------------------------------------
// Laws of the scene text.
// ------------------------------------------------------------------
/// Reading a scene is deterministic: one text, one outcome — the same
/// scene, or the same message.
pub proof fn lemma_parse_deterministic(s1: Seq<char>, s2: Seq<char>)
    requires
        s1 == s2,
    ensures
        spec_parse_scene(s1) == spec_parse_scene(s2),
{
}

/// A document without a `camera` member never yields a scene.
pub proof fn lemma_missing_camera_refused(m: Seq<(Seq<char>, JVal)>)
    requires
        spec_get(m, "camera"@) is None,
    ensures
        spec_scene_of(JVal::Obj(m)) is Err,
{
}

/// A document without a `materials` member never yields a scene.
pub proof fn lemma_missing_materials_refused(m: Seq<(Seq<char>, JVal)>)
    requires
        spec_get(m, "materials"@) is None,
    ensures
        spec_scene_of(JVal::Obj(m)) is Err,
{
}

/// A document without a `surfaces` member never yields a scene.
pub proof fn lemma_missing_surfaces_refused(m: Seq<(Seq<char>, JVal)>)
    requires
        spec_get(m, "surfaces"@) is None,
    ensures
        spec_scene_of(JVal::Obj(m)) is Err,
{
}

/// A document that is no object never yields a scene, and text that is no
/// well-formed document never yields one.
pub proof fn lemma_non_object_refused(top: JVal, s: Seq<char>)
    ensures
        !(top is Obj) ==> spec_scene_of(top) is Err,
        spec_doc(s) is None ==> spec_parse_scene(s) is Err,
{
}

/// A three-component vector is read exactly from an array of three numbers;
/// any other shape — wrong type, wrong length, a non-number inside — is a
/// fault.
pub proof fn lemma_vec3_shape(v: JVal, outer: Seq<char>, name: Seq<char>)
    ensures
        spec_vec3(v, outer, name) is Ok <==> (v matches JVal::Arr(items) && items.len() == 3
            && items[0] is Num && items[1] is Num && items[2] is Num),
{
}

/// A surface naming both a triangle and a quad is a fault, whatever else it
/// holds.
pub proof fn lemma_both_tri_and_quad_refused(f: Seq<(Seq<char>, JVal)>, map: Seq<(Seq<char>, u32)>)
    requires
        spec_get(f, "tri"@) is Some,
        spec_get(f, "quad"@) is Some,
    ensures
        spec_surface(JVal::Obj(f), map) is Err,
{
}

/// A surface naming neither a triangle nor a quad is a fault.
pub proof fn lemma_neither_tri_nor_quad_refused(
    f: Seq<(Seq<char>, JVal)>,
    map: Seq<(Seq<char>, u32)>,
)
    requires
        spec_get(f, "tri"@) is None,
        spec_get(f, "quad"@) is None,
    ensures
        spec_surface(JVal::Obj(f), map) is Err,
{
}

/// A material name that the material list does not know is a fault.
pub proof fn lemma_unknown_material_refused(
    f: Seq<(Seq<char>, JVal)>,
    map: Seq<(Seq<char>, u32)>,
    nm: Seq<char>,
)
    requires
        spec_get(f, "mat"@) == Some(JVal::Str(nm)),
        spec_map_get(map, nm) is None,
    ensures
        spec_surface(JVal::Obj(f), map) == Err::<Seq<TriangleV>, Seq<char>>(
            "Unknown material \""@ + nm + "\""@,
        ),
{
}

} // verus!
