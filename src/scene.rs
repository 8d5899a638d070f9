//! The scene model: objects, materials, lights and camera, built from the
//! entries of a scene in order.
use vstd::prelude::*;
use crate::number::Decimal;
use crate::scene_file::{FileEntry, ProcFile};

verus! {

/// Three decimals: a position, a direction or a color.
#[derive(Clone, Copy, Debug, PartialEq, Eq, Structural)]
pub struct Triple {
    pub x: Decimal,
    pub y: Decimal,
    pub z: Decimal,
}

/// How a surface reflects: base color, diffuse reflectance, and the share of
/// mirror reflection (0 fully diffuse, 1 fully mirror).
#[derive(Clone, Copy, Debug, PartialEq, Eq, Structural)]
pub struct Material {
    pub color: Triple,
    pub albedo: Decimal,
    pub shininess: Decimal,
}

/// A shape: a sphere by center and radius, a plane by the coefficients of
/// `a x + b y + c z + d = 0`, a triangle by its vertices in order.
#[derive(Clone, Copy, Debug, PartialEq, Eq, Structural)]
pub enum ObjPrimative {
    Sphere { xyz: Triple, r: Decimal },
    Plane { a: Decimal, b: Decimal, c: Decimal, d: Decimal },
    Triangle { p0: Triple, p1: Triple, p2: Triple },
}

/// A shape with the material that was current when it was declared.
#[derive(Clone, Copy, Debug, PartialEq, Eq, Structural)]
pub struct SceneObject {
    pub primitive: ObjPrimative,
    pub material: Material,
}

/// A light: at infinity in a direction, or at a point.
#[derive(Clone, Copy, Debug, PartialEq, Eq, Structural)]
pub enum LightPrimitive {
    Directional(Triple),
    Point(Triple),
}

/// A light with its color.
#[derive(Clone, Copy, Debug, PartialEq, Eq, Structural)]
pub struct LightSourceObject {
    pub source: LightPrimitive,
    pub color: Triple,
}

/// The camera frame: eye position and the forward, right and up directions.
#[derive(Clone, Copy, Debug, PartialEq, Eq, Structural)]
pub struct CameraSettings {
    pub position: Triple,
    pub forward: Triple,
    pub right: Triple,
    pub up: Triple,
}

/// Why entries make no scene.
#[derive(Clone, Copy, Debug, PartialEq, Eq, Structural)]
pub enum SceneError {
    /// A triangle names a vertex that has not been declared.
    BadVertexIndex,
    /// The forward direction of the camera cannot be changed.
    ForwardUnsupported,
}

/// The scene: camera, lights, and objects in the order of declaration.  An
/// object's index in `objects` is its identity.
#[derive(Debug)]
pub struct Scene {
    pub camera_settings: CameraSettings,
    pub light_sources: Vec<LightSourceObject>,
    pub objects: Vec<SceneObject>,
}

/// The state while entries are read: what has been built, and what later
/// entries start from.
pub struct SceneModel {
    pub camera: CameraSettings,
    pub material: Material,
    pub color: Triple,
    pub vertices: Seq<Triple>,
    pub objects: Seq<SceneObject>,
    pub lights: Seq<LightSourceObject>,
}

pub open spec fn int_decimal(negative: bool, magnitude: u64) -> Decimal {
    Decimal { negative, magnitude, scale: 0 }
}

pub open spec fn triple(x: Decimal, y: Decimal, z: Decimal) -> Triple {
    Triple { x, y, z }
}

pub open spec fn white() -> Triple {
    triple(int_decimal(false, 1), int_decimal(false, 1), int_decimal(false, 1))
}

/// White, albedo 1.04, no mirror reflection.
pub open spec fn default_material() -> Material {
    Material {
        color: white(),
        albedo: Decimal { negative: false, magnitude: 104, scale: 2 },
        shininess: int_decimal(false, 0),
    }
}

/// Eye at the origin looking down -z, with +x right and +y up.
pub open spec fn default_camera() -> CameraSettings {
    let zero = int_decimal(false, 0);
    let one = int_decimal(false, 1);
    CameraSettings {
        position: triple(zero, zero, zero),
        forward: triple(zero, zero, int_decimal(true, 1)),
        right: triple(one, zero, zero),
        up: triple(zero, one, zero),
    }
}

pub open spec fn initial_model() -> SceneModel {
    SceneModel {
        camera: default_camera(),
        material: default_material(),
        color: white(),
        vertices: seq![],
        objects: seq![],
        lights: seq![],
    }
}

/// The position among `len` vertices that index `i` names: counted from 1
/// at the first vertex, or from -1 at the last one.
pub open spec fn vertex_index(i: int, len: int) -> Option<int> {
    if 0 < i <= len {
        Some(i - 1)
    } else if i < 0 && -i <= len {
        Some(len + i)
    } else {
        None
    }
}

/// The right direction for an up direction: forward × up, where forward is
/// the fixed (0, 0, -1), which is (up.y, -up.x, 0).
pub open spec fn right_of(up: Triple) -> Triple {
    triple(
        up.y,
        Decimal { negative: !up.x.negative, ..up.x },
        int_decimal(false, 0),
    )
}

/// What one entry does to the state.
pub open spec fn step(st: SceneModel, e: FileEntry) -> Result<SceneModel, SceneError> {
    match e {
        FileEntry::Sphere { x, y, z, r } => Ok(
            SceneModel {
                objects: st.objects.push(
                    SceneObject {
                        primitive: ObjPrimative::Sphere { xyz: triple(x, y, z), r },
                        material: st.material,
                    },
                ),
                ..st
            },
        ),
        FileEntry::Plane { a, b, c, d } => Ok(
            SceneModel {
                objects: st.objects.push(
                    SceneObject {
                        primitive: ObjPrimative::Plane { a, b, c, d },
                        material: st.material,
                    },
                ),
                ..st
            },
        ),
        FileEntry::Xyz { x, y, z } => Ok(
            SceneModel { vertices: st.vertices.push(triple(x, y, z)), ..st },
        ),
        FileEntry::Triangle { a, b, c } => {
            let n = st.vertices.len() as int;
            match (vertex_index(a as int, n), vertex_index(b as int, n), vertex_index(c as int, n)) {
                (Some(i), Some(j), Some(k)) => Ok(
                    SceneModel {
                        objects: st.objects.push(
                            SceneObject {
                                primitive: ObjPrimative::Triangle {
                                    p0: st.vertices[i],
                                    p1: st.vertices[j],
                                    p2: st.vertices[k],
                                },
                                material: st.material,
                            },
                        ),
                        ..st
                    },
                ),
                _ => Err(SceneError::BadVertexIndex),
            }
        },
        FileEntry::Sun { x, y, z } => Ok(
            SceneModel {
                lights: st.lights.push(
                    LightSourceObject {
                        source: LightPrimitive::Directional(triple(x, y, z)),
                        color: st.color,
                    },
                ),
                ..st
            },
        ),
        FileEntry::Bulb { x, y, z } => Ok(
            SceneModel {
                lights: st.lights.push(
                    LightSourceObject {
                        source: LightPrimitive::Point(triple(x, y, z)),
                        color: st.color,
                    },
                ),
                ..st
            },
        ),
        FileEntry::Color { r, g, b } => Ok(
            SceneModel {
                color: triple(r, g, b),
                material: Material { color: triple(r, g, b), ..st.material },
                ..st
            },
        ),
        FileEntry::Shiny { s } => Ok(
            SceneModel { material: Material { shininess: s, ..st.material }, ..st },
        ),
        FileEntry::Eye { x, y, z } => Ok(
            SceneModel { camera: CameraSettings { position: triple(x, y, z), ..st.camera }, ..st },
        ),
        FileEntry::Up { x, y, z } => Ok(
            SceneModel {
                camera: CameraSettings {
                    up: triple(x, y, z),
                    right: right_of(triple(x, y, z)),
                    ..st.camera
                },
                ..st
            },
        ),
        FileEntry::Forward { .. } => Err(SceneError::ForwardUnsupported),
        _ => Ok(st),
    }
}

/// The state after the entries `es`, or the error of the first entry that
/// makes none.
pub open spec fn run(es: Seq<FileEntry>) -> Result<SceneModel, SceneError>
    decreases es.len(),
{
    if es.len() == 0 {
        Ok(initial_model())
    } else {
        match run(es.drop_last()) {
            Ok(st) => step(st, es.last()),
            Err(e) => Err(e),
        }
    }
}

/// What building a scene from the entries `es` gives.
pub open spec fn scene_outcome(es: Seq<FileEntry>, r: Result<Scene, SceneError>) -> bool {
    match run(es) {
        Ok(m) => r is Ok && r->Ok_0.camera_settings == m.camera && r->Ok_0.light_sources@
            == m.lights && r->Ok_0.objects@ == m.objects,
        Err(e) => r is Err && r->Err_0 == e,
    }
}

/// Building a scene twice from the same entries gives the same camera,
/// lights and objects, or the same error.
pub proof fn lemma_scene_deterministic(
    es: Seq<FileEntry>,
    r1: Result<Scene, SceneError>,
    r2: Result<Scene, SceneError>,
)
    requires
        scene_outcome(es, r1),
        scene_outcome(es, r2),
    ensures
        r1 is Ok <==> r2 is Ok,
        r1 is Err ==> r1->Err_0 == r2->Err_0,
        r1 is Ok ==> r1->Ok_0.camera_settings == r2->Ok_0.camera_settings
            && r1->Ok_0.light_sources@ == r2->Ok_0.light_sources@ && r1->Ok_0.objects@
            == r2->Ok_0.objects@,
{
}

proof fn lemma_run_err_extends(es: Seq<FileEntry>, k: int)
    requires
        1 <= k <= es.len(),
        run(es.take(k)) is Err,
    ensures
        run(es) == run(es.take(k)),
    decreases es.len() - k,
{
    if k < es.len() {
        assert(es.take(k + 1).drop_last() =~= es.take(k));
        lemma_run_err_extends(es, k + 1);
    } else {
        assert(es.take(k) =~= es);
    }
}

fn int_dec(negative: bool, magnitude: u64) -> (r: Decimal)
    ensures
        r == int_decimal(negative, magnitude),
{
    Decimal { negative, magnitude, scale: 0 }
}

fn white_color() -> (r: Triple)
    ensures
        r == white(),
{
    Triple { x: int_dec(false, 1), y: int_dec(false, 1), z: int_dec(false, 1) }
}

impl Material {
    /// The material of objects declared before any `color` or `shininess` entry.
    pub fn default_material() -> (r: Material)
        ensures
            r == default_material(),
    {
        Material {
            color: white_color(),
            albedo: Decimal { negative: false, magnitude: 104, scale: 2 },
            shininess: int_dec(false, 0),
        }
    }
}

impl CameraSettings {
    /// The camera of a scene without `eye` or `up` entries.
    pub fn default_camera() -> (r: CameraSettings)
        ensures
            r == default_camera(),
    {
        let zero = int_dec(false, 0);
        let one = int_dec(false, 1);
        CameraSettings {
            position: Triple { x: zero, y: zero, z: zero },
            forward: Triple { x: zero, y: zero, z: int_dec(true, 1) },
            right: Triple { x: one, y: zero, z: zero },
            up: Triple { x: zero, y: one, z: zero },
        }
    }
}

/// The vertex that index `i` names among `v`.
pub fn get_vertex<T: Copy>(i: i32, v: &Vec<T>) -> (r: Option<T>)
    ensures
        r == match vertex_index(i as int, v@.len() as int) {
            Some(k) => Some(v@[k]),
            None => None::<T>,
        },
{
    let n = v.len();
    if i > 0 {
        let k = (i - 1) as usize;
        if k < n {
            Some(v[k])
        } else {
            None
        }
    } else if i < 0 {
        let back = (-(i as i64)) as usize;
        if back <= n {
            Some(v[n - back])
        } else {
            None
        }
    } else {
        None
    }
}

impl SceneObject {
    /// A shape with its material.
    pub fn new(primitive: ObjPrimative, material: Material) -> (r: SceneObject)
        ensures
            r == (SceneObject { primitive, material }),
    {
        SceneObject { primitive, material }
    }
}

impl LightSourceObject {
    /// A light with its color.
    pub fn new(source: LightPrimitive, color: Triple) -> (r: LightSourceObject)
        ensures
            r == (LightSourceObject { source, color }),
    {
        LightSourceObject { source, color }
    }
}

/// The state while entries are read, as built.
struct Builder {
    camera: CameraSettings,
    material: Material,
    color: Triple,
    vertices: Vec<Triple>,
    objects: Vec<SceneObject>,
    lights: Vec<LightSourceObject>,
}

impl Builder {
    spec fn model(&self) -> SceneModel {
        SceneModel {
            camera: self.camera,
            material: self.material,
            color: self.color,
            vertices: self.vertices@,
            objects: self.objects@,
            lights: self.lights@,
        }
    }

    fn new() -> (r: Builder)
        ensures
            r.model() == initial_model(),
    {
        let r = Builder {
            camera: CameraSettings::default_camera(),
            material: Material::default_material(),
            color: white_color(),
            vertices: Vec::new(),
            objects: Vec::new(),
            lights: Vec::new(),
        };
        assert(r.model().vertices =~= Seq::<Triple>::empty());
        assert(r.model().objects =~= Seq::<SceneObject>::empty());
        assert(r.model().lights =~= Seq::<LightSourceObject>::empty());
        r
    }

    fn apply(&mut self, e: FileEntry) -> (r: Result<(), SceneError>)
        ensures
            match step(old(self).model(), e) {
                Ok(m) => r is Ok && final(self).model() == m,
                Err(err) => r == Err::<(), SceneError>(err),
            },
    {
        match e {
            FileEntry::Sphere { x, y, z, r } => {
                let primitive = ObjPrimative::Sphere { xyz: Triple { x, y, z }, r };
                self.objects.push(SceneObject::new(primitive, self.material));
            },
            FileEntry::Plane { a, b, c, d } => {
                let primitive = ObjPrimative::Plane { a, b, c, d };
                self.objects.push(SceneObject::new(primitive, self.material));
            },
            FileEntry::Xyz { x, y, z } => {
                self.vertices.push(Triple { x, y, z });
            },
            FileEntry::Triangle { a, b, c } => {
                let p0 = get_vertex(a, &self.vertices);
                let p1 = get_vertex(b, &self.vertices);
                let p2 = get_vertex(c, &self.vertices);
                match (p0, p1, p2) {
                    (Some(p0), Some(p1), Some(p2)) => {
                        let primitive = ObjPrimative::Triangle { p0, p1, p2 };
                        self.objects.push(SceneObject::new(primitive, self.material));
                    },
                    _ => {
                        return Err(SceneError::BadVertexIndex);
                    },
                }
            },
            FileEntry::Sun { x, y, z } => {
                let source = LightPrimitive::Directional(Triple { x, y, z });
                self.lights.push(LightSourceObject::new(source, self.color));
            },
            FileEntry::Bulb { x, y, z } => {
                let source = LightPrimitive::Point(Triple { x, y, z });
                self.lights.push(LightSourceObject::new(source, self.color));
            },
            FileEntry::Color { r, g, b } => {
                self.color = Triple { x: r, y: g, z: b };
                self.material.color = self.color;
            },
            FileEntry::Shiny { s } => {
                self.material.shininess = s;
            },
            FileEntry::Eye { x, y, z } => {
                self.camera.position = Triple { x, y, z };
            },
            FileEntry::Up { x, y, z } => {
                let up = Triple { x, y, z };
                self.camera.up = up;
                self.camera.right = Triple { x: y, y: x.negated(), z: int_dec(false, 0) };
            },
            FileEntry::Forward { .. } => {
                return Err(SceneError::ForwardUnsupported);
            },
            _ => {},
        }
        Ok(())
    }
}

impl Scene {
    /// Builds the scene that the entries of `file` describe, in order.
    pub fn from_file(file: &ProcFile) -> (r: Result<Scene, SceneError>)
        ensures
            scene_outcome(file.entries@, r),
    {
        let ghost es = file.entries@;
        let mut b = Builder::new();
        let mut i: usize = 0;
        assert(es.take(0) =~= Seq::<FileEntry>::empty());
        while i < file.entries.len()
            invariant
                i <= es.len(),
                es == file.entries@,
                run(es.take(i as int)) == Ok::<SceneModel, SceneError>(b.model()),
            decreases es.len() - i,
        {
            assert(es.take(i + 1).drop_last() =~= es.take(i as int));
            assert(es.take(i + 1).last() == es[i as int]);
            match b.apply(file.entries[i]) {
                Ok(()) => {},
                Err(e) => {
                    proof {
                        lemma_run_err_extends(es, i + 1);
                    }
                    return Err(e);
                },
            }
            i = i + 1;
        }
        assert(es.take(i as int) =~= es);
        Ok(Scene { camera_settings: b.camera, light_sources: b.lights, objects: b.objects })
    }

    /// The object with identity `id`: its index among the objects.
    pub fn get_object(&self, id: usize) -> (r: Option<&SceneObject>)
        ensures
            r == if id < self.objects@.len() {
                Some(&self.objects@[id as int])
            } else {
                None
            },
    {
        if id < self.objects.len() {
            Some(&self.objects[id])
        } else {
            None
        }
    }
}

} // verus!
