use vstd::prelude::*;
use vstd::string::*;

use crate::decimal::{parse_usize, usize_of};
use crate::text::{lemma_split_nonempty, split_chars, split_on, tokenize_line, is_word};

verus! {

/// Why a mesh file cannot be turned into triangles.
#[derive(Clone, Copy, Debug, PartialEq, Eq, Structural)]
pub enum ObjError {
    /// A face line lists fewer than three corners.
    MissingCorner,
    /// A corner holds the index 0, which no element has: indices count from 1.
    ZeroIndex,
    /// A corner names a vertex that has not been listed before the face.
    VertexOutOfRange,
    /// A corner names a texture coordinate that has not been listed before the face.
    TexCoordOutOfRange,
}

/// The one-based number in field `k` of a face corner `v/vt/vn`; a field that
/// is absent or is no number counts as 1.
pub open spec fn corner_field(s: Seq<char>, k: int) -> nat {
    let fields = split_on(s, '/');
    if k < fields.len() {
        match usize_of(fields[k]) {
            Some(v) => v as nat,
            None => 1,
        }
    } else {
        1
    }
}

/// The zero-based vertex, texture and normal indices of a face corner, or
/// `None` where one of them is written as 0.
pub open spec fn corner_of(s: Seq<char>) -> Option<(usize, usize, usize)> {
    if corner_field(s, 0) >= 1 && corner_field(s, 1) >= 1 && corner_field(s, 2) >= 1 {
        Some(
            (
                (corner_field(s, 0) - 1) as usize,
                (corner_field(s, 1) - 1) as usize,
                (corner_field(s, 2) - 1) as usize,
            ),
        )
    } else {
        None
    }
}

fn field_number(fields: &Vec<String>, k: usize) -> (r: usize)
    ensures
        r as nat == (if k < fields.len() {
            match usize_of(fields[k as int]@) {
                Some(v) => v as nat,
                None => 1,
            }
        } else {
            1
        }),
{
    if k < fields.len() {
        match parse_usize(fields[k].as_str()) {
            Some(v) => v,
            None => 1,
        }
    } else {
        1
    }
}

/// Parses one corner `v/vt/vn` of a face into zero-based indices.
pub fn parse_face_index(s: &str) -> (r: Option<(usize, usize, usize)>)
    ensures
        r == corner_of(s@),
{
    let fields = split_chars(s, '/');
    proof {
        lemma_split_nonempty(s@, '/');
        assert(forall|k: int| 0 <= k < fields.len() ==> fields[k]@ == #[trigger] split_on(s@, '/')[k]);
    }
    let v = field_number(&fields, 0);
    let t = field_number(&fields, 1);
    let n = field_number(&fields, 2);
    if v == 0 || t == 0 || n == 0 {
        None
    } else {
        Some((v - 1, t - 1, n - 1))
    }
}

/// A triangle of a mesh, as indices into the vertices and texture coordinates
/// listed before it, with the name of the material that was in use.
pub struct Face {
    pub vertices: (usize, usize, usize),
    pub tex_coords: (usize, usize, usize),
    pub material: String,
}

pub struct FaceView {
    pub vertices: (usize, usize, usize),
    pub tex_coords: (usize, usize, usize),
    pub material: Seq<char>,
}

impl View for Face {
    type V = FaceView;

    open spec fn view(&self) -> FaceView {
        FaceView { vertices: self.vertices, tex_coords: self.tex_coords, material: self.material@ }
    }
}

/// The vertex and texture indices of a face whose corners are `points`, when
/// `vertex_count` vertices and `tex_count` texture coordinates precede it. Only
/// the first three corners count.
pub open spec fn face_indices(points: Seq<Seq<char>>, vertex_count: nat, tex_count: nat) -> Result<
    ((usize, usize, usize), (usize, usize, usize)),
    ObjError,
> {
    if points.len() < 3 {
        Err(ObjError::MissingCorner)
    } else {
        match (corner_of(points[0]), corner_of(points[1]), corner_of(points[2])) {
            (Some(x), Some(y), Some(z)) => {
                if x.1 >= tex_count || y.1 >= tex_count || z.1 >= tex_count {
                    Err(ObjError::TexCoordOutOfRange)
                } else if x.0 >= vertex_count || y.0 >= vertex_count || z.0 >= vertex_count {
                    Err(ObjError::VertexOutOfRange)
                } else {
                    Ok(((x.0, y.0, z.0), (x.1, y.1, z.1)))
                }
            },
            _ => Err(ObjError::ZeroIndex),
        }
    }
}

/// Parses the corners of a face line (the pieces after `f`) into a triangle
/// that uses `material`.
pub fn parse_face(points: &Vec<String>, material: String, vertex_count: usize, tex_count: usize) -> (r:
    Result<Face, ObjError>)
    ensures
        match r {
            Ok(f) => face_indices(points.deep_view(), vertex_count as nat, tex_count as nat) == Ok::<
                _,
                ObjError,
            >((f.vertices, f.tex_coords)) && f.material@ == material@,
            Err(e) => face_indices(points.deep_view(), vertex_count as nat, tex_count as nat) == Err::<
                ((usize, usize, usize), (usize, usize, usize)),
                _,
            >(e),
        },
{
    if points.len() < 3 {
        return Err(ObjError::MissingCorner);
    }
    assert(points.deep_view()[0] == points[0]@);
    assert(points.deep_view()[1] == points[1]@);
    assert(points.deep_view()[2] == points[2]@);
    let x = parse_face_index(points[0].as_str());
    let y = parse_face_index(points[1].as_str());
    let z = parse_face_index(points[2].as_str());
    match (x, y, z) {
        (Some(x), Some(y), Some(z)) => {
            if x.1 >= tex_count || y.1 >= tex_count || z.1 >= tex_count {
                Err(ObjError::TexCoordOutOfRange)
            } else if x.0 >= vertex_count || y.0 >= vertex_count || z.0 >= vertex_count {
                Err(ObjError::VertexOutOfRange)
            } else {
                Ok(Face { vertices: (x.0, y.0, z.0), tex_coords: (x.1, y.1, z.1), material })
            }
        },
        _ => Err(ObjError::ZeroIndex),
    }
}

/// What a mesh file lists, in the order of its lines.
pub struct MeshView {
    /// The coordinate fields of each `v` line.
    pub vertices: Seq<Seq<Seq<char>>>,
    /// The coordinate fields of each `vt` line.
    pub tex_coords: Seq<Seq<Seq<char>>>,
    pub faces: Seq<FaceView>,
    /// The material named by each `usemtl` line.
    pub materials: Seq<Seq<char>>,
}

/// A mesh file read into its parts. Coordinates stay text: turning them into
/// numbers is left to the caller.
pub struct ObjDocument {
    pub vertices: Vec<Vec<String>>,
    pub tex_coords: Vec<Vec<String>>,
    pub faces: Vec<Face>,
    pub materials: Vec<String>,
}

impl View for ObjDocument {
    type V = MeshView;

    open spec fn view(&self) -> MeshView {
        MeshView {
            vertices: self.vertices.deep_view(),
            tex_coords: self.tex_coords.deep_view(),
            faces: self.faces@.map_values(|f: Face| f@),
            materials: self.materials.deep_view(),
        }
    }
}

pub open spec fn empty_mesh() -> MeshView {
    MeshView {
        vertices: Seq::empty(),
        tex_coords: Seq::empty(),
        faces: Seq::empty(),
        materials: Seq::empty(),
    }
}

/// Reads one line into the mesh `m`, where `current` is the material in use.
/// Gives the new mesh and material; lines with another keyword change nothing.
pub open spec fn mesh_step(m: MeshView, current: Seq<char>, line: Seq<char>) -> Result<
    (MeshView, Seq<char>),
    ObjError,
> {
    let pieces = split_on(line, ' ');
    let id = pieces[0];
    let points = pieces.drop_first();
    if id == seq!['v'] {
        Ok(
            (
                MeshView {
                    vertices: m.vertices.push(points),
                    tex_coords: m.tex_coords,
                    faces: m.faces,
                    materials: m.materials,
                },
                current,
            ),
        )
    } else if id == seq!['v', 't'] {
        Ok(
            (
                MeshView {
                    vertices: m.vertices,
                    tex_coords: m.tex_coords.push(points),
                    faces: m.faces,
                    materials: m.materials,
                },
                current,
            ),
        )
    } else if id == seq!['f'] {
        match face_indices(points, m.vertices.len(), m.tex_coords.len()) {
            Ok(ix) => Ok(
                (
                    MeshView {
                        vertices: m.vertices,
                        tex_coords: m.tex_coords,
                        faces: m.faces.push(
                            FaceView { vertices: ix.0, tex_coords: ix.1, material: current },
                        ),
                        materials: m.materials,
                    },
                    current,
                ),
            ),
            Err(e) => Err(e),
        }
    } else if id == seq!['u', 's', 'e', 'm', 't', 'l'] {
        let name = if points.len() > 0 {
            points[0]
        } else {
            Seq::empty()
        };
        Ok(
            (
                MeshView {
                    vertices: m.vertices,
                    tex_coords: m.tex_coords,
                    faces: m.faces,
                    materials: m.materials.push(name),
                },
                name,
            ),
        )
    } else {
        Ok((m, current))
    }
}

/// The mesh that `lines` describe, read from the first line on with no
/// material in use; the first face that cannot be read stops it.
pub open spec fn mesh_of(lines: Seq<Seq<char>>) -> Result<(MeshView, Seq<char>), ObjError>
    decreases lines.len(),
{
    if lines.len() == 0 {
        Ok((empty_mesh(), Seq::empty()))
    } else {
        match mesh_of(lines.drop_last()) {
            Ok(st) => mesh_step(st.0, st.1, lines.last()),
            Err(e) => Err(e),
        }
    }
}

/// Once a face cannot be read, no later line changes the outcome.
pub proof fn lemma_mesh_error_stays(lines: Seq<Seq<char>>, k: int, e: ObjError)
    requires
        0 <= k <= lines.len(),
        mesh_of(lines.take(k)) == Err::<(MeshView, Seq<char>), ObjError>(e),
    ensures
        mesh_of(lines) == Err::<(MeshView, Seq<char>), ObjError>(e),
    decreases lines.len(),
{
    if k == lines.len() {
        assert(lines.take(k) =~= lines);
    } else {
        assert(lines.drop_last().take(k) =~= lines.take(k));
        lemma_mesh_error_stays(lines.drop_last(), k, e);
    }
}

/// Every face of `m` names only vertices and texture coordinates that `m` lists.
pub open spec fn faces_in_range(m: MeshView) -> bool {
    forall|k: int|
        0 <= k < m.faces.len() ==> {
            let f = #[trigger] m.faces[k];
            &&& f.vertices.0 < m.vertices.len()
            &&& f.vertices.1 < m.vertices.len()
            &&& f.vertices.2 < m.vertices.len()
            &&& f.tex_coords.0 < m.tex_coords.len()
            &&& f.tex_coords.1 < m.tex_coords.len()
            &&& f.tex_coords.2 < m.tex_coords.len()
        }
}

/// A mesh that reads without error has no face that points past the
/// vertices or texture coordinates it lists.
pub proof fn lemma_mesh_faces_in_range(lines: Seq<Seq<char>>)
    ensures
        mesh_of(lines) matches Ok(st) ==> faces_in_range(st.0),
    decreases lines.len(),
{
    if lines.len() > 0 {
        lemma_mesh_faces_in_range(lines.drop_last());
        if let Ok(prev) = mesh_of(lines.drop_last()) {
            if let Ok(st) = mesh_of(lines) {
                assert(st == mesh_step(prev.0, prev.1, lines.last()).unwrap());
                assert forall|k: int| 0 <= k < st.0.faces.len() implies {
                    let f = #[trigger] st.0.faces[k];
                    &&& f.vertices.0 < st.0.vertices.len()
                    &&& f.vertices.1 < st.0.vertices.len()
                    &&& f.vertices.2 < st.0.vertices.len()
                    &&& f.tex_coords.0 < st.0.tex_coords.len()
                    &&& f.tex_coords.1 < st.0.tex_coords.len()
                    &&& f.tex_coords.2 < st.0.tex_coords.len()
                } by {
                    if k < prev.0.faces.len() {
                        assert(st.0.faces[k] == prev.0.faces[k]);
                    }
                }
            }
        }
    }
}

/// Reads the lines of a mesh file: `v` and `vt` lines list coordinates, `f`
/// lines triangles over them, and `usemtl` picks the material of the faces
/// that follow.
pub fn parse_obj(lines: &Vec<String>) -> (r: Result<ObjDocument, ObjError>)
    ensures
        match r {
            Ok(doc) => mesh_of(lines.deep_view()) matches Ok(st) && doc@ == st.0 && faces_in_range(
                doc@,
            ),
            Err(e) => mesh_of(lines.deep_view()) == Err::<(MeshView, Seq<char>), ObjError>(e),
        },
{
    let mut doc = ObjDocument {
        vertices: Vec::new(),
        tex_coords: Vec::new(),
        faces: Vec::new(),
        materials: Vec::new(),
    };
    let mut current = String::new();
    let mut i: usize = 0;
    proof {
        assert(lines.deep_view().take(0) =~= Seq::<Seq<char>>::empty());
        assert(doc@.vertices =~= empty_mesh().vertices);
        assert(doc@.tex_coords =~= empty_mesh().tex_coords);
        assert(doc@.faces =~= empty_mesh().faces);
        assert(doc@.materials =~= empty_mesh().materials);
    }
    while i < lines.len()
        invariant
            i <= lines.len(),
            mesh_of(lines.deep_view().take(i as int)) == Ok::<_, ObjError>((doc@, current@)),
        decreases lines.len() - i,
    {
        let ghost before = doc@;
        proof {
            assert(lines.deep_view().take(i + 1).drop_last() =~= lines.deep_view().take(i as int));
            assert(lines.deep_view().take(i + 1).last() == lines[i as int]@);
        }
        let (id, points) = tokenize_line(lines[i].clone());
        let vertex_word = ['v'];
        let tex_word = ['v', 't'];
        let face_word = ['f'];
        let material_word = ['u', 's', 'e', 'm', 't', 'l'];
        proof {
            assert(vertex_word@ =~= seq!['v']);
            assert(tex_word@ =~= seq!['v', 't']);
            assert(face_word@ =~= seq!['f']);
            assert(material_word@ =~= seq!['u', 's', 'e', 'm', 't', 'l']);
        }
        if is_word(id.as_str(), &vertex_word) {
            doc.vertices.push(points);
            proof {
                assert(doc@.vertices =~= before.vertices.push(points.deep_view()));
            }
        } else if is_word(id.as_str(), &tex_word) {
            doc.tex_coords.push(points);
            proof {
                assert(doc@.tex_coords =~= before.tex_coords.push(points.deep_view()));
            }
        } else if is_word(id.as_str(), &face_word) {
            match parse_face(&points, current.clone(), doc.vertices.len(), doc.tex_coords.len()) {
                Ok(f) => {
                    doc.faces.push(f);
                    proof {
                        assert(doc@.faces =~= before.faces.push(f@));
                    }
                },
                Err(e) => {
                    proof {
                        lemma_mesh_error_stays(lines.deep_view(), i + 1, e);
                    }
                    return Err(e);
                },
            }
        } else if is_word(id.as_str(), &material_word) {
            let name = if points.len() > 0 {
                points[0].clone()
            } else {
                String::new()
            };
            doc.materials.push(name.clone());
            current = name;
            proof {
                assert(doc@.materials =~= before.materials.push(current@));
            }
        }
        i = i + 1;
    }
    proof {
        assert(lines.deep_view().take(lines.len() as int) =~= lines.deep_view());
        lemma_mesh_faces_in_range(lines.deep_view());
    }
    Ok(doc)
}

} // verus!
