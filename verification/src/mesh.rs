//! Meshes of triangles, and how they are read from STL files.

use vstd::prelude::*;

verus! {

/// A mesh of triangles.
pub struct Mesh {
    /// The corners: for each of its three coordinates, the bits of the single-precision number.
    pub vertices: Vec<[u32; 3]>,
    /// The triangles, as places in `vertices`.
    pub triangles: Vec<[usize; 3]>,
}

/// The message that refuses a model without faces.
pub open spec fn no_faces() -> Seq<char> {
    "OpenSCADの出力に面がありません"@
}

/// Whether each corner of each triangle is one of `count` vertices.
pub open spec fn corners_exist(triangles: Seq<[usize; 3]>, count: nat) -> bool {
    forall|i: int, k: int|
        0 <= i < triangles.len() && 0 <= k < 3 ==> (#[trigger] triangles[i]@[k]) < count
}

impl Mesh {
    /// The mesh can be drawn: it has triangles, and their corners exist.
    pub open spec fn wf(self) -> bool {
        &&& self.vertices@.len() > 0
        &&& self.triangles@.len() > 0
        &&& corners_exist(self.triangles@, self.vertices@.len())
    }

    /// A mesh of these vertices and triangles, unless there are none.
    pub fn new(vertices: Vec<[u32; 3]>, triangles: Vec<[usize; 3]>) -> (mesh: Result<Mesh, String>)
        ensures
            match mesh {
                Ok(mesh) => {
                    &&& vertices@.len() > 0
                    &&& triangles@.len() > 0
                    &&& mesh.vertices@ == vertices@
                    &&& mesh.triangles@ == triangles@
                },
                Err(message) => {
                    &&& vertices@.len() == 0 || triangles@.len() == 0
                    &&& message@ == no_faces()
                },
            },
    {
        if vertices.len() == 0 || triangles.len() == 0 {
            return Err("OpenSCADの出力に面がありません".to_owned());
        }
        Ok(Mesh { vertices, triangles })
    }
}

/// What `stl_io::read_stl` makes of the bytes of an STL file, in text or binary form: the vertices
/// as the bits of their coordinates, each vertex once, and the faces as places among them; or the
/// text of its error.
pub uninterp spec fn stl_content(bytes: Seq<u8>) -> Result<
    (Seq<[u32; 3]>, Seq<[usize; 3]>),
    Seq<char>,
>;

/// Calls `stl_io::read_stl` on bytes in memory. The result is a function of the bytes. Each face
/// refers to vertices that are in the list: a place is handed out only for a vertex that is there
/// or that is appended at once. The error is handed on as its text.
#[verifier::external_body]
fn read_stl(bytes: &Vec<u8>) -> (content: Result<(Vec<[u32; 3]>, Vec<[usize; 3]>), String>)
    ensures
        match content {
            Ok(content) => {
                &&& stl_content(bytes@) == Ok::<_, Seq<char>>((content.0@, content.1@))
                &&& corners_exist(content.1@, content.0@.len())
            },
            Err(error) => stl_content(bytes@) == Err::<(Seq<[u32; 3]>, Seq<[usize; 3]>), _>(error@),
        },
{
    let mesh = stl_io::read_stl(&mut std::io::Cursor::new(bytes)).map_err(|error| error.to_string())?;
    let vertices = mesh.vertices.iter().map(
        |vertex| [vertex[0].to_bits(), vertex[1].to_bits(), vertex[2].to_bits()],
    ).collect();
    let faces = mesh.faces.iter().map(|face| face.vertices).collect();
    Ok((vertices, faces))
}

/// An STL file, as far as it could be read.
pub enum StlFile {
    /// It could not be opened, for this reason.
    Unopened(String),
    /// It could be opened but not read, for this reason.
    Unread(String),
    /// Its content.
    Bytes(Vec<u8>),
}

/// Whether `mesh` is what `content`, the vertices and faces of an STL file or the text of an
/// error, makes.
pub open spec fn is_mesh_of(
    content: Result<(Seq<[u32; 3]>, Seq<[usize; 3]>), Seq<char>>,
    mesh: Result<Mesh, String>,
) -> bool {
    match content {
        Ok((vertices, faces)) => if vertices.len() == 0 || faces.len() == 0 {
            mesh matches Err(message) && message@ == no_faces()
        } else {
            mesh matches Ok(mesh) && mesh.vertices@ == vertices && mesh.triangles@ == faces
        },
        Err(error) => mesh matches Err(message) && message@ == "STLの解析に失敗: "@ + error,
    }
}

/// Whether `mesh` is what reading an STL file gives.
pub open spec fn is_loaded(file: StlFile, mesh: Result<Mesh, String>) -> bool {
    match file {
        StlFile::Unopened(error) => mesh matches Err(message) && message@ == "STLを開けません: "@
            + error@,
        StlFile::Unread(error) => mesh matches Err(message) && message@ == "STLの解析に失敗: "@
            + error@,
        StlFile::Bytes(bytes) => is_mesh_of(stl_content(bytes@), mesh),
    }
}

/// The mesh of the vertices and faces of an STL file, given that it could be read as one.
pub fn mesh_of_stl(content: Result<(Vec<[u32; 3]>, Vec<[usize; 3]>), String>) -> (mesh: Result<
    Mesh,
    String,
>)
    ensures
        match content {
            Ok(content) => is_mesh_of(Ok((content.0@, content.1@)), mesh),
            Err(error) => is_mesh_of(Err(error@), mesh),
        },
{
    match content {
        Ok((vertices, faces)) => Mesh::new(vertices, faces),
        Err(error) => Err("STLの解析に失敗: ".to_owned().concat(error.as_str())),
    }
}

/// Reads a mesh from an STL file.
pub fn load_stl(file: StlFile) -> (mesh: Result<Mesh, String>)
    ensures
        is_loaded(file, mesh),
        mesh matches Ok(mesh) ==> mesh.wf(),
{
    match file {
        StlFile::Unopened(error) => Err("STLを開けません: ".to_owned().concat(error.as_str())),
        StlFile::Unread(error) => Err("STLの解析に失敗: ".to_owned().concat(error.as_str())),
        StlFile::Bytes(bytes) => mesh_of_stl(read_stl(&bytes)),
    }
}

/// The content of an STL file makes a mesh if, and only if, it has vertices and faces, and then
/// just those; a file without them, and one that is not STL, is refused with a message that tells
/// which.
pub proof fn law_mesh_is_the_content(
    content: Result<(Seq<[u32; 3]>, Seq<[usize; 3]>), Seq<char>>,
    mesh: Result<Mesh, String>,
)
    requires
        is_mesh_of(content, mesh),
    ensures
        match content {
            Ok((vertices, faces)) => match mesh {
                Ok(mesh) => {
                    &&& vertices.len() > 0 && faces.len() > 0
                    &&& mesh.vertices@ == vertices
                    &&& mesh.triangles@ == faces
                },
                Err(message) => {
                    &&& vertices.len() == 0 || faces.len() == 0
                    &&& message@ == "OpenSCADの出力に面がありません"@
                },
            },
            Err(error) => mesh matches Err(message) && message@ == "STLの解析に失敗: "@ + error,
        },
{
}

/// What is read from a file is the mesh of its content; a file that could not be opened, or not be
/// read, is refused with a message that tells which, and why.
pub proof fn law_file_gives_its_content(file: StlFile, mesh: Result<Mesh, String>)
    requires
        is_loaded(file, mesh),
    ensures
        match file {
            StlFile::Unopened(error) => mesh matches Err(message) && message@
                == "STLを開けません: "@ + error@,
            StlFile::Unread(error) => mesh matches Err(message) && message@ == "STLの解析に失敗: "@
                + error@,
            StlFile::Bytes(bytes) => {
                &&& mesh is Ok <==> (stl_content(bytes@) matches Ok((vertices, faces))
                    && vertices.len() > 0 && faces.len() > 0)
                &&& mesh matches Ok(mesh) ==> stl_content(bytes@) == Ok::<_, Seq<char>>(
                    (mesh.vertices@, mesh.triangles@),
                )
            },
        },
{
}

/// Reading the same bytes again gives the same mesh.
pub proof fn law_same_bytes_give_the_same_mesh(a: Vec<u8>, b: Vec<u8>, mesh: Mesh, other: Mesh)
    requires
        a@ == b@,
        is_loaded(StlFile::Bytes(a), Ok(mesh)),
        is_loaded(StlFile::Bytes(b), Ok(other)),
    ensures
        mesh.vertices@ == other.vertices@,
        mesh.triangles@ == other.triangles@,
{
}

} // verus!
