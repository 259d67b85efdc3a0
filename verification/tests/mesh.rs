use scadline::mesh::{load_stl, mesh_of_stl, Mesh, StlFile};

const TRIANGLE: &str = "solid model
facet normal 0 0 1
  outer loop
    vertex 0 0 0
    vertex 1 0 0
    vertex 0 1.5 0
  endloop
endfacet
facet normal 0 0 1
  outer loop
    vertex 1 0 0
    vertex 1 -2 0
    vertex 0 1.5 0
  endloop
endfacet
endsolid model
";

fn refusal(file: StlFile) -> String {
    match load_stl(file) {
        Err(message) => message,
        Ok(_) => panic!("expected a refusal"),
    }
}

fn corner(x: f32, y: f32, z: f32) -> [u32; 3] {
    [x.to_bits(), y.to_bits(), z.to_bits()]
}

#[test]
fn text_files_are_read() {
    let mesh = load_stl(StlFile::Bytes(TRIANGLE.as_bytes().to_vec())).expect("mesh");
    assert_eq!(
        mesh.vertices,
        vec![
            corner(0.0, 0.0, 0.0),
            corner(1.0, 0.0, 0.0),
            corner(0.0, 1.5, 0.0),
            corner(1.0, -2.0, 0.0)
        ]
    );
    assert_eq!(mesh.triangles, vec![[0, 1, 2], [1, 3, 2]]);
}

#[test]
fn binary_files_are_read() {
    let mut bytes = vec![0; 80];
    bytes.extend_from_slice(&1_u32.to_le_bytes());
    for value in [
        0.0_f32, 0.0, 1.0, 1.0, 2.0, 3.0, 4.0, 5.0, 6.0, 7.0, 8.0, 9.5,
    ] {
        bytes.extend_from_slice(&value.to_le_bytes());
    }
    bytes.extend_from_slice(&[0, 0]);
    let mesh = load_stl(StlFile::Bytes(bytes)).expect("mesh");
    assert_eq!(
        mesh.vertices,
        vec![
            corner(1.0, 2.0, 3.0),
            corner(4.0, 5.0, 6.0),
            corner(7.0, 8.0, 9.5)
        ]
    );
    assert_eq!(mesh.triangles, vec![[0, 1, 2]]);
}

#[test]
fn models_without_faces_are_refused() {
    let message = "OpenSCADの出力に面がありません";
    assert_eq!(
        refusal(StlFile::Bytes(b"solid empty\nendsolid empty\n".to_vec())),
        message
    );
    assert_eq!(Mesh::new(vec![], vec![[0, 0, 0]]).err().as_deref(), Some(message));
    assert_eq!(Mesh::new(vec![[0; 3]], vec![]).err().as_deref(), Some(message));
    assert_eq!(mesh_of_stl(Ok((vec![], vec![]))).err().as_deref(), Some(message));
}

#[test]
fn unreadable_files_are_refused() {
    assert_eq!(
        refusal(StlFile::Unopened("why".to_owned())),
        "STLを開けません: why"
    );
    assert_eq!(
        refusal(StlFile::Unread("why".to_owned())),
        "STLの解析に失敗: why"
    );
    assert_eq!(
        refusal(StlFile::Bytes(b"solid cut\n".to_vec())),
        "STLの解析に失敗: EOF while expecting facet or endsolid."
    );
    assert_eq!(
        mesh_of_stl(Err("why".to_owned())).err().as_deref(),
        Some("STLの解析に失敗: why")
    );
    assert!(refusal(StlFile::Bytes(Vec::new())).starts_with("STLの解析に失敗: "));
}
