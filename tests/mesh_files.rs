use raytracer::mtl::MaterialTemplateLibrary;
use raytracer::obj::{parse_face, parse_face_index, parse_obj, ObjError};

fn strings(v: &[&str]) -> Vec<String> {
    v.iter().map(|s| s.to_string()).collect()
}

#[test]
fn face_index_with_all_fields() {
    assert_eq!(parse_face_index("3/5/7"), Some((2, 4, 6)));
}

#[test]
fn face_index_missing_fields_count_as_one() {
    assert_eq!(parse_face_index("3"), Some((2, 0, 0)));
    assert_eq!(parse_face_index("3//7"), Some((2, 0, 6)));
    assert_eq!(parse_face_index("x/2"), Some((0, 1, 0)));
}

#[test]
fn face_index_zero_is_rejected() {
    assert_eq!(parse_face_index("0/1/1"), None);
    assert_eq!(parse_face_index("1/0"), None);
    assert_eq!(parse_face_index("1/1/0"), None);
}

#[test]
fn face_with_three_corners() {
    let points = strings(&["1/4", "2/5", "3/6", "9/9"]);
    let face = parse_face(&points, String::from("skin"), 3, 6).unwrap();
    assert_eq!(face.vertices, (0, 1, 2));
    assert_eq!(face.tex_coords, (3, 4, 5));
    assert_eq!(face.material, "skin");
}

#[test]
fn face_errors() {
    let m = || String::from("m");
    assert_eq!(parse_face(&strings(&["1/1", "2/2"]), m(), 3, 3).err(), Some(ObjError::MissingCorner));
    assert_eq!(parse_face(&strings(&["0/1", "1/1", "2/2"]), m(), 3, 3).err(), Some(ObjError::ZeroIndex));
    assert_eq!(
        parse_face(&strings(&["1/1", "2/2", "4/3"]), m(), 3, 3).err(),
        Some(ObjError::VertexOutOfRange)
    );
    assert_eq!(
        parse_face(&strings(&["1/1", "2/2", "3/4"]), m(), 3, 3).err(),
        Some(ObjError::TexCoordOutOfRange)
    );
}

#[test]
fn mesh_file_is_read_in_order() {
    let lines = strings(&[
        "# a comment",
        "v 0 0 0",
        "v 1 0 0",
        "v 0 1 0",
        "vt 0 0",
        "vt 1 0",
        "vt 0 1",
        "f 1/1 2/2 3/3",
        "usemtl hair",
        "f 3/3/1 2/2/1 1/1/1",
        "usemtl",
        "f 1/1 3/3 2/2",
    ]);
    let doc = parse_obj(&lines).unwrap();
    assert_eq!(doc.vertices.len(), 3);
    assert_eq!(doc.vertices[1], strings(&["1", "0", "0"]));
    assert_eq!(doc.tex_coords.len(), 3);
    assert_eq!(doc.tex_coords[2], strings(&["0", "1"]));
    assert_eq!(doc.faces.len(), 3);
    assert_eq!(doc.faces[0].material, "");
    assert_eq!(doc.faces[1].material, "hair");
    assert_eq!(doc.faces[1].vertices, (2, 1, 0));
    assert_eq!(doc.faces[2].material, "");
    assert_eq!(doc.materials, strings(&["hair", ""]));
}

#[test]
fn mesh_face_before_its_vertices_fails() {
    let lines = strings(&["vt 0 0", "f 1/1 1/1 1/1", "v 0 0 0"]);
    assert_eq!(parse_obj(&lines).err(), Some(ObjError::VertexOutOfRange));
}

#[test]
fn empty_mesh_file() {
    let doc = parse_obj(&Vec::new()).unwrap();
    assert!(doc.vertices.is_empty() && doc.faces.is_empty() && doc.materials.is_empty());
}

#[test]
fn material_library_maps_names_to_textures() {
    let lines = strings(&[
        "map_Kd default.png",
        "newmtl skin",
        "Kd 1 1 1",
        "map_Kd skin.png",
        "newmtl",
        "map_Kd skin2.png",
        "newmtl hair",
        "map_Kd",
        "map_Kd hair.png",
    ]);
    let lib = MaterialTemplateLibrary::read(&lines);
    assert_eq!(lib.get(&String::from("unnamed_mat")), Some(String::from("default.png")));
    assert_eq!(lib.get(&String::from("skin")), Some(String::from("skin2.png")));
    assert_eq!(lib.get(&String::from("hair")), Some(String::from("hair.png")));
    assert_eq!(lib.get(&String::from("eyes")), None);
}

#[test]
fn empty_material_library() {
    let lib = MaterialTemplateLibrary::read(&Vec::new());
    assert_eq!(lib.get(&String::from("unnamed_mat")), None);
}

#[test]
fn mesh_texture_index_past_the_list_fails() {
    let lines = strings(&["v 0 0 0", "v 1 0 0", "v 0 1 0", "vt 0 0", "f 1/1 2/1 3/2"]);
    assert_eq!(parse_obj(&lines).err(), Some(ObjError::TexCoordOutOfRange));
}
