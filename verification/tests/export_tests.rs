use landon::export::{armature_frames_from_blender_stdout, group_by_filename, mesh_frames_from_blender_stdout};
use landon::mesh::export::{flatten_exported_meshes_owned, validate_no_duplicates, FlattenMeshError};
use landon::str_map::StrMap;

#[test]
fn frames_are_cut_into_file_name_and_json() {
    let stdout = "some blender output\nSTART_MESH_JSON /path/to/file.blend my_mesh\r\n{\"a\":\n1}\nEND_MESH_JSON /path/to/file.blend my_mesh\nSTART_MESH_JSON /other.blend cube\n{}\nEND_MESH_JSON /other.blend cube\n";
    let frames = mesh_frames_from_blender_stdout(stdout.as_bytes());
    assert_eq!(frames.len(), 2);
    assert_eq!(frames[0].filename, b"/path/to/file.blend".to_vec());
    assert_eq!(frames[0].name, b"my_mesh".to_vec());
    assert_eq!(frames[0].json, b"{\"a\":1}".to_vec());
    assert_eq!(frames[1].filename, b"/other.blend".to_vec());
    assert_eq!(frames[1].name, b"cube".to_vec());
    assert_eq!(frames[1].json, b"{}".to_vec());
}

#[test]
fn no_frames_in_plain_output() {
    assert!(mesh_frames_from_blender_stdout(b"nothing exported here").is_empty());
}

fn items() -> Vec<(String, String, u32)> {
    vec![
        ("a.blend".to_string(), "one".to_string(), 1),
        ("a.blend".to_string(), "two".to_string(), 2),
        ("b.blend".to_string(), "three".to_string(), 3),
    ]
}

#[test]
fn meshes_of_a_file_are_grouped_together() {
    let grouped = group_by_filename(items());
    let a = grouped.get(&"a.blend".to_string()).unwrap();
    assert_eq!(a.len(), 2);
    assert_eq!(a.get(&"two".to_string()), Some(&2));
    assert_eq!(a.get(&"one".to_string()), Some(&1));
}

#[test]
fn flattening_distinct_names_succeeds() {
    let grouped = group_by_filename(items());
    let flat = match flatten_exported_meshes_owned_u32(grouped) {
        Ok(m) => m,
        Err(_) => unreachable!(),
    };
    assert_eq!(flat.len(), 3);
    assert_eq!(flat.get(&"three".to_string()), Some(&3));
}

fn flatten_exported_meshes_owned_u32(by_file: StrMap<StrMap<u32>>) -> Result<StrMap<u32>, ()> {
    let names = landon::export::item_files(&by_file);
    let duplicates = landon::export::keep_duplicates(names);
    if duplicates.len() > 0 {
        return Err(());
    }
    Ok(landon::export::flatten_owned(by_file))
}

#[test]
fn duplicate_mesh_names_are_an_error() {
    let mut by_file = StrMap::new();
    let mut a = StrMap::new();
    a.insert("cube".to_string(), landon::mesh::BlenderMesh::default());
    let mut b = StrMap::new();
    b.insert("cube".to_string(), landon::mesh::BlenderMesh::default());
    b.insert("sphere".to_string(), landon::mesh::BlenderMesh::default());
    by_file.insert("a.blend".to_string(), a);
    by_file.insert("b.blend".to_string(), b);
    match flatten_exported_meshes_owned(by_file) {
        Err(FlattenMeshError::DuplicateMeshNamesAcrossFiles { duplicates }) => {
            assert_eq!(duplicates.len(), 1);
            assert_eq!(
                duplicates.get(&"cube".to_string()),
                Some(&vec!["a.blend".to_string(), "b.blend".to_string()])
            );
        }
        Ok(_) => unreachable!(),
    }
}

#[test]
fn no_duplicates_is_ok() {
    let mut names = StrMap::new();
    names.insert("cube".to_string(), vec!["a.blend".to_string()]);
    assert!(validate_no_duplicates(names).is_ok());
}

#[test]
fn every_armature_of_a_file_is_kept() {
    let stdout = "START_ARMATURE_JSON f.blend A\n{\"a\":1}\nEND_ARMATURE_JSON f.blend A\nSTART_ARMATURE_JSON f.blend B\n{\"b\":2}\nEND_ARMATURE_JSON f.blend B\n";
    let items: Vec<(String, String, Vec<u8>)> = armature_frames_from_blender_stdout(stdout.as_bytes())
        .into_iter()
        .map(|f| (String::from_utf8(f.filename).unwrap(), String::from_utf8(f.name).unwrap(), f.json))
        .collect();
    let grouped = group_by_filename(items);
    let f = grouped.get(&"f.blend".to_string()).unwrap();
    assert_eq!(f.len(), 2);
    assert_eq!(f.get(&"A".to_string()), Some(&b"{\"a\":1}".to_vec()));
    assert_eq!(f.get(&"B".to_string()), Some(&b"{\"b\":2}".to_vec()));
}
