//! Meshes exported from Blender: grouping them by file and flattening them into one map.
use vstd::prelude::*;
use crate::export::{
    duplicate_names_of, file_lists, flatten_owned, flatten_refs, flattened, item_files,
    keep_duplicates, lemma_duplicates_of_names, name_file_pairs, names_to_files,
};
use crate::mesh::BlenderMesh;
use crate::str_map::StrMap;

verus! {

/// An error when flattening the meshes exported across several files into one map of mesh name
/// to mesh data.
#[derive(Debug)]
pub enum FlattenMeshError {
    /// Some mesh names appear in more than one file.
    DuplicateMeshNamesAcrossFiles {
        /// Each duplicated mesh name with the files that it appears in.
        duplicates: StrMap<Vec<String>>,
    },
}

/// Fail with the names that appear in more than one file, if there are any.
pub fn validate_no_duplicates(duplicate_meshes: StrMap<Vec<String>>) -> (r: Result<(), FlattenMeshError>)
    ensures
        ({
            let d = Map::new(
                |n: Seq<char>| file_lists(duplicate_meshes).contains_key(n) && file_lists(
                    duplicate_meshes,
                )[n].len() > 1,
                |n: Seq<char>| file_lists(duplicate_meshes)[n],
            );
            match r {
                Ok(()) => d == Map::<Seq<char>, Seq<Seq<char>>>::empty(),
                Err(FlattenMeshError::DuplicateMeshNamesAcrossFiles { duplicates }) => file_lists(
                    duplicates,
                ) == d && d != Map::<Seq<char>, Seq<Seq<char>>>::empty(),
            }
        }),
{
    let duplicates = keep_duplicates(duplicate_meshes);
    let n = duplicates.len();
    proof {
        crate::export::lemma_empty_iff_no_entries(duplicates);
    }
    if n > 0 {
        return Err(FlattenMeshError::DuplicateMeshNamesAcrossFiles { duplicates });
    }
    Ok(())
}

/// Flatten the meshes of all of the files into one map of mesh name to mesh, failing when a mesh
/// name appears in two or more files.
pub fn flatten_exported_meshes_owned(meshes_by_filename: StrMap<StrMap<BlenderMesh>>) -> (r: Result<
    StrMap<BlenderMesh>,
    FlattenMeshError,
>)
    ensures
        ({
            let pairs = name_file_pairs(meshes_by_filename.entry_seq());
            match r {
                Ok(m) => duplicate_names_of(pairs) == Map::<Seq<char>, Seq<Seq<char>>>::empty() && m.contents() == flattened(
                    meshes_by_filename.entry_seq(),
                ),
                Err(FlattenMeshError::DuplicateMeshNamesAcrossFiles { duplicates }) => file_lists(
                    duplicates,
                ) == duplicate_names_of(pairs) && duplicate_names_of(pairs) != Map::<
                    Seq<char>,
                    Seq<Seq<char>>,
                >::empty(),
            }
        }),
{
    let names = item_files(&meshes_by_filename);
    proof {
        lemma_duplicates_of_names(name_file_pairs(meshes_by_filename.entry_seq()));
    }
    match validate_no_duplicates(names) {
        Ok(()) => Ok(flatten_owned(meshes_by_filename)),
        Err(e) => Err(e),
    }
}

/// Flatten the meshes of all of the files into one map of mesh name to mesh reference, failing
/// when a mesh name appears in two or more files.
pub fn flatten_exported_meshes<'a>(meshes_by_filename: &'a StrMap<StrMap<BlenderMesh>>) -> (r: Result<
    StrMap<&'a BlenderMesh>,
    FlattenMeshError,
>)
    ensures
        ({
            let pairs = name_file_pairs(meshes_by_filename.entry_seq());
            let fl = flattened(meshes_by_filename.entry_seq());
            match r {
                Ok(m) => duplicate_names_of(pairs) == Map::<Seq<char>, Seq<Seq<char>>>::empty() && (forall|n: Seq<char>| #[trigger]
                    m.contents().contains_key(n) == fl.contains_key(n)) && (forall|n: Seq<char>| #[trigger]
                    m.contents().contains_key(n) ==> *m.contents()[n] == fl[n]),
                Err(FlattenMeshError::DuplicateMeshNamesAcrossFiles { duplicates }) => file_lists(
                    duplicates,
                ) == duplicate_names_of(pairs) && duplicate_names_of(pairs) != Map::<
                    Seq<char>,
                    Seq<Seq<char>>,
                >::empty(),
            }
        }),
{
    let names = item_files(meshes_by_filename);
    proof {
        lemma_duplicates_of_names(name_file_pairs(meshes_by_filename.entry_seq()));
    }
    match validate_no_duplicates(names) {
        Ok(()) => Ok(flatten_refs(meshes_by_filename)),
        Err(e) => Err(e),
    }
}

} // verus!
