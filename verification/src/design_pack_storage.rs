//! Design packs: one list in one index file, told apart by `packId`.

use crate::error::{outcome, StorageError};
use crate::index_file::{
    delete_one, deleted, find_one, found, list_all, listed, rewrite_outcome, save_one, saved, Kind,
};
use crate::text::texts;
use vstd::prelude::*;

verus! {

/// The directory of the design packs, below the data directory.
pub const DESIGN_PACKS_DIR: &'static str = "design-packs";

/// The index file of the design packs, in their directory.
pub const INDEX_FILE: &'static str = "packs.json";

/// The words for design packs.
pub open spec fn pack_kind() -> Kind {
    Kind {
        key: "packId",
        invalid: "pack",
        missing: "Pack must have a packId",
        absent: "Design pack",
        list: "design packs",
        one: "pack",
    }
}

/// The words for design packs.
pub fn packs() -> (kind: Kind)
    ensures
        kind == pack_kind(),
{
    Kind {
        key: "packId",
        invalid: "pack",
        missing: "Pack must have a packId",
        absent: "Design pack",
        list: "design packs",
        one: "pack",
    }
}

/// Lists all design packs: the index file as it is, `[]` where there is
/// none.
pub fn get_design_packs(stored: Option<String>) -> (text: String)
    ensures
        text@ == listed(texts(stored)),
        stored is None ==> text@ == "[]"@,
{
    list_all(stored)
}

/// Looks up the design pack `pack_id` and hands it back on one line.
pub fn get_design_pack(stored: Option<String>, pack_id: String) -> (pack: Result<
    String,
    StorageError,
>)
    ensures
        outcome(pack) == found(pack_kind(), texts(stored), pack_id@),
{
    find_one(&packs(), stored, pack_id)
}

/// Saves a design pack, new or known, and hands back the new index file.
pub fn save_design_pack(stored: Option<String>, pack: String) -> (next: Result<
    String,
    StorageError,
>)
    ensures
        outcome(next) == saved(pack_kind(), texts(stored), pack@),
{
    save_one(&packs(), stored, pack.as_str())
}

/// Deletes the design pack `pack_id` and hands back the new index file;
/// `None` where there is no index file, and so nothing to do.
pub fn delete_design_pack(stored: Option<String>, pack_id: String) -> (next: Result<
    Option<String>,
    StorageError,
>)
    ensures
        rewrite_outcome(next) == deleted(pack_kind(), texts(stored), pack_id@),
        stored is None ==> next == Ok::<Option<String>, StorageError>(None),
{
    delete_one(&packs(), stored, pack_id.as_str())
}

} // verus!
