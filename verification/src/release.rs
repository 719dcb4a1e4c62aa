//! What a release document declares: one checksummed entry per file, and
//! the releases a caller tracks.

use vstd::prelude::*;

use crate::Hashes;

verus! {

/// One entry of a release document: a path-like name and the digests the
/// document declares for that file.
#[derive(Clone, Debug)]
pub struct ReleaseContent {
    pub name: String,
    pub hashes: Hashes,
}

/// One tracked release: where its index files live, the content entries of
/// its verified release document, and the base names the caller wants.
#[derive(Clone, Debug)]
pub struct Release {
    pub dists_url: String,
    pub contents: Vec<ReleaseContent>,
    pub file_names: Vec<String>,
}

/// The position of the last entry carrying `name`; negative when none does.
/// The scan keeps the last match, so the last entry wins.
pub open spec fn last_index_with_name(contents: Seq<ReleaseContent>, name: Seq<char>) -> int
    decreases contents.len(),
{
    if contents.len() == 0 {
        -1
    } else if contents.last().name@ == name {
        contents.len() - 1
    } else {
        last_index_with_name(contents.drop_last(), name)
    }
}

/// Whether some entry carries `name`.
pub open spec fn has_name(contents: Seq<ReleaseContent>, name: Seq<char>) -> bool {
    last_index_with_name(contents, name) >= 0
}

/// The digests the document declares for `name`: those of the last entry
/// carrying it.
pub open spec fn hashes_for(contents: Seq<ReleaseContent>, name: Seq<char>) -> Hashes
    recommends
        has_name(contents, name),
{
    contents[last_index_with_name(contents, name)].hashes
}

/// The bounds of `last_index_with_name`: within range when found, and then
/// the entry there carries the name.
pub proof fn lemma_last_index_with_name(contents: Seq<ReleaseContent>, name: Seq<char>)
    ensures
        -1 <= last_index_with_name(contents, name) < contents.len(),
        last_index_with_name(contents, name) >= 0 ==> contents[last_index_with_name(
            contents,
            name,
        )].name@ == name,
    decreases contents.len(),
{
    if contents.len() > 0 && contents.last().name@ != name {
        lemma_last_index_with_name(contents.drop_last(), name);
    }
}

} // verus!
