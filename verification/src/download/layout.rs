use crate::text::{decimal, push_decimal};
use vstd::prelude::*;
use vstd::string::*;

verus! {

/// The name that stands in for an output path without a file name.
pub open spec fn default_file_name() -> Seq<char> {
    "download.bin"@
}

/// The directory that stands in for an output path without a parent.
pub open spec fn default_parent() -> Seq<char> {
    "."@
}

/// The name of the hidden directory that holds the part files of the output
/// file called `file_name`.
pub open spec fn chunk_dir_name(file_name: Option<Seq<char>>) -> Seq<char> {
    "."@ + match file_name {
        Some(name) => name,
        None => default_file_name(),
    } + ".chunks"@
}

/// The directory in which the hidden directory stands.
pub open spec fn chunk_dir_parent(parent: Option<Seq<char>>) -> Seq<char> {
    match parent {
        Some(dir) => dir,
        None => default_parent(),
    }
}

/// The name of the part file of chunk `index`.
pub open spec fn part_file_text(index: usize) -> Seq<char> {
    "chunk-"@ + decimal(index as nat) + ".part"@
}

/// The path of the file into which the parts are merged before it takes the
/// place of the output.
pub open spec fn merge_temp_text(output: Seq<char>) -> Seq<char> {
    output + ".download_tmp"@
}

/// The view of a text that may be there.
pub open spec fn text_view(text: Option<&str>) -> Option<Seq<char>> {
    match text {
        Some(t) => Some(t@),
        None => None,
    }
}

/// Where the part files of one output live: a hidden directory `name` in the
/// directory `parent`.
#[derive(Debug, PartialEq, Eq)]
pub struct ChunkDir {
    pub parent: String,
    pub name: String,
}

/// The place of the part files for an output path, from that path's parent
/// directory and file name, each where the path has one.
pub fn chunk_dir_for(parent: Option<&str>, file_name: Option<&str>) -> (dir: ChunkDir)
    ensures
        dir.parent@ == chunk_dir_parent(text_view(parent)),
        dir.name@ == chunk_dir_name(text_view(file_name)),
{
    let parent_text = match parent {
        Some(dir) => String::from_str(dir),
        None => String::from_str("."),
    };
    let mut name = String::from_str(".");
    match file_name {
        Some(text) => name.append(text),
        None => name.append("download.bin"),
    }
    name.append(".chunks");
    ChunkDir { parent: parent_text, name }
}

/// The name of the part file of chunk `index`.
pub fn part_file_name(index: usize) -> (name: String)
    ensures
        name@ == part_file_text(index),
{
    let mut name = String::from_str("chunk-");
    push_decimal(&mut name, index as u64);
    name.append(".part");
    name
}

/// The path of the merge's temporary file for `output`.
pub fn merge_temp_path(output: &str) -> (path: String)
    ensures
        path@ == merge_temp_text(output@),
{
    let mut path = String::from_str(output);
    path.append(".download_tmp");
    path
}

} // verus!
