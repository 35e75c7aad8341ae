//! The persisted project list: what a load answers when the store file does
//! not exist yet.  Reading and writing the file is the shell's work.

use vstd::prelude::*;

verus! {

/// The project list a load answers: the file's content when the store file
/// exists, and the empty list otherwise.
pub fn load_projects(file_content: Option<String>) -> (r: String)
    ensures
        file_content matches Some(d) ==> r == d,
        file_content is None ==> r@ == "[]"@,
{
    match file_content {
        Some(d) => d,
        None => String::from_str("[]"),
    }
}

} // verus!
