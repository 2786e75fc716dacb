//! Where the settings files under the state directory keep their temporary and backup copies.
use vstd::prelude::*;

use crate::retroarch_config::{file_name, path_file_name};
use crate::text::push_str;

verus! {

/// What `Path::with_file_name` gives for a path and a new file name, as text.
pub uninterp spec fn path_with_file_name(path: Seq<char>, name: Seq<char>) -> Seq<char>;

/// `std::path::Path::with_file_name`: the path with its last component replaced by `name`.
#[verifier::external_body]
fn with_file_name(path: &str, name: &str) -> (r: String)
    ensures
        r@ == path_with_file_name(path@, name@),
{
    std::path::Path::new(path).with_file_name(name).to_string_lossy().into_owned()
}

/// `path` with `suffix` appended to its whole file name.
pub open spec fn sibling_spec(path: Seq<char>, suffix: Seq<char>) -> Seq<char> {
    let name = match path_file_name(path) {
        Some(n) => n,
        None => Seq::empty(),
    };
    path_with_file_name(path, name + suffix)
}

/// `path` with `suffix` appended to its file name: `power.json` gives `power.json.bak`, and an
/// extensionless `current_game` gives `current_game.bak` rather than losing its name.
pub fn sibling(path: &str, suffix: &str) -> (r: String)
    ensures
        r@ == sibling_spec(path@, suffix@),
{
    let mut name = match file_name(path) {
        Some(n) => n,
        None => String::new(),
    };
    push_str(&mut name, suffix);
    with_file_name(path, name.as_str())
}

} // verus!
