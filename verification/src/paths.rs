//! Where runs are kept.

use vstd::prelude::*;

verus! {

/// The file that holds the weights of a run.
pub open spec fn weights_file() -> Seq<char> {
    "model.safetensors"@
}

/// What `Path::join` of std makes of a path and another one, as text. It goes by the
/// path rules of the platform that the program is built for.
pub uninterp spec fn joined_path(base: Seq<char>, part: Seq<char>) -> Seq<char>;

/// `Path::join` of std, whose result depends on the two paths alone: which character
/// stands between them, and what becomes of `base` where `part` is a path from the root,
/// is the platform's affair and is not said.
#[verifier::external_body]
fn std_path_join(base: &str, part: &str) -> (result: String)
    ensures
        result@ == joined_path(base@, part@),
{
    std::path::Path::new(base).join(part).to_string_lossy().into_owned()
}

/// The directory of a run.
pub fn run_directory(output_dir: &str, name: &str) -> (result: String)
    ensures
        result@ == joined_path(output_dir@, name@),
{
    std_path_join(output_dir, name)
}

/// The path of the weights of a run.
pub open spec fn weights_path(output_dir: Seq<char>, name: Seq<char>) -> Seq<char> {
    joined_path(joined_path(output_dir, name), weights_file())
}

/// The path of the weights of a run.
pub fn checkpoint_file(output_dir: &str, name: &str) -> (result: String)
    ensures
        result@ == weights_path(output_dir@, name@),
{
    let directory = run_directory(output_dir, name);
    std_path_join(directory.as_str(), "model.safetensors")
}

} // verus!
