//! Names of the files that a write goes through before it replaces its target.

use crate::text::{concat3, decimal, decimal_digits};
use vstd::prelude::*;
use vstd::string::StringExecFns;

verus! {

/// The name of the temporary file beside a target: hidden, and marked with the
/// process and a running number.
pub open spec fn temp_name(file_name: Option<Seq<char>>, process: u32, id: u64) -> Seq<char> {
    "."@ + (match file_name {
        Some(name) => name,
        None => "atomic-write"@,
    }) + ".tmp-"@ + decimal_digits(process as nat) + "-"@ + decimal_digits(id as nat)
}

/// The name of the temporary file beside a target.
pub fn temp_file_name(file_name: Option<&str>, process: u32, id: u64) -> (result: String)
    ensures
        result@ == temp_name(
            match file_name {
                Some(name) => Some(name@),
                None => None,
            },
            process,
            id,
        ),
{
    let base = match file_name {
        Some(name) => name,
        None => "atomic-write",
    };
    let process_text = decimal(process as u64);
    let id_text = decimal(id);
    let mut result = concat3(".", base, ".tmp-");
    result.append(process_text.as_str());
    result.append("-");
    result.append(id_text.as_str());
    result
}

/// Two writes of one process never share a temporary file: files of different numbers have
/// different names.
pub proof fn temporary_files_are_kept_apart(
    file_name: Option<Seq<char>>,
    process: u32,
    a: u64,
    b: u64,
)
    requires
        temp_name(file_name, process, a) == temp_name(file_name, process, b),
    ensures
        a == b,
{
    let before = "."@ + (match file_name {
        Some(name) => name,
        None => "atomic-write"@,
    }) + ".tmp-"@ + decimal_digits(process as nat) + "-"@;
    let first = temp_name(file_name, process, a);
    let second = temp_name(file_name, process, b);
    assert(first.skip(before.len() as int) =~= decimal_digits(a as nat));
    assert(second.skip(before.len() as int) =~= decimal_digits(b as nat));
    crate::text::numbers_have_texts_of_their_own(a as nat, b as nat);
}

/// A temporary file is hidden and lies under the name of its target.
pub proof fn temporary_files_are_hidden(name: Seq<char>, process: u32, id: u64)
    ensures
        temp_name(Some(name), process, id)[0] == '.',
        temp_name(Some(name), process, id).subrange(1, 1 + name.len() as int) == name,
{
    reveal_strlit(".");
    assert(temp_name(Some(name), process, id).subrange(1, 1 + name.len() as int) =~= name);
}

} // verus!
