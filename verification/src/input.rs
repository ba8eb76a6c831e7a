//! The input edge: reading a whole stream into the string the compiler is
//! handed. Nothing can be promised of what an outside stream yields, so
//! the contract of this edge is empty; all guarantees of the library
//! start at `Compiler::compile`, which takes the text as a value.

use vstd::prelude::*;

verus! {

/// Relies on std::io::Read::read_to_string: appends the whole stream to a
/// fresh String. Returns `None` when the stream fails or is not UTF-8.
#[verifier::external_body]
fn read_all<F: std::io::Read>(mut file: F) -> (r: Option<String>)
{
    let mut buffer = String::new();
    match file.read_to_string(&mut buffer) {
        Ok(_) => Some(buffer),
        Err(_) => None,
    }
}

/// Read a whole input stream into a string; `None` when reading fails.
pub fn read_to_string<F: std::io::Read>(file: F) -> (r: Option<String>)
{
    read_all(file)
}

} // verus!
