//! Where the binaries of deployed functions are kept.
use vstd::prelude::*;

verus! {

/// The directory of function binaries, relative to the server's working directory.
pub open spec fn binary_directory() -> Seq<char> {
    "functions"@
}

/// The file of the binary of `function_id`.
pub open spec fn binary_file(function_id: Seq<char>) -> Seq<char> {
    binary_directory() + "/"@ + function_id
}

/// The store of function binaries: one file per function, named by its id,
/// in the `functions` directory.
#[derive(Debug)]
pub struct BinaryRepository;

impl Default for BinaryRepository {
    fn default() -> (r: BinaryRepository)
        ensures
            r == BinaryRepository,
    {
        BinaryRepository
    }
}

impl BinaryRepository {
    pub fn new() -> (r: BinaryRepository)
        ensures
            r == BinaryRepository,
    {
        BinaryRepository
    }

    /// The directory that holds the binaries.
    pub fn directory(&self) -> (r: String)
        ensures
            r@ == binary_directory(),
    {
        String::from_str("functions")
    }

    /// The file that holds the binary of `function_id`.
    pub fn file_of(&self, function_id: &str) -> (r: String)
        ensures
            r@ == binary_file(function_id@),
    {
        String::from_str("functions").concat("/").concat(function_id)
    }
}

} // verus!
