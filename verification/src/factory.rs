use vstd::prelude::*;

verus! {

/// A table-of-contents file format the player can read.
#[derive(Clone, Copy, Debug, PartialEq, Eq, Structural)]
pub enum Format {
    MKVMergeText,
}

/// Where the known table-of-contents formats are looked up.
pub struct Factory {}

impl Factory {
    /// The file extensions of the formats a reader exists for, each
    /// with its format.
    pub fn get_extensions() -> (r: Vec<(&'static str, Format)>)
        ensures
            r@.len() == 1,
            r@[0].1 == Format::MKVMergeText,
            (r@[0].0)@ == "txt"@,
    {
        let mut result: Vec<(&'static str, Format)> = Vec::new();
        result.push(("txt", Format::MKVMergeText));
        result
    }
}

} // verus!
