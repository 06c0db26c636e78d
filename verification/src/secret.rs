//! Names of files that hold secrets.

use crate::text::{decimal, decimal_spec};
use vstd::prelude::*;

verus! {

/// The name of the temporary file that a secret is written to before it takes
/// the place of `file_name`: beside it, and of this process alone.
pub fn temp_beside(file_name: &str, process: u32) -> (name: String)
    ensures
        name@ == file_name@ + "."@ + decimal_spec(process as nat) + ".tmp"@,
{
    let mut name = file_name.to_owned();
    name.push_str(".");
    name.push_str(decimal(process as u128).as_str());
    name.push_str(".tmp");
    name
}

} // verus!
