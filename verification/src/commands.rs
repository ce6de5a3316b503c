//! The checks that the user-facing commands make before they act.

use vstd::prelude::*;
use crate::models::IndexStatus;

verus! {

/// A folder can be indexed when it exists and is a directory; otherwise the
/// reason is given.
pub fn validate_folder(exists: bool, is_dir: bool) -> (r: Result<(), String>)
    ensures
        r is Ok <==> exists && is_dir,
        r matches Err(m) ==> (!exists ==> m@ == "Path does not exist"@) && (exists ==> m@
            == "Path is not a directory"@),
{
    if !exists {
        return Err(String::from_str("Path does not exist"));
    }
    if !is_dir {
        return Err(String::from_str("Path is not a directory"));
    }
    Ok(())
}

/// A scan can start only while no other is running.
pub fn check_not_running(status: &IndexStatus) -> (r: Result<(), String>)
    ensures
        r is Ok <==> !status.is_running,
        r matches Err(m) ==> m@ == "Indexing is already in progress"@,
{
    if status.is_running {
        return Err(String::from_str("Indexing is already in progress"));
    }
    Ok(())
}

/// A rescan needs at least one indexed folder.
pub fn check_roots_present(root_count: usize) -> (r: Result<(), String>)
    ensures
        r is Ok <==> root_count > 0,
        r matches Err(m) ==> m@ == "No indexed folders to scan"@,
{
    if root_count == 0 {
        return Err(String::from_str("No indexed folders to scan"));
    }
    Ok(())
}

} // verus!
