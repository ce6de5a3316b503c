//! Contents the database starts with.

use vstd::prelude::*;

verus! {

/// The exclusion patterns a new database starts with.
pub open spec fn default_exclusion_patterns() -> Seq<Seq<char>> {
    seq![
        "node_modules"@,
        ".git"@,
        "__pycache__"@,
        ".svn"@,
        "target"@,
        "dist"@,
        ".cache"@,
        ".tmp"@,
        "AppData\\Local\\Temp"@,
        "Windows\\System32"@,
        "Windows\\SysWOW64"@,
        "$Recycle.Bin"@,
        ".DS_Store"@,
    ]
}

/// The exclusion patterns a new database starts with.
pub fn default_exclusions() -> (r: Vec<String>)
    ensures
        r@.len() == default_exclusion_patterns().len(),
        forall|i: int| 0 <= i < r@.len() ==> #[trigger] r@[i]@ == default_exclusion_patterns()[i],
{
    let mut v: Vec<String> = Vec::new();
    v.push(String::from_str("node_modules"));
    v.push(String::from_str(".git"));
    v.push(String::from_str("__pycache__"));
    v.push(String::from_str(".svn"));
    v.push(String::from_str("target"));
    v.push(String::from_str("dist"));
    v.push(String::from_str(".cache"));
    v.push(String::from_str(".tmp"));
    v.push(String::from_str("AppData\\Local\\Temp"));
    v.push(String::from_str("Windows\\System32"));
    v.push(String::from_str("Windows\\SysWOW64"));
    v.push(String::from_str("$Recycle.Bin"));
    v.push(String::from_str(".DS_Store"));
    v
}

/// The defaults are inserted only into an empty exclusion table.
pub fn needs_default_exclusions(existing_count: i64) -> (r: bool)
    ensures
        r == (existing_count == 0),
{
    existing_count == 0
}

} // verus!
