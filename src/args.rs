//! Checks on the paths named on the command line.
use vstd::prelude::*;

verus! {

/// Relies on `std::path::Path::exists`: whether the file system has something at
/// the path at the time of the call.
#[verifier::external_body]
fn path_exists(path: &str) -> (r: bool) {
    std::path::Path::new(path).exists()
}

/// Relies on `std::path::Path::is_dir`: whether the file system has a directory at
/// the path at the time of the call.
#[verifier::external_body]
fn path_is_dir(path: &str) -> (r: bool) {
    std::path::Path::new(path).is_dir()
}

/// Whether `s` is the single character `-`, which names standard input.
pub open spec fn is_stdin_marker(s: Seq<char>) -> bool {
    s == seq!['-']
}

/// Accepts `-` (standard input) or a path where something exists.
pub fn verify_file(filename: &str) -> (r: Result<String, String>)
    ensures
        match r {
            Ok(name) => name@ == filename@,
            Err(message) => message@ == "File not found"@ && !is_stdin_marker(filename@),
        },
        is_stdin_marker(filename@) ==> r is Ok,
{
    let stdin = filename.unicode_len() == 1 && filename.get_char(0) == '-';
    if stdin {
        assert(filename@ =~= seq!['-']);
    }
    if stdin || path_exists(filename) {
        Ok(String::from_str(filename))
    } else {
        Err(String::from_str("File not found"))
    }
}

/// Accepts a path where something exists.
pub fn verify_input_file(filename: &str) -> (r: Result<String, String>)
    ensures
        match r {
            Ok(name) => name@ == filename@,
            Err(message) => message@ == "File not found"@,
        },
{
    if path_exists(filename) {
        Ok(String::from_str(filename))
    } else {
        Err(String::from_str("File not found"))
    }
}

/// Accepts a path where a directory exists.
pub fn verify_path(path: &str) -> (r: Result<String, String>)
    ensures
        match r {
            Ok(name) => name@ == path@,
            Err(message) => message@ == "Path not found"@,
        },
{
    if path_exists(path) && path_is_dir(path) {
        Ok(String::from_str(path))
    } else {
        Err(String::from_str("Path not found"))
    }
}

} // verus!
