//! The label that describes where the logs come from.

use vstd::prelude::*;

use crate::text::{decimal, push_decimal, push_str_chars};

verus! {

/// What `Path::file_name` gives for a path text, as text (lossily converted).
pub uninterp spec fn file_name_of(path: Seq<char>) -> Option<Seq<char>>;

/// Calls `std::path::Path::file_name` and converts the name to a `String`
/// (lossily); the outcome is named by `file_name_of`.
#[verifier::external_body]
fn path_file_name(path: &str) -> (r: Option<String>)
    ensures
        match r {
            Some(n) => file_name_of(path@) == Some(n@),
            None => file_name_of(path@) is None,
        },
{
    std::path::Path::new(path).file_name().map(|n| n.to_string_lossy().into_owned())
}

/// The source label: `stdin` or `demo` without files (depending on whether
/// standard input is a terminal), `file: <name>` for one file (its whole path
/// when it has no file name), `<n> files` for several.
pub open spec fn source_label_spec(files: Seq<Seq<char>>, stdin_is_terminal: bool) -> Seq<char> {
    if files.len() == 0 {
        if stdin_is_terminal {
            "demo"@
        } else {
            "stdin"@
        }
    } else if files.len() == 1 {
        "file: "@ + match file_name_of(files[0]) {
            Some(n) => n,
            None => files[0],
        }
    } else {
        decimal(files.len()) + " files"@
    }
}

/// Derives a human-readable source label from the files given and whether
/// standard input is a terminal.
pub fn source_label(files: &Vec<String>, stdin_is_terminal: bool) -> (r: String)
    ensures
        r@ == source_label_spec(files@.map_values(|f: String| f@), stdin_is_terminal),
{
    let mut r = String::new();
    if files.len() == 0 {
        if stdin_is_terminal {
            push_str_chars(&mut r, "demo");
        } else {
            push_str_chars(&mut r, "stdin");
        }
    } else if files.len() == 1 {
        push_str_chars(&mut r, "file: ");
        match path_file_name(files[0].as_str()) {
            Some(name) => push_str_chars(&mut r, name.as_str()),
            None => push_str_chars(&mut r, files[0].as_str()),
        }
    } else {
        push_decimal(&mut r, files.len() as u64);
        push_str_chars(&mut r, " files");
    }
    r
}

} // verus!
