use crate::text::str_eq;
use vstd::prelude::*;

verus! {

/// Whether a text is a run of characters taken out of another.
pub open spec fn is_part_of(part: Seq<char>, whole: Seq<char>) -> bool {
    exists|i: int, j: int| 0 <= i <= j <= whole.len() && part == #[trigger] whole.subrange(i, j)
}

/// The last component of a path as `std::path::Path::file_name` gives it,
/// where there is one and it is text.
///
/// Believed, not proved: the component is cut out of the path. Which part
/// of the path it is depends on the path syntax of the platform, so nothing
/// more is said of it.
#[verifier::external_body]
fn path_file_name(path: &str) -> (r: Option<String>)
    ensures
        r matches Some(name) ==> is_part_of(name@, path@),
{
    std::path::Path::new(path).file_name().and_then(|n| n.to_str()).map(|n| n.to_string())
}

/// The name to show for a program: the last component of its path, and the
/// whole path where that has no last component or an empty one.
pub open spec fn basename_text(path: Seq<char>, file_name: Option<Seq<char>>) -> Seq<char> {
    match file_name {
        Some(name) => if name.len() > 0 {
            name
        } else {
            path
        },
        None => path,
    }
}

/// The text of an optional string.
pub open spec fn opt_name_view(name: Option<String>) -> Option<Seq<char>> {
    match name {
        Some(n) => Some(n@),
        None => None,
    }
}

/// Picks the name to show for a program, given the last component of its
/// path where it has one.
pub fn basename_or_whole(path: &str, file_name: Option<String>) -> (r: String)
    ensures
        r@ == basename_text(path@, opt_name_view(file_name)),
{
    match file_name {
        Some(name) => {
            if name.as_str().is_empty() {
                path.to_string()
            } else {
                name
            }
        },
        None => path.to_string(),
    }
}

/// The name under which the program was started, without the directories
/// that lead to it. It is cut out of the path, and is empty only where the
/// path is.
pub fn program_basename(path: &str) -> (r: String)
    ensures
        is_part_of(r@, path@),
        path@.len() > 0 ==> r@.len() > 0,
{
    let name: Option<String> = path_file_name(path);
    assert(path@ =~= path@.subrange(0, path@.len() as int));
    basename_or_whole(path, name)
}

/// The name under which an input is spoken of: the standard input for `-`.
pub open spec fn display_text(file: Seq<char>) -> Seq<char> {
    if file == "-"@ {
        "(standard in)"@
    } else {
        file
    }
}

/// Gives the name under which an input is spoken of in messages.
pub fn display_name(file: &str) -> (r: String)
    ensures
        r@ == display_text(file@),
{
    if str_eq(file, "-") {
        "(standard in)".to_string()
    } else {
        file.to_string()
    }
}

/// Tells whether the result of a run goes to the standard output: where no
/// output is named, and where `-` is.
pub fn writes_to_stdout(output: Option<&str>) -> (r: bool)
    ensures
        r == match output {
            None => true,
            Some(out) => out@ == "-"@,
        },
{
    match output {
        None => true,
        Some(out) => str_eq(out, "-"),
    }
}

} // verus!
