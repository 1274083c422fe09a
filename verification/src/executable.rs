//! Which file name extensions mark a program, for systems that tell
//! programs from other files by the extension.

use vstd::prelude::*;
use crate::text::same_text;

verus! {

/// `c` in lower case if it is one of the letters `A` to `Z`, else `c`.
pub open spec fn ascii_lowercase_of(c: char) -> char {
    if 'A' <= c && c <= 'Z' {
        ((c as u8) + 32) as char
    } else {
        c
    }
}

/// The extensions that mark a program, in the order in which they are
/// tried for a name that has none.
pub open spec fn executable_extension_names() -> Seq<Seq<char>> {
    seq!["exe"@, "com"@, "bat"@, "cmd"@]
}

/// The extensions that mark a program, in the order in which they are
/// tried for a name that has none.
pub fn executable_extensions() -> (extensions: [&'static str; 4])
    ensures
        extensions@.map_values(|e: &'static str| e@) == executable_extension_names(),
{
    ["exe", "com", "bat", "cmd"]
}

/// `text` with the letters `A` to `Z` in lower case and every other
/// character as it is.
pub fn to_ascii_lowercase(text: &str) -> (lowered: String)
    ensures
        lowered@ == text@.map_values(|c: char| ascii_lowercase_of(c)),
{
    let mut lowered = String::new();
    for c in it: text.chars()
        invariant
            it.seq() == text@,
            lowered@ == text@.take(it.index()).map_values(|c: char| ascii_lowercase_of(c)),
    {
        let low = if c >= 'A' && c <= 'Z' {
            ((c as u8) + 32) as char
        } else {
            c
        };
        lowered.push(low);
    }
    lowered
}

/// Whether the extension `extension`, in lower case, marks a program.
pub fn is_executable_extension(extension: &str) -> (marks: bool)
    ensures
        marks == executable_extension_names().contains(extension@),
{
    same_text(extension, "exe") || same_text(extension, "com") || same_text(extension, "bat")
        || same_text(extension, "cmd")
}

} // verus!
