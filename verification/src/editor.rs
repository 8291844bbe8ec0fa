//! The rules for opening a file in an editor outside the program: which
//! editor is preferred on which platform, and what opens the file where that
//! editor cannot be found.

use crate::scan::same_str;
use vstd::prelude::*;

verus! {

/// The name of the preferred editor on `platform`, a platform being named as
/// `std::env::consts::OS` names it.
pub open spec fn editor_name(platform: Seq<char>) -> Seq<char> {
    if platform == "macos"@ {
        "Visual Studio Code"@
    } else {
        "code"@
    }
}

/// What opens a file.
#[derive(Clone, Copy, Debug, PartialEq, Eq, Structural)]
pub enum Opener {
    /// The preferred editor.
    Editor,
    /// Whatever the system opens such a file with.
    SystemDefault,
}

/// The name under which the preferred editor is to be looked up on
/// `platform`.
pub fn editor_program(platform: &str) -> (name: &'static str)
    ensures
        name@ == editor_name(platform@),
{
    if same_str(platform, "macos") {
        "Visual Studio Code"
    } else {
        "code"
    }
}

/// What is to open the file, once it is known whether the preferred editor was
/// `resolved` to a program: the editor where it was, the system's default
/// where it was not.
pub fn choose_opener(resolved: bool) -> (opener: Opener)
    ensures
        opener == (if resolved {
            Opener::Editor
        } else {
            Opener::SystemDefault
        }),
{
    if resolved {
        Opener::Editor
    } else {
        Opener::SystemDefault
    }
}

} // verus!
