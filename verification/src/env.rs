//! The notices printed while loading the environment file.

use vstd::prelude::*;

verus! {

/// The notice that a custom environment file is loaded from `path`.
pub open spec fn custom_env_notice_text(path: Seq<char>) -> Seq<char> {
    "Loading custom env file from '"@ + path + "'"@
}

/// The warning that loading the environment file failed with `error`.
pub open spec fn env_error_notice_text(error: Seq<char>) -> Seq<char> {
    "An error occurred while loading the .env file ("@ + error + ")"@
}

/// The notice that a custom environment file is loaded from `path`.
pub fn custom_env_notice(path: &str) -> (text: String)
    ensures
        text@ == custom_env_notice_text(path@),
{
    let mut text = String::from_str("Loading custom env file from '");
    text.append(path);
    text.append("'");
    text
}

/// The warning that loading the environment file failed with `error`.
pub fn env_error_notice(error: &str) -> (text: String)
    ensures
        text@ == env_error_notice_text(error@),
{
    let mut text = String::from_str("An error occurred while loading the .env file (");
    text.append(error);
    text.append(")");
    text
}

} // verus!
