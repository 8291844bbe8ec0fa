//! Values from `key=value` texts whose entries `;` separates, such as the
//! headers `content-disposition` and `subscription-userinfo`, and the rules by
//! which a file is handed to an editor outside the program.

pub mod editor;
pub mod from_text;
pub mod laws;
pub mod model;
pub mod number;
pub mod parse;
pub mod scan;

pub use editor::{choose_opener, editor_program, Opener};
pub use from_text::FromText;
pub use parse::{parse_str, parse_str_with};
pub use scan::{find_value, is_whitespace};
