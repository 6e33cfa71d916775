//! A key-value store kept as one JSON object: loading, the four store
//! operations, their error taxonomy, and the helpers behind shell completion.

mod completion;
mod error;
mod json;
pub mod laws;
pub mod ops;
mod paths;
mod store;
mod text;

pub use completion::{command_lines, complete_commands, has_prefix, is_offered, Command};
pub use error::{Failure, KvError};
pub use json::{json_contents, json_order, json_others, json_reading, json_text, keys_in_order, text_view, JsonMap};
pub use ops::{complete_keys, delete, delete_spec, entry_lines, get, get_spec, is_listing, list, set_spec};
pub use paths::{data_file_path, file_path, joined};
pub use store::{from_object, load_json, loaded_view, Contents, Store};
pub use text::{
    already_present_message, deleted_message, entry_line, join_lines, no_keys_message,
    not_found_message, not_object_message, not_text_message, set_message,
};
