//! Excerpts from *King Lear*: the blocks of a scene, the selection of a line
//! range from them, and their rendering as styled text.

pub mod catalog;
pub mod contents;
pub mod error;
pub mod laws;
pub mod layout;
pub mod model;
pub mod present;
pub mod request;
pub mod select;
pub mod store;
pub mod style;
pub mod window;

pub use catalog::{contents_text, entry_at, SceneEntry};
pub use contents::{resolve, table_entry, TableEntry};
pub use error::LearError;
pub use model::{Block, Dialogue, Heading, Line};
pub use present::{attribution, rendering};
pub use request::{extract_to_usize, failure_message, parse_number, quote, Quote, RequestError};
pub use select::{find_text, select};
pub use store::{text, Corpus};
pub use window::{blocks_to_show, random_window, window};
