//! A small server-rendered to-do list: the entry model, the rules that turn
//! database rows into a page, the replies of the three request handlers, and
//! an in-memory table that assigns ids the way the stored table does.

pub mod entry;
pub mod error;
pub mod table;
pub mod reply;
pub mod view;

pub use entry::{entries_from_rows, TodoEntry};
pub use error::TodoError;
pub use table::TodoTable;
pub use reply::{add_todo, delete_todo, error_reply, index, Reply};
pub use view::render_index;
