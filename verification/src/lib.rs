//! A personal task list: items with a description, an optional deadline and a
//! progress fraction whose status is derived from it; an ordered, index
//! addressed list of such items; a textual document form of the whole list
//! with a proved round trip; and the command step a single invocation of the
//! tool performs on the list.

pub mod codec;
pub mod command;
pub mod item;
pub mod list;
pub mod store;
pub mod todo;

pub use command::Command;
pub use command::Outcome;
pub use command::apply;
pub use item::Date;
pub use item::Item;
pub use item::PROGRESS_SCALE;
pub use item::Progress;
pub use item::Status;
pub use item::ValidationError;
pub use list::IndexError;
pub use list::ItemUpdate;
pub use list::List;
pub use store::PersistenceError;
pub use store::load;
pub use store::save;
