//! Repository layer of a todo/label service: domain records, the two
//! repository contracts, their in-memory implementations, and the folding of
//! flat persisted rows into aggregate todo entities.

pub mod error;
pub mod label;
pub mod laws;
pub mod todo;
pub mod validate;

pub use error::{RepositoryError, StoreFailure};
pub use label::{CreateLabel, Label, LabelRepository, LabelRepositoryforMemory, UpdateLabel};
pub use todo::{
    CreateTodo, TodoEntity, TodoRepository, TodoRepositoryForMemory, TodoWithLabelFromRow,
    UpdateTodo,
};
pub use validate::LengthViolation;
