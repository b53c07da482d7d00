//! An interactive terminal menu core: a fixed hierarchy of labeled entries,
//! some of them sub-menus and some of them leaf actions bound to a command
//! string. The navigation state machine is verified; rendering and key
//! collection are left to the host application, which consumes the render
//! model exposed here.

pub mod laws;
pub mod list;
pub mod nav;
pub mod tree;

pub use list::CustomList;
pub use list::Row;
pub use list::RowKind;
pub use nav::KeyAction;
pub use tree::MenuNode;
pub use tree::MenuTree;
