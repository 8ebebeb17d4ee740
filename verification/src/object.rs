//! Kernel objects as seen by a process: rights, handles and the handle table.

pub mod handle;
pub mod model;
pub mod rights;
pub mod table;

pub use self::handle::Handle;
pub use self::rights::HandleRights;
pub use self::table::HandleTable;
