//! A tiling window manager core: a verified model of the monitor /
//! workspace / container / window hierarchy and its reducers.
//!
//! The library is the in-memory state machine of the manager. Reducers
//! mutate the hierarchy and queue the OS calls that realise the new state
//! in an [`OsSink`]; a host performs those calls against the real window
//! system and feeds window attributes and events back in as plain values.

mod container;
mod direction;
mod error;
mod layout;
mod monitor;
mod os;
mod rect;
mod ring;
mod window;
mod window_manager;
mod workspace;

pub use container::Container;
pub use direction::CycleDirection;
pub use direction::OperationDirection;
pub use direction::Sizing;
pub use error::WmError;
pub use layout::Flip;
pub use layout::Layout;
pub use monitor::Monitor;
pub use monitor::MonitorView;
pub use os::OsCommand;
pub use os::OsSink;
pub use rect::Rect;
pub use ring::Ring;
pub use window::Window;
pub use window::WindowInfo;
pub use window::WindowManagerEvent;
pub use window_manager::EnforceWorkspaceRuleOp;
pub use window_manager::State;
pub use window_manager::WindowManager;
pub use window_manager::WmView;
pub use window_manager::WorkspaceRule;
pub use workspace::MaximizedRestore;
pub use workspace::Workspace;
pub use workspace::WorkspaceView;
