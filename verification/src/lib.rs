//! The core of a small tabbed text editor: the open tabs and which one is
//! active, the recently used files, the unsaved-changes guard on closing the
//! window, and find / replace over a buffer.

pub mod error;
pub mod laws;
pub mod model;
pub mod recent;
pub mod search;
pub mod state;
pub mod text;

pub use error::FeditError;
pub use search::{find_matches, replace_matches, search_pattern, Match};
pub use model::{AppModel, TabView};
pub use state::{AppState, OpenedTab, Tab};
pub use text::{echo, greet, menu_event_name};
