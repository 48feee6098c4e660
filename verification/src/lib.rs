//! The logic of the XIME input method daemon, with its behaviour proved.
//!
//! Clipboard history and quick send:
//! - [`table`]: the rows of the store and what each operation does to them.
//! - [`store`]: the store itself; it turns operations into row changes.
//! - [`store_laws`]: what the operations of the store keep.
//! - [`store_effects`]: what each of them changes, row by row.
//! - [`schema`]: the database schema and its migrations.
//! - [`clock`]: the time of day.
//! - [`watcher`]: which selections are read and captured.
//! - [`sync`]: what is exchanged with sync plugins.
//!
//! The panel:
//! - [`menu`]: geometry, hit tests and text fitting.
//! - [`panel`]: what the candidate bar, the menu, the grid and the lists show.
//! - [`theme`]: colours and sizes.
//! - [`pixels`]: pixel buffers.
//!
//! The daemon:
//! - [`tray`]: the tray icon.
//! - [`daemon`]: reactions to the tray and to the desktop's settings, and paths.
//! - [`text`]: string helpers shared by the other modules.

pub mod clock;
pub mod daemon;
pub mod menu;
pub mod panel;
pub mod pixels;
pub mod schema;
pub mod store;
pub mod store_effects;
pub mod store_laws;
pub mod sync;
pub mod table;
pub mod text;
pub mod theme;
pub mod tray;
pub mod watcher;
