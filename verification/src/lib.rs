//! A picker for bookmarked shell commands, with its logic verified.
//!
//! The catalog holds named command templates. The picker narrows the
//! catalog by a filter text, moves a cursor over what the filter keeps, and
//! on confirmation resolves the bookmark under the cursor into one command
//! text: templates are rendered with variables, references to other
//! bookmarks and to shared commands are followed, and a bookmark that is
//! reached twice fails the resolution.
//!
//! The library does no input or output. A host hands it the catalog and the
//! key presses and carries out the actions that it returns.
//!
//! - [`text`]: searching, trimming, splitting and joining of texts
//! - [`vars`]: the map from text to text that holds variables
//! - [`bookmark`]: bookmarks, labels and the configuration
//! - [`catalog`]: numbering the bookmarks and drawing the labels from them
//! - [`filters`]: which entries a filter text keeps
//! - [`tab_manager`]: a list with its filtered part, cursor and window
//! - [`template`]: rendering a template with the template engine
//! - [`resolve`]: resolving a bookmark into its command
//! - [`cycles`]: what a resolution comes to in simple catalogs
//! - [`navigation`]: the tabs of the picker
//! - [`keybindings`]: reading the configurable key bindings
//! - [`render`]: the layout of the list screen
//! - [`state`]: the state of the picker and what a key press does to it

pub mod bookmark;
pub mod catalog;
pub mod cycles;
pub mod filters;
pub mod keybindings;
pub mod navigation;
pub mod render;
pub mod resolve;
pub mod state;
pub mod tab_manager;
pub mod template;
pub mod text;
pub mod vars;
