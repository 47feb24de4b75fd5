//! Pretty-print tree-like structures.
//!
//! Any type that implements the tree contract can be rendered as an indented
//! text tree, one line per node, with branch glyphs marking each node's
//! position among its siblings.

pub mod item;
pub mod laws;
pub mod output;
pub mod print_config;
pub mod style;

pub use item::{StringItem, Tree, TreeItem};
pub use output::{render_to_string, write_tree, write_tree_with, IoError, LimitedSink, Sink, StringSink};
pub use print_config::{ConfigView, IndentChars, PrintConfig};
pub use style::{Color, Style};
