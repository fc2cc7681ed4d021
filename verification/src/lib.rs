//! Collection of parsers for Conway's game of life.
//!
//! Currently supported file formats:
//!
//! * Life 1.05, the block format
//! * Life 1.06, the flat list of coordinates
//!
//! A parser turns the lines of a file into a [`DefaultGameDescriptor`]: the
//! rules of the game and the cells that are alive at the start. It takes
//! the lines as they were read, so that reading is left to the caller; a
//! line that could not be read is handed over as the kind of the failure.
//! What a parser returns is stated over [`Parser::outcome`], which each
//! format defines line by line.
//!
//! ## Usage
//!
//! ```ignore
//! use game_of_life_parsers::{GameDescriptor, Life105Parser, Parser};
//!
//! let lines = vec![Ok("#N".to_string()), Ok("#P 0 0".to_string()), Ok("..*".to_string())];
//! let mut parser = Life105Parser::new();
//! let game_descriptor = parser.parse(&lines).unwrap();
//! for live_cell in game_descriptor.live_cells() {
//!     // iterate over live cells
//! }
//! ```

pub mod errors;
pub mod game_descriptor;
pub mod default_game_descriptor;
pub mod text;
pub mod pattern;
pub mod parsers;

pub use errors::ParseError;
pub use game_descriptor::Coord;
pub use game_descriptor::GameDescriptor;
pub use default_game_descriptor::DefaultGameDescriptor;
pub use parsers::Life105Parser;
pub use parsers::Life106Parser;
pub use parsers::Parser;
