//! Decoder for the header of SpyParty replay files ("RPLY"), the value
//! decoders for maps, missions, game modes and results, and the replay
//! predicates and tallies built on the decoded data.

pub mod bytes;
pub mod error;
pub mod text;
pub mod mission;
pub mod game_result;
pub mod map;
pub mod game_mode;
pub mod result_data;
pub mod header;
pub mod replay;
pub mod utils;
pub mod matched_replay;
pub mod filters;
pub mod stats;

pub use bytes::Reader;
pub use error::Error;
pub use game_mode::GameMode;
pub use game_result::GameResult;
pub use header::Header;
pub use map::GameMap;
pub use mission::Mission;
pub use replay::Replay;
pub use result_data::ResultData;
