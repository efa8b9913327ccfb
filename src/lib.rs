//! Access to xkcd's JSON metadata: the request URLs, and the mapping of a
//! decoded payload into a [`Comic`] with a validated calendar date.

mod comic;
mod date;
mod decimal;

pub use comic::{Comic, ComicError, ComicRequest};
pub use date::ComicDate;
pub use decimal::{parse_i32, parse_u32};
