//! Export of a type-checked program into a self-contained, serializable tree.
//!
//! The host compiler holds a program in representations that point into its
//! own tables and that it hands out once. This library reads what the host
//! says of a unit and gives a tree that needs nothing of the host: every
//! node carries its own type and span.
//!
//! - [`state`] is the context of one export; [`sets`] are the two sets that
//!   grow in it.
//! - [`scheduler`] asks for every body once, constants first.
//! - [`translate`] and [`thir`] translate bodies node by node; [`place`]
//!   rebuilds places, [`switch`] recovers what a switch means.
//! - [`macro_calls`] tells which items come from which macro call, by the
//!   patterns of [`options`].
//! - [`export`] exports the items of a unit, [`callbacks`] ties the export
//!   to the two points at which the host hands over, and [`driver`] decides
//!   what is done with the result.
//! - [`decoration`] and [`protocol`] decide the shape of what the contract
//!   and protocol annotations expand to.

pub mod callbacks;
pub mod decoration;
pub mod driver;
pub mod error;
pub mod export;
pub mod host;
pub mod ids;
pub mod macro_calls;
pub mod mir;
pub mod options;
pub mod place;
pub mod protocol;
pub mod scheduler;
pub mod sets;
pub mod state;
pub mod switch;
pub mod thir;
pub mod translate;
