//! The safe core of a C binding for a file-type identification engine.
//!
//! What crosses the boundary is made and checked here; the pointers
//! themselves are the business of the shell around this library.

pub mod boundary;
pub mod codec;
pub mod engine;
pub mod error;
pub mod record;

pub use crate::boundary::{
    magika_identify_bytes, magika_identify_file, magika_session_free, magika_session_new,
    open_session, respond,
};
pub use crate::codec::{from_foreign, magika_string_free, to_foreign, ForeignString};
pub use crate::error::BoundaryError;
pub use crate::record::{convert_typeinfo, magika_typeinfo_free, Block, CTypeInfo, TypeInfo};
