//! The entry points of the boundary, on safe values.
//!
//! A pointer that may be null is an `Option`; a pointer that hands over
//! ownership is a value. An entry point that fails gives `None`, which the
//! foreign caller sees as a null pointer, whatever the cause.
//!
//! A session handle is born in [`magika_session_new`], serves any number of
//! identify calls, and ends in [`magika_session_free`], which takes it by
//! value: nothing leads out of the destroyed state because nothing can name
//! a destroyed session. Identifying borrows the session exclusively, so the
//! calls on one handle never overlap; a caller that shares a handle between
//! threads has to serialize them. Different handles are independent.

use vstd::prelude::*;
use magika::Session;
use crate::codec::{bytes_at, decoded, from_foreign, text_of};
use crate::engine;
use crate::error::BoundaryError;
use crate::record::{convert_typeinfo, CTypeInfo, TypeInfo};

verus! {

/// The path that a request to identify a file hands to the engine.
pub open spec fn admitted_path(has_session: bool, path: Option<Seq<u8>>) -> Result<
    Seq<char>,
    BoundaryError,
> {
    if has_session {
        decoded(path)
    } else {
        Err(BoundaryError::InvalidInput)
    }
}

/// The record is the image of some result that can cross the boundary.
pub open spec fn is_marshalled(record: CTypeInfo) -> bool {
    exists|info: TypeInfo| info.marshallable() && #[trigger] record.mirrors(&info)
}

/// What becomes of an attempt to bring up the engine.
pub fn open_session(started: Result<Session, magika::Error>) -> (r: Result<Session, BoundaryError>)
    ensures
        r is Ok <==> started is Ok,
        r matches Ok(session) ==> started == Ok::<Session, magika::Error>(session),
        r matches Err(e) ==> e == BoundaryError::Initialization,
{
    match started {
        Ok(session) => Ok(session),
        Err(_) => Err(BoundaryError::Initialization),
    }
}

/// Brings up one instance of the engine.
///
/// There is no degraded mode: a caller that cannot go on without an engine
/// treats the error as fatal.
pub fn magika_session_new() -> (r: Result<Session, BoundaryError>)
    ensures
        r matches Err(e) ==> e == BoundaryError::Initialization,
{
    open_session(engine::start())
}

/// Shuts an engine down; a null handle is left alone. Says whether there
/// was an engine to shut down.
///
/// The session is taken by value: once destroyed, the handle cannot be used
/// again.
pub fn magika_session_free(ptr: Option<Session>) -> (released: bool)
    ensures
        released == ptr is Some,
{
    match ptr {
        Some(_) => true,
        None => false,
    }
}

/// Turns the engine's answer into the record for the caller.
///
/// An engine failure gives `Engine`. An answer is marshalled; one with a
/// text that cannot cross the boundary gives `Encoding`.
pub fn respond(outcome: Result<TypeInfo, magika::Error>) -> (r: Result<CTypeInfo, BoundaryError>)
    ensures
        outcome is Err ==> r == Err::<CTypeInfo, BoundaryError>(BoundaryError::Engine),
        outcome matches Ok(info) ==> {
            &&& r is Ok <==> info.marshallable()
            &&& r matches Ok(record) ==> record.mirrors(&info)
            &&& r matches Err(e) ==> e == BoundaryError::Encoding
        },
{
    match outcome {
        Ok(info) => convert_typeinfo(&info),
        Err(_) => Err(BoundaryError::Engine),
    }
}

/// Admits a request to identify the file at a path, and gives the path to
/// hand to the engine. `has_session` says whether the session handle of the
/// request is non-null. The engine's answer then goes to [`respond`].
///
/// Without a session the request is refused before the path is looked at.
pub fn magika_identify_file(has_session: bool, path: Option<&[u8]>) -> (r: Result<
    String,
    BoundaryError,
>)
    ensures
        text_of(r) == admitted_path(has_session, bytes_at(path)),
{
    if !has_session {
        return Err(BoundaryError::InvalidInput);
    }
    from_foreign(path)
}

/// Identifies a buffer in memory.
///
/// A null handle or a null buffer gives `None` before anything else is
/// done. Otherwise the engine is asked, and its answer is turned into a
/// record by [`respond`].
pub fn magika_identify_bytes(sess: Option<&mut Session>, data: Option<&[u8]>) -> (r: Option<
    CTypeInfo,
>)
    ensures
        sess is None || data is None ==> r is None,
        r matches Some(record) ==> is_marshalled(record),
{
    match sess {
        None => None,
        Some(session) => match data {
            None => None,
            Some(content) => match respond(engine::identify_content(session, content)) {
                Ok(record) => Some(record),
                Err(_) => None,
            },
        },
    }
}

} // verus!
