//! The identification engine, as far as this library touches it.
//!
//! The engine is a black box. Nothing is proved about what it answers; the
//! items here only let verified code hold a session, call it, and read an
//! answer into values of this library.

use vstd::prelude::*;
use crate::record::TypeInfo;

verus! {

/// `magika::Session`: one instance of the engine. Opaque.
#[verifier::external_type_specification]
#[verifier::external_body]
pub struct ExSession(magika::Session);

/// `magika::Error`: why the engine failed. Opaque.
#[verifier::external_type_specification]
#[verifier::external_body]
pub struct ExEngineError(magika::Error);

/// `magika::Session::new`: brings up an engine with its built-in model.
///
/// Trusted, and nothing is claimed of the outcome: it depends on the ONNX
/// Runtime that the machine offers. Where no runtime can be loaded at all,
/// the call does not return.
#[verifier::external_body]
pub(crate) fn start() -> Result<magika::Session, magika::Error> {
    magika::Session::new()
}

/// `magika::Session::identify_content_sync` on a buffer in memory, and
/// `magika::FileType::info` on its answer, copied field by field into a
/// [`TypeInfo`].
///
/// Trusted, and nothing is claimed of the outcome nor of the session
/// afterwards: the answer is the model's. In particular the texts of the
/// answer are not claimed to be free of NUL bytes.
#[verifier::external_body]
pub(crate) fn identify_content(session: &mut magika::Session, content: &[u8]) -> Result<
    TypeInfo,
    magika::Error,
> {
    let found = session.identify_content_sync(content)?;
    let info = found.info();
    Ok(TypeInfo {
        label: info.label.to_string(),
        mime_type: info.mime_type.to_string(),
        group: info.group.to_string(),
        description: info.description.to_string(),
        extensions: info.extensions.iter().map(|extension| extension.to_string()).collect(),
        is_text: info.is_text,
    })
}

} // verus!
