//! The error reported by decoding, and the models of what decoding hands
//! out: a window of bytes, an optional one, or the error.

use vstd::prelude::*;

verus! {

/// Why a window of bytes could not be handed out.
#[derive(Debug, Clone, Copy, PartialEq, Eq, Structural)]
pub enum DecodeError {
    /// A length or pointer field read from the data asks for bytes beyond the
    /// end of the frame or of the window it was read from, or the window is
    /// too short to hold that field.
    OutOfBounds,
}

/// The model of a decoded window: the bytes it spans, or the error.
pub open spec fn window_view(r: Result<&[u8], DecodeError>) -> Result<Seq<u8>, DecodeError> {
    match r {
        Ok(w) => Ok(w@),
        Err(e) => Err(e),
    }
}

/// The model of an optional window.
pub open spec fn optional_view(r: Option<&[u8]>) -> Option<Seq<u8>> {
    match r {
        Some(w) => Some(w@),
        None => None,
    }
}

/// The model of a decoded window that may be absent.
pub open spec fn optional_window_view(r: Result<Option<&[u8]>, DecodeError>) -> Result<
    Option<Seq<u8>>,
    DecodeError,
> {
    match r {
        Ok(w) => Ok(optional_view(w)),
        Err(e) => Err(e),
    }
}

} // verus!
