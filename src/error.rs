use vstd::prelude::*;

verus! {

/// Why a trending list could not be produced. Every failure aborts the
/// whole call: no partial list is ever returned.
#[derive(Debug, Clone, Copy, PartialEq, Eq, Structural)]
pub enum TrendingError {
    /// A request failed at the transport level (DNS, connection, TLS,
    /// timeout).
    NetworkError,
    /// A response body could not be read as text.
    DecodeError,
    /// The anchor at this position (counting every table anchor of the
    /// document, from zero) holds exactly one paragraph where a name and a
    /// symbol are expected.
    ExtractionIndexError { anchor: usize },
}

} // verus!
