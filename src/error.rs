use vstd::prelude::*;

verus! {

/// Every way a recognition call can fail.
#[derive(Debug, PartialEq, Eq)]
pub enum OcrError {
    /// The engine could not allocate its recognition request.
    RequestAllocationFailed,
    /// The engine could not initialize its recognition request.
    RequestInitFailed,
    /// Recognition finished without any usable text region.
    NoTextRecognized,
    /// The engine failed and gave no detail.
    UnknownEngineError,
    /// The engine failed with a native description, kept verbatim.
    EngineError(String),
    /// A native error could not produce a readable description.
    LocalizedDescriptionUnavailable,
    /// The string of a recognized candidate could not be read.
    CandidateExtractionFailed,
    /// The alternate engine failed with a native description, kept verbatim.
    BackendNativeError(String),
    /// The image bytes match none of the supported formats.
    UnrecognizedFormat,
    /// The image path could not be resolved or opened.
    AccessDenied,
}

/// The human-readable message of an error.
pub open spec fn message_of(e: OcrError) -> Seq<char> {
    match e {
        OcrError::RequestAllocationFailed => "Failed to allocate the text recognition request"@,
        OcrError::RequestInitFailed => "Failed to initialize the text recognition request"@,
        OcrError::NoTextRecognized => "No text recognized"@,
        OcrError::UnknownEngineError => "Unknown vision engine error"@,
        OcrError::EngineError(d) => "Error "@ + d@,
        OcrError::LocalizedDescriptionUnavailable => "Failed to get localized description"@,
        OcrError::CandidateExtractionFailed => "Failed to get string from the first candidate"@,
        OcrError::BackendNativeError(d) => "Windows error "@ + d@,
        OcrError::UnrecognizedFormat => "Could not recognize file"@,
        OcrError::AccessDenied => "Could not open file"@,
    }
}

impl OcrError {
    /// The message that describes this error; a native description is kept verbatim.
    pub fn message(&self) -> (r: String)
        ensures
            r@ == message_of(*self),
    {
        match self {
            OcrError::RequestAllocationFailed => String::from_str(
                "Failed to allocate the text recognition request",
            ),
            OcrError::RequestInitFailed => String::from_str(
                "Failed to initialize the text recognition request",
            ),
            OcrError::NoTextRecognized => String::from_str("No text recognized"),
            OcrError::UnknownEngineError => String::from_str("Unknown vision engine error"),
            OcrError::EngineError(d) => {
                let mut s = String::from_str("Error ");
                s.append(d.as_str());
                s
            },
            OcrError::LocalizedDescriptionUnavailable => String::from_str(
                "Failed to get localized description",
            ),
            OcrError::CandidateExtractionFailed => String::from_str(
                "Failed to get string from the first candidate",
            ),
            OcrError::BackendNativeError(d) => {
                let mut s = String::from_str("Windows error ");
                s.append(d.as_str());
                s
            },
            OcrError::UnrecognizedFormat => String::from_str("Could not recognize file"),
            OcrError::AccessDenied => String::from_str("Could not open file"),
        }
    }
}

} // verus!
