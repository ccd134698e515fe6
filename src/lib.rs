//! Platform OCR core: image input resolution, result assembly from recognized
//! text regions, the error taxonomy, and the one-shot recognition task.

pub mod assemble;
pub mod error;
pub mod input;
pub mod task;

pub use error::OcrError;
pub use assemble::{assemble_regions, single_block_result, BoundingBox, Candidate, OcrResult, RecognizedRegion};
pub use input::{resolve_canonical_path, strip_verbatim_marker, decoder_for_extensions, detect_decoder, ImageDecoder, ImageInput};
pub use task::{engine_language, vision_languages, OcrAccuracy, OcrRequest, RecognizeTask, TaskStart};
