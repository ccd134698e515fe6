use system_ocr::{
    assemble_regions, decoder_for_extensions, detect_decoder, engine_language,
    resolve_canonical_path, single_block_result, strip_verbatim_marker, vision_languages,
    BoundingBox, Candidate, ImageDecoder, ImageInput, OcrAccuracy, OcrError, RecognizeTask,
    RecognizedRegion, TaskStart,
};

fn candidate(text: &str, confidence: i32) -> Candidate {
    Candidate { text: String::from(text), confidence }
}

fn region(candidates: Vec<Candidate>, y: i32) -> RecognizedRegion {
    RecognizedRegion {
        candidates,
        bounding_box: BoundingBox { x: 100_000, y, width: 300_000, height: 50_000 },
    }
}

fn line(text: &str, y: i32, confidence: i32) -> RecognizedRegion {
    region(vec![candidate(text, confidence)], y)
}

fn strings(v: &[&str]) -> Vec<String> {
    v.iter().map(|s| String::from(*s)).collect()
}

const PNG_1X1: [u8; 67] = [
    0x89, 0x50, 0x4E, 0x47, 0x0D, 0x0A, 0x1A, 0x0A, 0x00, 0x00, 0x00, 0x0D, 0x49, 0x48, 0x44,
    0x52, 0x00, 0x00, 0x00, 0x01, 0x00, 0x00, 0x00, 0x01, 0x08, 0x06, 0x00, 0x00, 0x00, 0x1F,
    0x15, 0xC4, 0x89, 0x00, 0x00, 0x00, 0x0A, 0x49, 0x44, 0x41, 0x54, 0x78, 0x9C, 0x63, 0x00,
    0x01, 0x00, 0x00, 0x05, 0x00, 0x01, 0x0D, 0x0A, 0x2D, 0xB4, 0x00, 0x00, 0x00, 0x00, 0x49,
    0x45, 0x4E, 0x44, 0xAE, 0x42, 0x60, 0x82,
];

#[test]
fn ocr_works() {
    let mut task = RecognizeTask::new(ImageInput::Path(String::from("sample/sample.png")), None, None);
    let request = match task.start(false) {
        TaskStart::Run(request) => request,
        _ => panic!("the task should run"),
    };
    assert!(matches!(request.image, ImageInput::Path(ref p) if p == "sample/sample.png"));
    assert_eq!(request.accuracy, OcrAccuracy::Accurate);
    assert_eq!(engine_language(&request.preferred_langs), None);
    let ocr_text: String = single_block_result(String::from("Sample Text")).text;
    assert_eq!(ocr_text, "Sample Text");
}

#[test]
fn two_lines_join_with_newline() {
    let regions = vec![line("Sample", 500_000, 900_000), line("Text", 50_000, 900_000)];
    let result = assemble_regions(&regions).unwrap();
    assert_eq!(result.text, "Sample\nText");
    assert_eq!(result.confidence, 900_000);
}

#[test]
fn same_line_regions_join_with_space() {
    let regions = vec![line("Sample", 500_000, 800_000), line("Text", 500_000, 1_000_000)];
    let result = assemble_regions(&regions).unwrap();
    assert_eq!(result.text, "Sample Text");
    assert_eq!(result.confidence, 900_000);
}

#[test]
fn zero_regions_are_rejected() {
    let regions: Vec<RecognizedRegion> = Vec::new();
    assert_eq!(assemble_regions(&regions).err(), Some(OcrError::NoTextRecognized));
}

#[test]
fn single_block_has_full_confidence_for_any_accuracy() {
    for accuracy in [OcrAccuracy::Fast, OcrAccuracy::Accurate] {
        let mut task = RecognizeTask::new(ImageInput::Bytes(vec![1, 2, 3]), Some(accuracy), None);
        match task.start(false) {
            TaskStart::Run(request) => assert_eq!(request.accuracy, accuracy),
            _ => panic!("the task should run"),
        }
        let result = single_block_result(String::from("Sample Text"));
        assert_eq!(result.text, "Sample Text");
        assert_eq!(result.confidence, 1_000_000);
    }
}

#[test]
fn boundary_height_counts_as_same_line() {
    let regions = vec![line("a", 500_000, 500_000), line("b", 100_000, 500_000), line("c", 99_999, 500_000)];
    let result = assemble_regions(&regions).unwrap();
    assert_eq!(result.text, "a b\nc");
    assert_eq!(result.confidence, 500_000);
}

#[test]
fn region_without_candidates_is_skipped() {
    let regions = vec![line("one", 500_000, 600_000), region(Vec::new(), 500_000), line("two", 500_000, 800_000)];
    let result = assemble_regions(&regions).unwrap();
    assert_eq!(result.text, "one two");
    assert_eq!(result.confidence, 700_000);
}

#[test]
fn only_regions_without_candidates_are_rejected() {
    let regions = vec![region(Vec::new(), 500_000), region(Vec::new(), 50_000)];
    assert_eq!(assemble_regions(&regions).err(), Some(OcrError::NoTextRecognized));
}

#[test]
fn first_eligible_candidate_wins() {
    let regions = vec![region(
        vec![candidate("bad", -1), candidate("good", 700_000), candidate("later", 900_000)],
        500_000,
    )];
    let result = assemble_regions(&regions).unwrap();
    assert_eq!(result.text, "good");
    assert_eq!(result.confidence, 700_000);
}

#[test]
fn candidates_past_the_fifth_are_never_used() {
    let mut candidates: Vec<Candidate> = (0..5).map(|i| candidate(&format!("c{}", i), -1)).collect();
    candidates.push(candidate("sixth", 1_000_000));
    let regions = vec![region(candidates, 500_000)];
    assert_eq!(assemble_regions(&regions).err(), Some(OcrError::NoTextRecognized));
}

#[test]
fn empty_text_counts_toward_confidence() {
    let regions = vec![line("", 500_000, 200_000), line("word", 50_000, 1_000_000)];
    let result = assemble_regions(&regions).unwrap();
    assert_eq!(result.text, "word");
    assert_eq!(result.confidence, 600_000);
}

#[test]
fn assembly_is_deterministic() {
    let regions = vec![line("x", 700_000, 333_333), line("y", 20_000, 666_667), line("z", 20_000, 1)];
    let first = assemble_regions(&regions).unwrap();
    let second = assemble_regions(&regions).unwrap();
    assert_eq!(first.text, second.text);
    assert_eq!(first.confidence, second.confidence);
    assert_eq!(first.text, "x\ny\nz");
    assert_eq!(first.confidence, 333_333);
}

#[test]
fn png_signature_selects_png_decoder() {
    assert_eq!(detect_decoder(&PNG_1X1), Ok(ImageDecoder::Png));
}

#[test]
fn unknown_bytes_are_unrecognized() {
    assert_eq!(detect_decoder(&[0u8; 16]), Err(OcrError::UnrecognizedFormat));
}

#[test]
fn decoders_follow_extensions() {
    assert_eq!(decoder_for_extensions(&strings(&["png"])), Ok(ImageDecoder::Png));
    assert_eq!(decoder_for_extensions(&strings(&["jpe", "jpeg"])), Ok(ImageDecoder::Jpeg));
    assert_eq!(decoder_for_extensions(&strings(&["jpg"])), Ok(ImageDecoder::Jpeg));
    assert_eq!(decoder_for_extensions(&strings(&["bmp", "dib"])), Ok(ImageDecoder::Bmp));
    assert_eq!(decoder_for_extensions(&strings(&["tif", "tiff"])), Ok(ImageDecoder::Tiff));
    assert_eq!(decoder_for_extensions(&strings(&["gif"])), Ok(ImageDecoder::Gif));
    assert_eq!(decoder_for_extensions(&strings(&["jxr", "wdp"])), Ok(ImageDecoder::JpegXr));
    assert_eq!(decoder_for_extensions(&strings(&["webp"])), Ok(ImageDecoder::Webp));
    assert_eq!(decoder_for_extensions(&strings(&["heif", "heic"])), Ok(ImageDecoder::Heif));
    assert_eq!(decoder_for_extensions(&strings(&["gif", "png"])), Ok(ImageDecoder::Png));
    assert_eq!(decoder_for_extensions(&strings(&["pdf"])), Err(OcrError::UnrecognizedFormat));
    assert_eq!(decoder_for_extensions(&Vec::new()), Err(OcrError::UnrecognizedFormat));
}

#[test]
fn cancelled_task_never_runs() {
    let mut task = RecognizeTask::new(ImageInput::Bytes(vec![9]), None, Some(strings(&["fr-FR"])));
    assert!(matches!(task.start(true), TaskStart::Cancelled));
    assert!(matches!(task.start(true), TaskStart::Cancelled));
    match task.start(false) {
        TaskStart::Run(request) => {
            assert!(matches!(request.image, ImageInput::Bytes(ref b) if b == &vec![9u8]));
            assert_eq!(request.preferred_langs, strings(&["fr-FR"]));
        },
        _ => panic!("the task should run"),
    }
    assert!(matches!(task.start(false), TaskStart::Consumed));
}

#[test]
fn languages_default_per_engine() {
    assert_eq!(vision_languages(Vec::new()), strings(&["en-US"]));
    assert_eq!(vision_languages(strings(&["de-DE", "fr-FR"])), strings(&["de-DE", "fr-FR"]));
    let hints = strings(&["ja-JP", "en-US"]);
    assert_eq!(engine_language(&hints), Some(&String::from("ja-JP")));
}

#[test]
fn canonical_paths_lose_the_verbatim_marker() {
    assert_eq!(strip_verbatim_marker(r"\\?\C:\images\scan.png"), r"C:\images\scan.png");
    assert_eq!(strip_verbatim_marker("/tmp/a.png"), "/tmp/a.png");
    assert_eq!(strip_verbatim_marker(r"a\\?\b\\?\c\\?"), r"abc\\?");
    assert_eq!(
        resolve_canonical_path(Some(String::from(r"\\?\D:\x.png"))),
        Ok(String::from(r"D:\x.png"))
    );
    assert_eq!(resolve_canonical_path(None), Err(OcrError::AccessDenied));
}

#[test]
fn error_messages_keep_native_text() {
    assert_eq!(OcrError::NoTextRecognized.message(), "No text recognized");
    assert_eq!(OcrError::EngineError(String::from("boom")).message(), "Error boom");
    assert_eq!(OcrError::BackendNativeError(String::from("0x80004005")).message(), "Windows error 0x80004005");
    assert_eq!(OcrError::UnrecognizedFormat.message(), "Could not recognize file");
    assert_eq!(OcrError::AccessDenied.message(), "Could not open file");
}
