use vstd::prelude::*;

use crate::error::OcrError;

verus! {

/// An image to recognize: a file path, or the encoded bytes of the image.
pub enum ImageInput {
    Path(String),
    Bytes(Vec<u8>),
}

/// The decoder chosen for encoded image bytes.
#[derive(Clone, Copy, Debug, PartialEq, Eq, Structural)]
pub enum ImageDecoder {
    Png,
    Jpeg,
    Bmp,
    Tiff,
    Gif,
    JpegXr,
    Webp,
    Heif,
}

/// The file extensions that content sniffing assigns to a byte sequence.
pub uninterp spec fn sniffed_extensions(bytes: Seq<u8>) -> Seq<Seq<char>>;

/// The views of a list of strings.
pub open spec fn views_of(v: Seq<String>) -> Seq<Seq<char>> {
    v.map_values(|s: String| s@)
}

/// The decoder for a format known by its extensions; the first match in this
/// order wins: PNG, JPEG, BMP, TIFF, GIF, JPEG-XR, WEBP, HEIF.
pub open spec fn decoder_for(exts: Seq<Seq<char>>) -> Option<ImageDecoder> {
    if exts.contains("png"@) {
        Some(ImageDecoder::Png)
    } else if exts.contains("jpg"@) || exts.contains("jpeg"@) {
        Some(ImageDecoder::Jpeg)
    } else if exts.contains("bmp"@) {
        Some(ImageDecoder::Bmp)
    } else if exts.contains("tiff"@) {
        Some(ImageDecoder::Tiff)
    } else if exts.contains("gif"@) {
        Some(ImageDecoder::Gif)
    } else if exts.contains("jxr"@) {
        Some(ImageDecoder::JpegXr)
    } else if exts.contains("webp"@) {
        Some(ImageDecoder::Webp)
    } else if exts.contains("heif"@) {
        Some(ImageDecoder::Heif)
    } else {
        None
    }
}

/// The decoder for a format known by its extensions, or `UnrecognizedFormat`.
pub open spec fn decoder_result(exts: Seq<Seq<char>>) -> Result<ImageDecoder, OcrError> {
    match decoder_for(exts) {
        Some(d) => Ok(d),
        None => Err(OcrError::UnrecognizedFormat),
    }
}

/// The marker `\\?\` that extended-length canonical paths carry.
pub open spec fn verbatim_marker() -> Seq<char> {
    seq!['\\', '\\', '?', '\\']
}

/// `s` with every occurrence of the extended-length marker removed, scanning
/// from the left without overlaps.
pub open spec fn without_marker(s: Seq<char>) -> Seq<char>
    decreases s.len(),
{
    if s.len() == 0 {
        s
    } else if s.len() >= 4 && s.subrange(0, 4) == verbatim_marker() {
        without_marker(s.subrange(4, s.len() as int))
    } else {
        seq![s[0]] + without_marker(s.subrange(1, s.len() as int))
    }
}

/// Removes every extended-length marker from a canonical path.
pub fn strip_verbatim_marker(path: &str) -> (r: String)
    ensures
        r@ == without_marker(path@),
{
    let n = path.unicode_len();
    let mut out = String::new();
    let mut i: usize = 0;
    assert(path@.subrange(0, n as int) =~= path@);
    assert(out@ + without_marker(path@) =~= without_marker(path@));
    while i < n
        invariant
            n == path@.len(),
            i <= n,
            out@ + without_marker(path@.subrange(i as int, n as int)) == without_marker(path@),
        decreases n - i,
    {
        let ghost rest = path@.subrange(i as int, n as int);
        if n - i >= 4 && path.get_char(i) == '\\' && path.get_char(i + 1) == '\\'
            && path.get_char(i + 2) == '?' && path.get_char(i + 3) == '\\' {
            assert(rest.subrange(0, 4) =~= verbatim_marker());
            assert(rest.subrange(4, rest.len() as int) =~= path@.subrange(i + 4, n as int));
            i = i + 4;
        } else {
            proof {
                if rest.len() >= 4 {
                    assert(rest.subrange(0, 4) != verbatim_marker()) by {
                        if rest.subrange(0, 4) == verbatim_marker() {
                            assert(rest.subrange(0, 4)[0] == rest[0]);
                            assert(rest.subrange(0, 4)[1] == rest[1]);
                            assert(rest.subrange(0, 4)[2] == rest[2]);
                            assert(rest.subrange(0, 4)[3] == rest[3]);
                        }
                    }
                }
            }
            let piece = path.substring_char(i, i + 1);
            assert(piece@ =~= seq![rest[0]]);
            assert(rest.subrange(1, rest.len() as int) =~= path@.subrange(i + 1, n as int));
            let ghost before = out@;
            out.append(piece);
            assert(out@ + without_marker(path@.subrange(i + 1, n as int)) =~= before + without_marker(rest));
            i = i + 1;
        }
    }
    assert(path@.subrange(n as int, n as int) =~= Seq::<char>::empty());
    assert(out@ + Seq::<char>::empty() =~= out@);
    out
}

/// Turns the outcome of canonicalizing an image path into the path the engine
/// opens: a failed canonicalization is `AccessDenied`, a canonical path loses
/// its extended-length markers.
pub fn resolve_canonical_path(canonical: Option<String>) -> (r: Result<String, OcrError>)
    ensures
        canonical is None ==> r == Err::<String, OcrError>(OcrError::AccessDenied),
        canonical matches Some(p) ==> (r matches Ok(q) && q@ == without_marker(p@)),
{
    match canonical {
        None => Err(OcrError::AccessDenied),
        Some(p) => Ok(strip_verbatim_marker(p.as_str())),
    }
}

/// Relies on file_type's `FileType::from_bytes`, read through
/// `FileType::extensions`: the extensions of the format whose signature the
/// bytes match, which depends on the bytes alone.
#[verifier::external_body]
fn sniff_extensions(bytes: &[u8]) -> (r: Vec<String>)
    ensures
        views_of(r@) == sniffed_extensions(bytes@),
{
    file_type::FileType::from_bytes(bytes).extensions().iter().map(|e| String::from(*e)).collect()
}

/// Whether `exts` holds the extension `ext`.
fn has_extension(exts: &Vec<String>, ext: &str) -> (r: bool)
    ensures
        r == views_of(exts@).contains(ext@),
{
    let target = String::from_str(ext);
    let mut i: usize = 0;
    while i < exts.len()
        invariant
            i <= exts.len(),
            target@ == ext@,
            forall|j: int| 0 <= j < i ==> exts@[j]@ != ext@,
        decreases exts.len() - i,
    {
        if exts[i] == target {
            assert(views_of(exts@)[i as int] == ext@);
            return true;
        }
        i += 1;
    }
    assert forall|j: int| 0 <= j < views_of(exts@).len() implies views_of(exts@)[j] != ext@ by {
        assert(views_of(exts@)[j] == exts@[j]@);
    }
    false
}

/// Chooses the decoder for a format known by its extensions; fails with
/// `UnrecognizedFormat` when none of the supported formats is among them.
pub fn decoder_for_extensions(exts: &Vec<String>) -> (r: Result<ImageDecoder, OcrError>)
    ensures
        r == decoder_result(views_of(exts@)),
{
    if has_extension(exts, "png") {
        Ok(ImageDecoder::Png)
    } else if has_extension(exts, "jpg") || has_extension(exts, "jpeg") {
        Ok(ImageDecoder::Jpeg)
    } else if has_extension(exts, "bmp") {
        Ok(ImageDecoder::Bmp)
    } else if has_extension(exts, "tiff") {
        Ok(ImageDecoder::Tiff)
    } else if has_extension(exts, "gif") {
        Ok(ImageDecoder::Gif)
    } else if has_extension(exts, "jxr") {
        Ok(ImageDecoder::JpegXr)
    } else if has_extension(exts, "webp") {
        Ok(ImageDecoder::Webp)
    } else if has_extension(exts, "heif") {
        Ok(ImageDecoder::Heif)
    } else {
        Err(OcrError::UnrecognizedFormat)
    }
}

/// Chooses the decoder for encoded image bytes by their leading signature.
pub fn detect_decoder(bytes: &[u8]) -> (r: Result<ImageDecoder, OcrError>)
    ensures
        r == decoder_result(sniffed_extensions(bytes@)),
{
    let exts = sniff_extensions(bytes);
    decoder_for_extensions(&exts)
}

} // verus!
