//! What can be said of an image before compressing it: its format, whether
//! it can be used, and how large it is likely to become.

use vstd::prelude::*;
use base64::Engine as _;
use crate::paths::{extension, extension_of, file_name, file_name_of, has_image_extension, has_valid_extension};
use crate::text::{concat, same_ignoring_case, eq_ignoring_case};
use crate::types::{display_name, display_name_of, quality_in_range, ratio_in_range, ImageInfo};
use vstd::arithmetic::div_mod::lemma_div_is_ordered;

verus! {

/// The format of an image, as its extension tells it.
#[derive(Clone, Copy, Debug, PartialEq, Eq, Structural)]
pub enum ImageFormat {
    Jpeg,
    Png,
    Bmp,
    Gif,
    Webp,
    Tiff,
    Ico,
    Unknown,
}

/// The format that the extension `e` stands for, in any case.
pub open spec fn format_of_extension(e: Seq<char>) -> ImageFormat {
    if same_ignoring_case(e, "jpg"@) || same_ignoring_case(e, "jpeg"@) {
        ImageFormat::Jpeg
    } else if same_ignoring_case(e, "png"@) {
        ImageFormat::Png
    } else if same_ignoring_case(e, "bmp"@) {
        ImageFormat::Bmp
    } else if same_ignoring_case(e, "gif"@) {
        ImageFormat::Gif
    } else if same_ignoring_case(e, "webp"@) {
        ImageFormat::Webp
    } else if same_ignoring_case(e, "tiff"@) || same_ignoring_case(e, "tif"@) {
        ImageFormat::Tiff
    } else if same_ignoring_case(e, "ico"@) {
        ImageFormat::Ico
    } else {
        ImageFormat::Unknown
    }
}

/// The format of the file at `path`, from the extension of its file name.
pub open spec fn format_of(path: Seq<char>) -> ImageFormat {
    match file_name(path) {
        Some(n) => match extension(n) {
            Some(e) => format_of_extension(e),
            None => ImageFormat::Unknown,
        },
        None => ImageFormat::Unknown,
    }
}

impl ImageFormat {
    pub open spec fn spec_name(self) -> Seq<char> {
        match self {
            ImageFormat::Jpeg => "JPEG"@,
            ImageFormat::Png => "PNG"@,
            ImageFormat::Bmp => "BMP"@,
            ImageFormat::Gif => "GIF"@,
            ImageFormat::Webp => "WEBP"@,
            ImageFormat::Tiff => "TIFF"@,
            ImageFormat::Ico => "ICO"@,
            ImageFormat::Unknown => "UNKNOWN"@,
        }
    }

    /// The format's tag, as `ImageInfo::format` holds it.
    pub fn name(&self) -> (r: String)
        ensures
            r@ == self.spec_name(),
    {
        match self {
            ImageFormat::Jpeg => String::from_str("JPEG"),
            ImageFormat::Png => String::from_str("PNG"),
            ImageFormat::Bmp => String::from_str("BMP"),
            ImageFormat::Gif => String::from_str("GIF"),
            ImageFormat::Webp => String::from_str("WEBP"),
            ImageFormat::Tiff => String::from_str("TIFF"),
            ImageFormat::Ico => String::from_str("ICO"),
            ImageFormat::Unknown => String::from_str("UNKNOWN"),
        }
    }

    /// Share of the original size that compression is expected to keep,
    /// before quality and size ratio, in hundredths: formats stored without
    /// compression shrink most, compressed ones least.
    pub open spec fn base_factor(self) -> nat {
        match self {
            ImageFormat::Bmp | ImageFormat::Tiff => 15,
            ImageFormat::Png => 40,
            ImageFormat::Gif => 50,
            ImageFormat::Jpeg => 80,
            ImageFormat::Webp => 85,
            _ => 50,
        }
    }

    fn base_factor_exec(&self) -> (r: u128)
        ensures
            r as nat == self.base_factor(),
    {
        match self {
            ImageFormat::Bmp | ImageFormat::Tiff => 15,
            ImageFormat::Png => 40,
            ImageFormat::Gif => 50,
            ImageFormat::Jpeg => 80,
            ImageFormat::Webp => 85,
            _ => 50,
        }
    }
}

fn format_of_ext(e: &str) -> (r: ImageFormat)
    ensures
        r == format_of_extension(e@),
{
    if eq_ignoring_case(e, "jpg") || eq_ignoring_case(e, "jpeg") {
        ImageFormat::Jpeg
    } else if eq_ignoring_case(e, "png") {
        ImageFormat::Png
    } else if eq_ignoring_case(e, "bmp") {
        ImageFormat::Bmp
    } else if eq_ignoring_case(e, "gif") {
        ImageFormat::Gif
    } else if eq_ignoring_case(e, "webp") {
        ImageFormat::Webp
    } else if eq_ignoring_case(e, "tiff") || eq_ignoring_case(e, "tif") {
        ImageFormat::Tiff
    } else if eq_ignoring_case(e, "ico") {
        ImageFormat::Ico
    } else {
        ImageFormat::Unknown
    }
}

/// The format of the file at `path`, from its extension.
pub fn detect_format(path: &str) -> (r: ImageFormat)
    ensures
        r == format_of(path@),
{
    match file_name_of(path) {
        Some(n) => match extension_of(n.as_str()) {
            Some(e) => format_of_ext(e.as_str()),
            None => ImageFormat::Unknown,
        },
        None => ImageFormat::Unknown,
    }
}

/// The quality factor, in hundred-thousandths: quality 0 to 100 (in
/// hundredths) maps linearly onto 0.3 to 0.9.
pub open spec fn quality_factor(q: nat) -> nat {
    30000 + 6 * q
}

/// Denominator of the product of base factor, quality factor and size ratio.
pub open spec fn factor_scale() -> nat {
    100_000_000_000
}

/// `original * base_factor * quality_factor * size_ratio`, rounded down.
pub open spec fn raw_estimate(original: nat, f: ImageFormat, q: nat, r: nat) -> nat {
    original * f.base_factor() * quality_factor(q) * r / factor_scale()
}

/// The size estimate: the raw estimate held within `min(1024, original)`
/// and `original`.
pub open spec fn estimate(original: nat, f: ImageFormat, q: nat, r: nat) -> nat {
    let e = raw_estimate(original, f, q, r);
    if e < 1024 {
        if original < 1024 { original } else { 1024 }
    } else if e > original {
        original
    } else {
        e
    }
}

/// Predicts the size in bytes of an image after compression, without
/// compressing it. `quality` is in hundredths of a point, `size_ratio` in
/// ten-thousandths.
pub fn estimate_compressed_size(original_size: u64, format: ImageFormat, quality: i64, size_ratio: i64) -> (r: u64)
    requires
        quality_in_range(quality as int),
        ratio_in_range(size_ratio as int),
    ensures
        r as nat == estimate(original_size as nat, format, quality as nat, size_ratio as nat),
        r <= original_size,
        r >= 1024 || r == original_size,
{
    let base = format.base_factor_exec();
    let qf: u128 = 30000 + 6 * quality as u128;
    let o = original_size as u128;
    let ratio = size_ratio as u128;
    proof {
        assert(o * base <= 18446744073709551615 * 85) by (nonlinear_arith)
            requires o <= 18446744073709551615, base <= 85;
        assert(o * base * qf <= 18446744073709551615 * 85 * 90000) by (nonlinear_arith)
            requires o * base <= 18446744073709551615 * 85, qf <= 90000, o * base >= 0;
        assert(o * base * qf * ratio <= 18446744073709551615 * 85 * 90000 * 10000) by (nonlinear_arith)
            requires o * base * qf <= 18446744073709551615 * 85 * 90000, ratio <= 10000, o * base * qf >= 0;
    }
    let raw = o * base * qf * ratio / 100_000_000_000;
    if raw < 1024 {
        if original_size < 1024 { original_size } else { 1024 }
    } else if raw > o {
        original_size
    } else {
        raw as u64
    }
}

/// The estimate never falls below `min(1024, original)` nor exceeds
/// `original`, and it does not decrease when quality or size ratio grow.
pub proof fn lemma_estimate_monotone(original: nat, f: ImageFormat, q1: nat, q2: nat, r1: nat, r2: nat)
    requires
        q1 <= q2 <= 10000,
        r1 <= r2 <= 10000,
    ensures
        estimate(original, f, q1, r1) <= estimate(original, f, q2, r2),
        estimate(original, f, q1, r1) <= original,
        estimate(original, f, q1, r1) >= 1024 || estimate(original, f, q1, r1) == original,
{
    let ob = original * f.base_factor();
    let a = ob * quality_factor(q1) * r1;
    let b = ob * quality_factor(q2) * r2;
    assert(a <= b) by (nonlinear_arith)
        requires
            a == ob * quality_factor(q1) * r1,
            b == ob * quality_factor(q2) * r2,
            ob >= 0,
            quality_factor(q1) <= quality_factor(q2),
            r1 <= r2,
    ;
    lemma_div_is_ordered(a as int, b as int, factor_scale() as int);
}

pub open spec fn unsupported_message() -> Seq<char> {
    "Unsupported file extension. Supported formats: jpg, jpeg, png, bmp, gif, webp, tiff, tif, ico"@
}

/// What the file system holds at a path.
#[derive(Clone, Copy, Debug, PartialEq, Eq, Structural)]
pub enum PathKind {
    Missing,
    File,
    Directory,
    /// Something that is neither a regular file nor a directory.
    Other,
}

/// Why a path cannot be an image before its content is read, if it cannot.
pub open spec fn precheck_error(path: Seq<char>, kind: PathKind) -> Option<Seq<char>> {
    match kind {
        PathKind::Missing => Some("File does not exist: "@ + path),
        PathKind::File => if has_image_extension(path) {
            None
        } else {
            Some(unsupported_message())
        },
        _ => Some("Path is not a file: "@ + path),
    }
}

/// Why a path is not a usable image, if it is not; `decoded` is what the
/// decoder said of its content.
pub open spec fn image_error(path: Seq<char>, kind: PathKind, decoded: Result<(), String>) -> Option<Seq<char>> {
    match precheck_error(path, kind) {
        Some(e) => Some(e),
        None => match decoded {
            Ok(()) => None,
            Err(e) => Some("Invalid or corrupted image file: "@ + e@),
        },
    }
}

/// The checks on a path that come before its content is decoded: it exists,
/// is a regular file, and has an image extension. Only where this passes
/// does the content need decoding.
pub fn image_precheck(path: &str, kind: PathKind) -> (r: Result<(), String>)
    ensures
        match r {
            Ok(()) => precheck_error(path@, kind) is None,
            Err(e) => precheck_error(path@, kind) == Some(e@),
        },
{
    match kind {
        PathKind::Missing => Err(concat("File does not exist: ", path)),
        PathKind::File => {
            if has_valid_extension(path) {
                Ok(())
            } else {
                Err(String::from_str(
                    "Unsupported file extension. Supported formats: jpg, jpeg, png, bmp, gif, webp, tiff, tif, ico",
                ))
            }
        },
        _ => Err(concat("Path is not a file: ", path)),
    }
}

/// Whether `path` is a usable image: the checks of `image_precheck`, then
/// the decoder's verdict on its content.
pub fn is_valid_image(path: &str, kind: PathKind, decoded: &Result<(), String>) -> (r: Result<(), String>)
    ensures
        match r {
            Ok(()) => image_error(path@, kind, *decoded) is None,
            Err(e) => image_error(path@, kind, *decoded) == Some(e@),
        },
{
    match image_precheck(path, kind) {
        Err(e) => Err(e),
        Ok(()) => match decoded {
            Ok(()) => Ok(()),
            Err(e) => Err(concat("Invalid or corrupted image file: ", e.as_str())),
        },
    }
}

/// What is read of an image file before it is described.
#[derive(Clone, Debug)]
pub struct ImageFacts {
    /// Size of the file in bytes.
    pub original_size: u64,
    pub width: u32,
    pub height: u32,
    /// A PNG preview as a data URI, where one could be made.
    pub thumbnail: Option<String>,
}

/// `i` describes the image at `path` from `facts`, as `analyze_image` does.
pub open spec fn describes(i: ImageInfo, path: Seq<char>, facts: ImageFacts, quality: i64, size_ratio: i64) -> bool {
    &&& i.path@ == path
    &&& i.filename@ == display_name(path)
    &&& i.original_size == facts.original_size
    &&& i.estimated_size as nat == estimate(
        facts.original_size as nat,
        format_of(path),
        quality as nat,
        size_ratio as nat,
    )
    &&& i.format@ == format_of(path).spec_name()
    &&& i.width == facts.width
    &&& i.height == facts.height
    &&& i.thumbnail == facts.thumbnail
}

/// What analysis gives for the path `path` of kind `kind`, whose content
/// the decoder judged `decoded`, and of which `facts` could (or could not)
/// be read: the first error met, or its description.
pub open spec fn analysis_result(
    i: Result<ImageInfo, String>,
    path: Seq<char>,
    kind: PathKind,
    decoded: Result<(), String>,
    facts: Result<ImageFacts, String>,
    quality: i64,
    size_ratio: i64,
) -> bool {
    match image_error(path, kind, decoded) {
        Some(e) => i is Err && i->Err_0@ == e,
        None => match facts {
            Err(e) => i is Err && i->Err_0 == e,
            Ok(f) => i is Ok && describes(i->Ok_0, path, f, quality, size_ratio),
        },
    }
}

/// Describes the image at `path`: first the checks of `is_valid_image`,
/// then what was read of it (its size, dimensions and preview, or the
/// error of reading them), with its size estimate for the given quality
/// and size ratio.
pub fn analyze_image(
    path: String,
    kind: PathKind,
    decoded: &Result<(), String>,
    facts: Result<ImageFacts, String>,
    quality: i64,
    size_ratio: i64,
) -> (r: Result<ImageInfo, String>)
    requires
        quality_in_range(quality as int),
        ratio_in_range(size_ratio as int),
    ensures
        analysis_result(r, path@, kind, *decoded, facts, quality, size_ratio),
{
    match is_valid_image(path.as_str(), kind, decoded) {
        Err(e) => {
            return Err(e);
        },
        Ok(()) => {},
    }
    let facts = match facts {
        Err(e) => {
            return Err(e);
        },
        Ok(f) => f,
    };
    let format = detect_format(path.as_str());
    let estimated_size = estimate_compressed_size(facts.original_size, format, quality, size_ratio);
    let filename = display_name_of(path.as_str());
    Ok(ImageInfo {
        path,
        filename,
        original_size: facts.original_size,
        estimated_size,
        format: format.name(),
        width: facts.width,
        height: facts.height,
        thumbnail: facts.thumbnail,
    })
}

/// One path looked at by analysis, with what was found of it.
#[derive(Debug)]
pub struct Analysis {
    pub path: String,
    pub kind: PathKind,
    /// The decoder's verdict on its content.
    pub decoded: Result<(), String>,
    /// Its size, dimensions and preview, or why they could not be read.
    pub facts: Result<ImageFacts, String>,
}

/// The analysis of `a` succeeds.
pub open spec fn succeeds(a: Analysis) -> bool {
    image_error(a.path@, a.kind, a.decoded) is None && a.facts is Ok
}

/// Positions of the analyses that succeed, in order.
pub open spec fn readable(a: Seq<Analysis>) -> Seq<int>
    decreases a.len(),
{
    if a.len() == 0 {
        seq![]
    } else if succeeds(a.last()) {
        readable(a.drop_last()).push(a.len() - 1)
    } else {
        readable(a.drop_last())
    }
}

proof fn lemma_readable_in_range(a: Seq<Analysis>)
    ensures
        forall|j: int| 0 <= j < readable(a).len() ==> 0 <= #[trigger] readable(a)[j] < a.len(),
    decreases a.len(),
{
    if a.len() > 0 {
        lemma_readable_in_range(a.drop_last());
        let prev = readable(a.drop_last());
        if succeeds(a.last()) {
            assert(forall|j: int| 0 <= j < prev.len() ==> readable(a)[j] == prev[j]);
        }
    }
}

/// Describes each path whose analysis succeeds, in order, and passes over
/// the others.
pub fn analyze_images(analyses: Vec<Analysis>, quality: i64, size_ratio: i64) -> (r: Vec<ImageInfo>)
    requires
        quality_in_range(quality as int),
        ratio_in_range(size_ratio as int),
    ensures
        r@.len() == readable(analyses@).len(),
        forall|j: int| 0 <= j < r@.len() ==> {
            let k = readable(analyses@)[j];
            describes(#[trigger] r@[j], analyses@[k].path@, analyses@[k].facts->Ok_0, quality, size_ratio)
        },
{
    let ghost all = analyses@;
    let n = analyses.len();
    let mut rest = analyses;
    let mut out: Vec<ImageInfo> = Vec::new();
    let mut i: usize = 0;
    proof { assert(all.subrange(0, 0) =~= Seq::<Analysis>::empty()); assert(all.subrange(0, n as int) =~= all); }
    while i < n
        invariant
            n == all.len(),
            i <= n,
            quality_in_range(quality as int),
            ratio_in_range(size_ratio as int),
            rest@ == all.subrange(i as int, n as int),
            out@.len() == readable(all.subrange(0, i as int)).len(),
            forall|j: int| 0 <= j < out@.len() ==> {
                let k = readable(all.subrange(0, i as int))[j];
                describes(#[trigger] out@[j], all[k].path@, all[k].facts->Ok_0, quality, size_ratio)
            },
        decreases n - i,
    {
        let a = rest.remove(0);
        proof {
            assert(a == all[i as int]);
            assert(rest@ =~= all.subrange(i + 1, n as int));
            assert(all.subrange(0, i + 1).drop_last() =~= all.subrange(0, i as int));
            assert(all.subrange(0, i + 1).last() == all[i as int]);
            lemma_readable_in_range(all.subrange(0, i as int));
        }
        let Analysis { path, kind, decoded, facts } = a;
        match analyze_image(path, kind, &decoded, facts, quality, size_ratio) {
            Ok(info) => {
                out.push(info);
            },
            Err(_) => {},
        }
        i += 1;
    }
    out
}

/// The standard base64 text (with padding) of `b`.
pub uninterp spec fn base64_standard(b: Seq<u8>) -> Seq<char>;

/// The length of the padded standard base64 text of `n` bytes.
pub open spec fn base64_len(n: nat) -> nat {
    4 * ((n + 2) / 3)
}

/// Relies on base64's `STANDARD.encode`: the padded standard encoding of the
/// bytes, which depends on them alone and has four characters for each
/// started group of three bytes. It panics where that length overflows
/// `usize`.
#[verifier::external_body]
fn encode_base64(b: &[u8]) -> (r: String)
    requires
        base64_len(b@.len()) <= usize::MAX,
    ensures
        r@ == base64_standard(b@),
        r@.len() == base64_len(b@.len()),
{
    base64::engine::general_purpose::STANDARD.encode(b)
}

/// A data URI that holds the PNG bytes `png`.
pub fn thumbnail_data_uri(png: &[u8]) -> (r: String)
    requires
        base64_len(png@.len()) <= usize::MAX,
    ensures
        r@ == "data:image/png;base64,"@ + base64_standard(png@),
{
    let text = encode_base64(png);
    concat("data:image/png;base64,", text.as_str())
}

} // verus!
