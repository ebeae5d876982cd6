use crate::edit::{entries_view, EntryView};
use crate::error::FormatError;
use vstd::prelude::*;
use vstd::std_specs::iter::IteratorSpec;

verus! {

/// The colour types a PNG header can declare.
#[derive(Debug, Clone, Copy, PartialEq, Eq, Structural)]
pub enum ColorKind {
    Grayscale,
    Rgb,
    Indexed,
    GrayscaleAlpha,
    Rgba,
}

/// The header parameters of an image.
#[derive(Debug, Clone, Copy, PartialEq, Eq, Structural)]
pub struct PngHeader {
    pub width: u32,
    pub height: u32,
    pub color: ColorKind,
    /// Bits per sample: 1, 2, 4, 8 or 16.
    pub depth: u8,
}

/// A decoded image: its header parameters and its raw samples, row after row.
#[derive(Debug)]
pub struct Raster {
    pub header: PngHeader,
    pub pixels: Vec<u8>,
}

pub open spec fn color_of_code(c: u8) -> Option<ColorKind> {
    if c == 0 {
        Some(ColorKind::Grayscale)
    } else if c == 2 {
        Some(ColorKind::Rgb)
    } else if c == 3 {
        Some(ColorKind::Indexed)
    } else if c == 4 {
        Some(ColorKind::GrayscaleAlpha)
    } else if c == 6 {
        Some(ColorKind::Rgba)
    } else {
        None
    }
}

pub open spec fn code_of_color(c: ColorKind) -> u8 {
    match c {
        ColorKind::Grayscale => 0,
        ColorKind::Rgb => 2,
        ColorKind::Indexed => 3,
        ColorKind::GrayscaleAlpha => 4,
        ColorKind::Rgba => 6,
    }
}

pub open spec fn samples_per_pixel(c: ColorKind) -> nat {
    match c {
        ColorKind::Grayscale => 1,
        ColorKind::Rgb => 3,
        ColorKind::Indexed => 1,
        ColorKind::GrayscaleAlpha => 2,
        ColorKind::Rgba => 4,
    }
}

/// The bit depths that the format allows for a colour type.
pub open spec fn depth_allowed(c: ColorKind, d: u8) -> bool {
    match c {
        ColorKind::Grayscale => d == 1 || d == 2 || d == 4 || d == 8 || d == 16,
        ColorKind::Indexed => d == 1 || d == 2 || d == 4 || d == 8,
        _ => d == 8 || d == 16,
    }
}

/// The colour configurations that are written back: palette images are not, since no
/// palette is carried.
pub open spec fn encodable(h: PngHeader) -> bool {
    h.color != ColorKind::Indexed && depth_allowed(h.color, h.depth)
}

/// Bytes in one row of samples; rows start on a byte boundary.
pub open spec fn row_bytes(h: PngHeader) -> nat {
    ((h.width * samples_per_pixel(h.color) * h.depth + 7) / 8) as nat
}

/// A bound on the bytes of one row of samples and on the bytes of all text chunks' data,
/// comfortably inside the 64 MiB png's decoder allows itself by default.
pub const READ_BACK_BOUND: u64 = 8388608;

/// The bytes of the text chunks' data: keyword, NUL separator and text, one byte a character.
pub open spec fn text_bytes(e: Seq<EntryView>) -> nat
    decreases e.len(),
{
    if e.len() == 0 {
        0
    } else {
        text_bytes(e.drop_last()) + e.last().0.len() + 1 + e.last().1.len()
    }
}

/// An image small enough for png's decoder to read back under its default limits.
pub open spec fn readable_size(h: PngHeader, e: Seq<EntryView>) -> bool {
    row_bytes(h) <= READ_BACK_BOUND && text_bytes(e) <= READ_BACK_BOUND
}

/// The length of the sample buffer of an image with header `h`.
pub open spec fn pixel_len(h: PngHeader) -> nat {
    (h.height * row_bytes(h)) as nat
}

pub open spec fn has_png_signature(b: Seq<u8>) -> bool {
    &&& b.len() >= 8
    &&& b[0] == 137 && b[1] == 80 && b[2] == 78 && b[3] == 71
    &&& b[4] == 13 && b[5] == 10 && b[6] == 26 && b[7] == 10
}

/// The big-endian unsigned integer in the four bytes from `at`.
pub open spec fn be32(b: Seq<u8>, at: int) -> int {
    b[at] * 16777216 + b[at + 1] * 65536 + b[at + 2] * 256 + b[at + 3]
}

/// The first chunk is a well-formed header chunk: 13 bytes of data under the type `IHDR`,
/// non-zero dimensions, a known colour type with an allowed depth, and the only defined
/// compression, filter and interlace methods.
pub open spec fn header_present(b: Seq<u8>) -> bool {
    &&& b.len() >= 33
    &&& be32(b, 8) == 13
    &&& b[12] == 73 && b[13] == 72 && b[14] == 68 && b[15] == 82
    &&& be32(b, 16) > 0 && be32(b, 20) > 0
    &&& color_of_code(b[25]) is Some
    &&& depth_allowed(color_of_code(b[25])->0, b[24])
    &&& b[26] == 0 && b[27] == 0 && b[28] <= 1
}

/// The header parameters stored in a stream for which `header_present` holds.
pub open spec fn header_of(b: Seq<u8>) -> PngHeader {
    PngHeader {
        width: be32(b, 16) as u32,
        height: be32(b, 20) as u32,
        color: color_of_code(b[25])->0,
        depth: b[24],
    }
}

/// What png's decoder yields for a byte stream: the samples of the image and its tEXt
/// entries in file order, or nothing where it reports an error.
pub uninterp spec fn png_decoded(b: Seq<u8>) -> Option<(Seq<u8>, Seq<EntryView>)>;

/// Whether png's decoder reads a stream's metadata up to its first image data chunk.
pub uninterp spec fn png_info_read(b: Seq<u8>) -> bool;

/// The start of an empty `IDAT` chunk: its length and its type.
pub open spec fn idat_start() -> Seq<u8> {
    Seq::empty().push(0).push(0).push(0).push(0).push(73).push(68).push(65).push(84)
}

/// The signature and header chunk of `b`, then the start of an empty `IDAT` chunk. png's
/// decoder checks a chunk's CRC when it reads on to the next chunk, and stops at the first
/// `IDAT`; so whether it reads this stream judges the header chunk alone, CRC included.
pub open spec fn header_probe(b: Seq<u8>) -> Seq<u8> {
    b.subrange(0, 33) + idat_start()
}

/// png's decoder accepts the header chunk of `b`.
pub open spec fn png_header_accepted(b: Seq<u8>) -> bool {
    png_info_read(header_probe(b))
}

/// The stream png's encoder writes for these header fields, samples and tEXt entries, or
/// nothing where it reports an error.
pub uninterp spec fn png_encoded(
    width: u32,
    height: u32,
    color: u8,
    depth: u8,
    pixels: Seq<u8>,
    texts: Seq<EntryView>,
) -> Option<Seq<u8>>;

/// The stream opens with the signature and a header chunk holding these fields, no
/// compression, filter or interlace method.
pub open spec fn opens_with_header(b: Seq<u8>, width: u32, height: u32, color: u8, depth: u8) -> bool {
    &&& has_png_signature(b)
    &&& b.len() >= 33
    &&& be32(b, 8) == 13
    &&& b[12] == 73 && b[13] == 72 && b[14] == 68 && b[15] == 82
    &&& be32(b, 16) == width && be32(b, 20) == height
    &&& b[24] == depth && b[25] == color
    &&& b[26] == 0 && b[27] == 0 && b[28] == 0
}

/// No keyword holds the NUL that ends a keyword in a text chunk.
pub open spec fn keys_nul_free(e: Seq<EntryView>) -> bool {
    forall|i: int| 0 <= i < e.len() ==> !(#[trigger] e[i]).0.contains('\0')
}

pub open spec fn decoded_view(r: Option<(Vec<u8>, Vec<(String, String)>)>) -> Option<
    (Seq<u8>, Seq<EntryView>),
> {
    match r {
        Some(d) => Some((d.0@, entries_view(d.1@))),
        None => None,
    }
}

pub open spec fn bytes_view(r: Option<Vec<u8>>) -> Option<Seq<u8>> {
    match r {
        Some(b) => Some(b@),
        None => None,
    }
}

/// Relies on png's `Decoder` (`read_info`, `next_frame`, `finish`, and the tEXt list of
/// `Reader::info`) with its default identity transformation: samples and entries depend on
/// the bytes alone. Each tEXt entry is split at its first NUL, with a keyword of 1 to 79 bytes
/// (`StreamingDecoder::split_keyword`), and every byte becomes the character of that code
/// (`decode_iso_8859_1`): keywords and texts are Latin-1 and keywords hold no NUL.
#[verifier::external_body]
fn png_decode(bytes: &[u8]) -> (r: Option<(Vec<u8>, Vec<(String, String)>)>)
    ensures
        decoded_view(r) == png_decoded(bytes@),
        r matches Some(d) ==> entries_fault(entries_view(d.1@)) is None,
{
    let mut reader = png::Decoder::new(bytes).read_info().ok()?;
    let mut pixels = vec![0; reader.output_buffer_size()];
    reader.next_frame(&mut pixels).ok()?;
    reader.finish().ok()?;
    let texts = &reader.info().uncompressed_latin1_text;
    Some((pixels, texts.iter().map(|t| (t.keyword.clone(), t.text.clone())).collect()))
}

/// Relies on png's `Decoder::read_info`: it reads the signature and the chunks up to the first
/// `IDAT`, checking each CRC, the header's fields and that the image's buffer size fits; the
/// answer depends on the bytes alone.
#[verifier::external_body]
fn png_read_info(stream: &[u8]) -> (r: bool)
    ensures
        r == png_info_read(stream@),
{
    png::Decoder::new(stream).read_info().is_ok()
}

/// The stream png's decoder reads to judge the header chunk of `b`.
fn make_header_probe(b: &[u8]) -> (r: Vec<u8>)
    requires
        b@.len() >= 33,
    ensures
        r@ == header_probe(b@),
{
    let mut out: Vec<u8> = Vec::new();
    let mut i: usize = 0;
    while i < 33
        invariant
            i <= 33,
            b@.len() >= 33,
            out@ == b@.subrange(0, i as int),
        decreases 33 - i,
    {
        out.push(b[i]);
        proof {
            assert(b@.subrange(0, i + 1) =~= b@.subrange(0, i as int).push(b@[i as int]));
        }
        i = i + 1;
    }
    out.push(0);
    out.push(0);
    out.push(0);
    out.push(0);
    out.push(73);
    out.push(68);
    out.push(65);
    out.push(84);
    proof {
        assert(out@ =~= header_probe(b@));
    }
    out
}

/// Relies on png's `Encoder::with_info`, `write_header`, `write_image_data` and `finish`,
/// writing into memory: the stream depends on the arguments alone.
/// - It succeeds for a known colour type other than palette with an allowed depth, non-zero
///   dimensions and entries whose keywords are 1 to 79 Latin-1 characters and whose texts are
///   Latin-1: `init` refuses only zero dimensions and invalid pairs, `write_image_data` only a
///   wrong sample count (ruled out here) or a palette image without palette, and
///   `TEXtChunk::encode` only keywords and texts outside those bounds.
/// - `write_header` starts the stream with the signature and the IHDR chunk built by
///   `Info::encode` (interlacing off), with its CRC.
/// - Filtering and deflate are lossless and the tEXt chunks are written in list order,
///   keyword, NUL, text, each character as one byte. png's decoder reserves from its 64 MiB
///   budget one output row and, for text chunks, at most about three times their data; so
///   below the bounds of `readable_size` it reads the header (`read_info`) and the whole
///   stream back, giving these samples and, when no keyword holds a NUL, these entries.
#[verifier::external_body]
fn png_encode(width: u32, height: u32, color: u8, depth: u8, pixels: &[u8], texts: &Vec<(String, String)>) -> (r: Option<Vec<u8>>)
    requires
        color_of_code(color) is Some,
        pixels@.len() == pixel_len((PngHeader { width, height, color: color_of_code(color)->0, depth })),
    ensures
        bytes_view(r) == png_encoded(width, height, color, depth, pixels@, entries_view(texts@)),
        color != 3 && depth_allowed(color_of_code(color)->0, depth) && width > 0 && height > 0
            && entries_fault(entries_view(texts@)) is None ==> r is Some,
        r matches Some(b) ==> opens_with_header(b@, width, height, color, depth),
        r matches Some(b) ==> (readable_size(
            (PngHeader { width, height, color: color_of_code(color)->0, depth }),
            entries_view(texts@),
        ) ==> png_header_accepted(b@)),
        r matches Some(b) ==> (keys_nul_free(entries_view(texts@)) && readable_size(
            (PngHeader { width, height, color: color_of_code(color)->0, depth }),
            entries_view(texts@),
        ) ==> png_decoded(b@) == Some((pixels@, entries_view(texts@)))),
{
    let mut info = png::Info::with_size(width, height);
    info.color_type = png::ColorType::from_u8(color)?;
    info.bit_depth = png::BitDepth::from_u8(depth)?;
    info.uncompressed_latin1_text =
        texts.iter().map(|(k, v)| png::text_metadata::TEXtChunk::new(k.clone(), v.clone())).collect();
    let mut out = Vec::new();
    let mut writer = png::Encoder::with_info(&mut out, info).ok()?.write_header().ok()?;
    writer.write_image_data(pixels).ok()?;
    writer.finish().ok()?;
    Some(out)
}

/// The characters of `s`, in order.
pub fn chars_of(s: &str) -> (r: Vec<char>)
    ensures
        r@ == s@,
{
    broadcast use vstd::string::axiom_spec_iter, vstd::string::next_postcondition;

    let mut it = s.chars();
    let mut out: Vec<char> = Vec::new();
    loop
        invariant
            out@ + it.remaining() == s@,
        ensures
            out@ =~= s@,
        decreases s@.len() - out@.len(),
    {
        match it.next() {
            Some(c) => {
                out.push(c);
            },
            None => {
                proof {
                    assert(it.remaining().len() == 0);
                }
                break;
            },
        }
    }
    out
}

/// The longest keyword, in characters, that a text chunk carries.
pub const MAX_KEY_LEN: usize = 79;

pub open spec fn latin1(c: char) -> bool {
    (c as u32) <= 255
}

pub open spec fn all_latin1(s: Seq<char>) -> bool {
    forall|i: int| 0 <= i < s.len() ==> latin1(#[trigger] s[i])
}

/// A keyword is non-empty Latin-1 text without the NUL that ends it in the chunk.
pub open spec fn key_fault(k: Seq<char>) -> Option<FormatError> {
    if k.len() == 0 || !all_latin1(k) || k.contains('\0') {
        Some(FormatError::InvalidEncoding)
    } else if k.len() > MAX_KEY_LEN {
        Some(FormatError::KeyTooLong)
    } else {
        None
    }
}

pub open spec fn entry_fault(p: EntryView) -> Option<FormatError> {
    if key_fault(p.0) is Some {
        key_fault(p.0)
    } else if !all_latin1(p.1) {
        Some(FormatError::InvalidEncoding)
    } else {
        None
    }
}

/// The fault of the first entry that cannot be written, if any.
pub open spec fn entries_fault(e: Seq<EntryView>) -> Option<FormatError>
    decreases e.len(),
{
    if e.len() == 0 {
        None
    } else if entry_fault(e[0]) is Some {
        entry_fault(e[0])
    } else {
        entries_fault(e.drop_first())
    }
}

fn all_latin1_exec(s: &Vec<char>) -> (r: bool)
    ensures
        r == all_latin1(s@),
{
    let mut i: usize = 0;
    while i < s.len()
        invariant
            i <= s.len(),
            forall|j: int| 0 <= j < i ==> latin1(#[trigger] s@[j]),
        decreases s.len() - i,
    {
        if (s[i] as u32) > 255 {
            return false;
        }
        i = i + 1;
    }
    true
}

fn contains_nul(s: &Vec<char>) -> (r: bool)
    ensures
        r == s@.contains('\0'),
{
    let mut i: usize = 0;
    while i < s.len()
        invariant
            i <= s.len(),
            forall|j: int| 0 <= j < i ==> s@[j] != '\0',
        decreases s.len() - i,
    {
        if s[i] == '\0' {
            return true;
        }
        i = i + 1;
    }
    false
}

/// Checks one entry against what an uncompressed text chunk can carry.
pub fn check_entry(key: &str, value: &str) -> (r: Option<FormatError>)
    ensures
        r == entry_fault((key@, value@)),
{
    let k = chars_of(key);
    let v = chars_of(value);
    if k.len() == 0 || !all_latin1_exec(&k) || contains_nul(&k) {
        Some(FormatError::InvalidEncoding)
    } else if k.len() > MAX_KEY_LEN {
        Some(FormatError::KeyTooLong)
    } else if !all_latin1_exec(&v) {
        Some(FormatError::InvalidEncoding)
    } else {
        None
    }
}

/// Checks a list of entries; the first entry that cannot be written decides the fault.
pub fn check_entries(entries: &Vec<(String, String)>) -> (r: Option<FormatError>)
    ensures
        r == entries_fault(entries_view(entries@)),
{
    let ghost e = entries_view(entries@);
    let mut i: usize = 0;
    proof {
        assert(e.subrange(0, e.len() as int) =~= e);
    }
    while i < entries.len()
        invariant
            i <= entries.len(),
            e == entries_view(entries@),
            entries_fault(e) == entries_fault(e.subrange(i as int, e.len() as int)),
        decreases entries.len() - i,
    {
        let ghost rest = e.subrange(i as int, e.len() as int);
        proof {
            assert(rest[0] == e[i as int]);
            assert(rest.drop_first() =~= e.subrange(i + 1, e.len() as int));
        }
        let f = check_entry(entries[i].0.as_str(), entries[i].1.as_str());
        if f.is_some() {
            return f;
        }
        i = i + 1;
    }
    proof {
        assert(e.subrange(i as int, e.len() as int).len() == 0);
    }
    None
}

fn read_be32(b: &[u8], at: usize) -> (r: u32)
    requires
        at + 4 <= b@.len(),
    ensures
        r as int == be32(b@, at as int),
{
    let v: u64 = (b[at] as u64) * 16777216 + (b[at + 1] as u64) * 65536 + (b[at + 2] as u64) * 256
        + (b[at + 3] as u64);
    v as u32
}

fn color_from_code(c: u8) -> (r: Option<ColorKind>)
    ensures
        r == color_of_code(c),
{
    if c == 0 {
        Some(ColorKind::Grayscale)
    } else if c == 2 {
        Some(ColorKind::Rgb)
    } else if c == 3 {
        Some(ColorKind::Indexed)
    } else if c == 4 {
        Some(ColorKind::GrayscaleAlpha)
    } else if c == 6 {
        Some(ColorKind::Rgba)
    } else {
        None
    }
}

fn color_code(c: ColorKind) -> (r: u8)
    ensures
        r == code_of_color(c),
{
    match c {
        ColorKind::Grayscale => 0,
        ColorKind::Rgb => 2,
        ColorKind::Indexed => 3,
        ColorKind::GrayscaleAlpha => 4,
        ColorKind::Rgba => 6,
    }
}

fn depth_ok(c: ColorKind, d: u8) -> (r: bool)
    ensures
        r == depth_allowed(c, d),
{
    match c {
        ColorKind::Grayscale => d == 1 || d == 2 || d == 4 || d == 8 || d == 16,
        ColorKind::Indexed => d == 1 || d == 2 || d == 4 || d == 8,
        _ => d == 8 || d == 16,
    }
}

fn samples(c: ColorKind) -> (r: u128)
    ensures
        r == samples_per_pixel(c),
        1 <= r <= 4,
{
    match c {
        ColorKind::Grayscale => 1,
        ColorKind::Rgb => 3,
        ColorKind::Indexed => 1,
        ColorKind::GrayscaleAlpha => 2,
        ColorKind::Rgba => 4,
    }
}

/// The length that the sample buffer of an image with header `h` must have.
pub fn expected_pixel_len(h: PngHeader) -> (r: u128)
    ensures
        r == pixel_len(h),
{
    let s = samples(h.color);
    let w = h.width as u128;
    let d = h.depth as u128;
    proof {
        assert(w * s <= 0xffff_ffffu128 * 4) by (nonlinear_arith)
            requires
                w <= 0xffff_ffffu128,
                s <= 4,
        ;
        assert(w * s * d <= 0xffff_ffffu128 * 4 * 255) by (nonlinear_arith)
            requires
                w * s <= 0xffff_ffffu128 * 4,
                d <= 255,
        ;
    }
    let row = (w * s * d + 7) / 8;
    let ht = h.height as u128;
    proof {
        assert(row * ht <= (0xffff_ffffu128 * 4 * 255 + 7) * 0xffff_ffffu128) by (nonlinear_arith)
            requires
                row <= 0xffff_ffffu128 * 4 * 255 + 7,
                ht <= 0xffff_ffffu128,
        ;
    }
    ht * row
}

/// What decoding a byte stream gives: the header, the samples and the text entries, or the
/// first fault met.
pub open spec fn decode_spec(b: Seq<u8>) -> Result<(PngHeader, Seq<u8>, Seq<EntryView>), FormatError> {
    if !has_png_signature(b) {
        Err(FormatError::NotAPng)
    } else if !header_present(b) || !png_header_accepted(b) {
        Err(FormatError::MissingHeader)
    } else {
        match png_decoded(b) {
            Some(d) => if d.0.len() == pixel_len(header_of(b)) {
                Ok((header_of(b), d.0, d.1))
            } else {
                Err(FormatError::CorruptImageData)
            },
            None => Err(FormatError::CorruptImageData),
        }
    }
}

pub open spec fn decode_view(r: Result<(Raster, Vec<(String, String)>), FormatError>) -> Result<
    (PngHeader, Seq<u8>, Seq<EntryView>),
    FormatError,
> {
    match r {
        Ok(d) => Ok((d.0.header, d.0.pixels@, entries_view(d.1@))),
        Err(f) => Err(f),
    }
}

fn signature_ok(b: &[u8]) -> (r: bool)
    ensures
        r == has_png_signature(b@),
{
    b.len() >= 8 && b[0] == 137 && b[1] == 80 && b[2] == 78 && b[3] == 71 && b[4] == 13 && b[5] == 10
        && b[6] == 26 && b[7] == 10
}

/// Reads the header chunk that must follow the signature.
pub fn parse_header(b: &[u8]) -> (r: Option<PngHeader>)
    ensures
        r == (if header_present(b@) {
            Some(header_of(b@))
        } else {
            None
        }),
{
    if b.len() < 33 {
        return None;
    }
    let len = read_be32(b, 8);
    let width = read_be32(b, 16);
    let height = read_be32(b, 20);
    if len != 13 || b[12] != 73 || b[13] != 72 || b[14] != 68 || b[15] != 82 || width == 0
        || height == 0 || b[26] != 0 || b[27] != 0 || b[28] > 1 {
        return None;
    }
    match color_from_code(b[25]) {
        Some(color) => {
            if depth_ok(color, b[24]) {
                Some(PngHeader { width, height, color, depth: b[24] })
            } else {
                None
            }
        },
        None => None,
    }
}

/// Decodes a PNG stream into its raster and its uncompressed text entries, in file order.
pub fn decode(bytes: &[u8]) -> (r: Result<(Raster, Vec<(String, String)>), FormatError>)
    ensures
        decode_view(r) == decode_spec(bytes@),
        r matches Ok(d) ==> entries_fault(entries_view(d.1@)) is None,
{
    if !signature_ok(bytes) {
        return Err(FormatError::NotAPng);
    }
    let header = match parse_header(bytes) {
        Some(h) => h,
        None => {
            return Err(FormatError::MissingHeader);
        },
    };
    let probe = make_header_probe(bytes);
    if !png_read_info(probe.as_slice()) {
        return Err(FormatError::MissingHeader);
    }
    match png_decode(bytes) {
        Some(d) => {
            let (pixels, entries) = d;
            if pixels.len() as u128 == expected_pixel_len(header) {
                Ok((Raster { header, pixels }, entries))
            } else {
                Err(FormatError::CorruptImageData)
            }
        },
        None => Err(FormatError::CorruptImageData),
    }
}

/// Why a raster cannot be written, if it cannot: palette images and depths the colour type
/// does not allow are not encodable, and the samples must fill the declared dimensions.
pub open spec fn raster_fault(h: PngHeader, px: Seq<u8>) -> Option<FormatError> {
    if !encodable(h) {
        Some(FormatError::UnsupportedColorType)
    } else if h.width == 0 || h.height == 0 || px.len() != pixel_len(h) {
        Some(FormatError::CorruptImageData)
    } else {
        None
    }
}

/// What encoding gives: the stream png writes, or the first fault met.
pub open spec fn encode_spec(h: PngHeader, px: Seq<u8>, e: Seq<EntryView>) -> Result<Seq<u8>, FormatError> {
    if raster_fault(h, px) is Some {
        Err(raster_fault(h, px)->0)
    } else if entries_fault(e) is Some {
        Err(entries_fault(e)->0)
    } else {
        match png_encoded(h.width, h.height, code_of_color(h.color), h.depth, px, e) {
            Some(b) => Ok(b),
            None => Err(FormatError::UnsupportedColorType),
        }
    }
}

/// The stream opens with the header chunk of `h`.
pub open spec fn written_from(b: Seq<u8>, h: PngHeader) -> bool {
    opens_with_header(b, h.width, h.height, code_of_color(h.color), h.depth)
}

/// `b` is what png wrote for `h`, `px` and `e`: it opens with the header chunk of `h`, and
/// for an image of readable size png's decoder accepts that header and gives `px` and `e` back.
pub open spec fn encoded_from(b: Seq<u8>, h: PngHeader, px: Seq<u8>, e: Seq<EntryView>) -> bool {
    &&& written_from(b, h)
    &&& readable_size(h, e) ==> png_header_accepted(b) && png_decoded(b) == Some((px, e))
}

pub open spec fn encode_view(r: Result<Vec<u8>, FormatError>) -> Result<Seq<u8>, FormatError> {
    match r {
        Ok(b) => Ok(b@),
        Err(f) => Err(f),
    }
}

/// Encodes a raster with one uncompressed text chunk per entry, in list order, ahead of the
/// image data.
pub fn encode(raster: &Raster, entries: &Vec<(String, String)>) -> (r: Result<Vec<u8>, FormatError>)
    ensures
        encode_view(r) == encode_spec(raster.header, raster.pixels@, entries_view(entries@)),
        r matches Ok(b) ==> encoded_from(b@, raster.header, raster.pixels@, entries_view(entries@)),
        raster_fault(raster.header, raster.pixels@) is None && entries_fault(entries_view(entries@))
            is None ==> r is Ok,
{
    let h = raster.header;
    if !(h.color != ColorKind::Indexed && depth_ok(h.color, h.depth)) {
        return Err(FormatError::UnsupportedColorType);
    }
    if h.width == 0 || h.height == 0 || raster.pixels.len() as u128 != expected_pixel_len(h) {
        return Err(FormatError::CorruptImageData);
    }
    match check_entries(entries) {
        Some(f) => {
            return Err(f);
        },
        None => {},
    }
    proof {
        assert(color_of_code(code_of_color(h.color)) == Some(h.color));
        lemma_entries_valid(entries_view(entries@));
    }
    match png_encode(h.width, h.height, color_code(h.color), h.depth, raster.pixels.as_slice(), entries) {
        Some(b) => Ok(b),
        None => Err(FormatError::UnsupportedColorType),
    }
}

/// A list has no fault exactly when none of its entries has one.
pub proof fn lemma_entries_valid(e: Seq<EntryView>)
    ensures
        entries_fault(e) is None <==> forall|i: int|
            0 <= i < e.len() ==> entry_fault(#[trigger] e[i]) is None,
        entries_fault(e) is None ==> keys_nul_free(e),
    decreases e.len(),
{
    if e.len() > 0 {
        lemma_entries_valid(e.drop_first());
        if entries_fault(e) is None {
            assert forall|i: int| 0 <= i < e.len() implies entry_fault(#[trigger] e[i]) is None by {
                if i > 0 {
                    assert(e[i] == e.drop_first()[i - 1]);
                }
            }
        }
        if forall|i: int| 0 <= i < e.len() ==> entry_fault(#[trigger] e[i]) is None {
            assert(entry_fault(e[0]) is None);
            assert forall|i: int| 0 <= i < e.drop_first().len() implies entry_fault(
                #[trigger] e.drop_first()[i],
            ) is None by {
                assert(e.drop_first()[i] == e[i + 1]);
            }
        }
    }
}

/// Decoding what `encode` wrote for an image of readable size gives back the header, the
/// samples and the entries exactly.
pub proof fn lemma_round_trip(h: PngHeader, px: Seq<u8>, e: Seq<EntryView>, b: Seq<u8>)
    requires
        encode_spec(h, px, e) == Ok::<Seq<u8>, FormatError>(b),
        encoded_from(b, h, px, e),
        readable_size(h, e),
    ensures
        decode_spec(b) == Ok::<(PngHeader, Seq<u8>, Seq<EntryView>), FormatError>((h, px, e)),
{
    assert(color_of_code(code_of_color(h.color)) == Some(h.color));
    assert(header_present(b));
    assert(header_of(b) == h);
}

} // verus!
