//! Image formats: recognising one from its first bytes, and its file extensions and
//! MIME type.
use vstd::prelude::*;

verus! {

/// An image format.
#[derive(Clone, Copy, PartialEq, Eq, Structural, Debug, Hash)]
#[non_exhaustive]
pub enum ImageFormat {
    Png,
    Jpeg,
    Gif,
    WebP,
    Pnm,
    Tiff,
    Tga,
    Dds,
    Bmp,
    Ico,
    Hdr,
    OpenExr,
    Farbfeld,
    Avif,
    Qoi,
}


/// Number of known signatures.
pub open spec fn n_signatures() -> int {
    23
}

/// The `i`-th signature: the bytes an image of format `signature_format(i)` starts
/// with. Earlier signatures are tried first.
pub open spec fn signature(i: int) -> Seq<u8> {
        if i == 0 {
            seq![0x89u8, 0x50u8, 0x4eu8, 0x47u8, 0x0du8, 0x0au8, 0x1au8, 0x0au8]
        } else if i == 1 {
            seq![0xffu8, 0xd8u8, 0xffu8]
        } else if i == 2 {
            seq![0x47u8, 0x49u8, 0x46u8, 0x38u8, 0x39u8, 0x61u8]
        } else if i == 3 {
            seq![0x47u8, 0x49u8, 0x46u8, 0x38u8, 0x37u8, 0x61u8]
        } else if i == 4 {
            seq![0x52u8, 0x49u8, 0x46u8, 0x46u8]
        } else if i == 5 {
            seq![0x4du8, 0x4du8, 0x00u8, 0x2au8]
        } else if i == 6 {
            seq![0x49u8, 0x49u8, 0x2au8, 0x00u8]
        } else if i == 7 {
            seq![0x44u8, 0x44u8, 0x53u8, 0x20u8]
        } else if i == 8 {
            seq![0x42u8, 0x4du8]
        } else if i == 9 {
            seq![0x00u8, 0x00u8, 0x01u8, 0x00u8]
        } else if i == 10 {
            seq![0x23u8, 0x3fu8, 0x52u8, 0x41u8, 0x44u8, 0x49u8, 0x41u8, 0x4eu8, 0x43u8, 0x45u8]
        } else if i == 11 {
            seq![0x50u8, 0x31u8]
        } else if i == 12 {
            seq![0x50u8, 0x32u8]
        } else if i == 13 {
            seq![0x50u8, 0x33u8]
        } else if i == 14 {
            seq![0x50u8, 0x34u8]
        } else if i == 15 {
            seq![0x50u8, 0x35u8]
        } else if i == 16 {
            seq![0x50u8, 0x36u8]
        } else if i == 17 {
            seq![0x50u8, 0x37u8]
        } else if i == 18 {
            seq![0x66u8, 0x61u8, 0x72u8, 0x62u8, 0x66u8, 0x65u8, 0x6cu8, 0x64u8]
        } else if i == 19 {
            seq![0x00u8, 0x00u8, 0x00u8, 0x20u8, 0x66u8, 0x74u8, 0x79u8, 0x70u8, 0x61u8, 0x76u8, 0x69u8, 0x66u8]
        } else if i == 20 {
            seq![0x00u8, 0x00u8, 0x00u8, 0x1cu8, 0x66u8, 0x74u8, 0x79u8, 0x70u8, 0x61u8, 0x76u8, 0x69u8, 0x66u8]
        } else if i == 21 {
            seq![0x76u8, 0x2fu8, 0x31u8, 0x01u8]
        } else if i == 22 {
            seq![0x71u8, 0x6fu8, 0x69u8, 0x66u8]
        } else {
            Seq::empty()
        }
}

/// The format the `i`-th signature stands for.
pub open spec fn signature_format(i: int) -> ImageFormat {
        if i == 0 {
            ImageFormat::Png
        } else if i == 1 {
            ImageFormat::Jpeg
        } else if i == 2 {
            ImageFormat::Gif
        } else if i == 3 {
            ImageFormat::Gif
        } else if i == 4 {
            ImageFormat::WebP
        } else if i == 5 {
            ImageFormat::Tiff
        } else if i == 6 {
            ImageFormat::Tiff
        } else if i == 7 {
            ImageFormat::Dds
        } else if i == 8 {
            ImageFormat::Bmp
        } else if i == 9 {
            ImageFormat::Ico
        } else if i == 10 {
            ImageFormat::Hdr
        } else if i == 11 {
            ImageFormat::Pnm
        } else if i == 12 {
            ImageFormat::Pnm
        } else if i == 13 {
            ImageFormat::Pnm
        } else if i == 14 {
            ImageFormat::Pnm
        } else if i == 15 {
            ImageFormat::Pnm
        } else if i == 16 {
            ImageFormat::Pnm
        } else if i == 17 {
            ImageFormat::Pnm
        } else if i == 18 {
            ImageFormat::Farbfeld
        } else if i == 19 {
            ImageFormat::Avif
        } else if i == 20 {
            ImageFormat::Avif
        } else if i == 21 {
            ImageFormat::OpenExr
        } else if i == 22 {
            ImageFormat::Qoi
        } else {
            ImageFormat::Png
        }
}

/// Whether `buffer` starts with `prefix`.
pub open spec fn starts_with(buffer: Seq<u8>, prefix: Seq<u8>) -> bool {
    prefix.len() <= buffer.len() && buffer.subrange(0, prefix.len() as int) == prefix
}

/// The format of the first signature, from the `i`-th on, that `buffer` starts with.
pub open spec fn first_match(buffer: Seq<u8>, i: int) -> Option<ImageFormat>
    decreases n_signatures() - i,
{
    if i < 0 || i >= n_signatures() {
        None
    } else if starts_with(buffer, signature(i)) {
        Some(signature_format(i))
    } else {
        first_match(buffer, i + 1)
    }
}

/// The format whose signature a buffer starts with, trying the signatures in order.
pub open spec fn guessed_format(buffer: Seq<u8>) -> Option<ImageFormat> {
    first_match(buffer, 0)
}

fn signature_bytes(i: usize) -> (s: Vec<u8>)
    requires
        i < n_signatures(),
    ensures
        s@ == signature(i as int),
{
    let s = match i {
        0 => vec![0x89u8, 0x50u8, 0x4eu8, 0x47u8, 0x0du8, 0x0au8, 0x1au8, 0x0au8],
        1 => vec![0xffu8, 0xd8u8, 0xffu8],
        2 => vec![0x47u8, 0x49u8, 0x46u8, 0x38u8, 0x39u8, 0x61u8],
        3 => vec![0x47u8, 0x49u8, 0x46u8, 0x38u8, 0x37u8, 0x61u8],
        4 => vec![0x52u8, 0x49u8, 0x46u8, 0x46u8],
        5 => vec![0x4du8, 0x4du8, 0x00u8, 0x2au8],
        6 => vec![0x49u8, 0x49u8, 0x2au8, 0x00u8],
        7 => vec![0x44u8, 0x44u8, 0x53u8, 0x20u8],
        8 => vec![0x42u8, 0x4du8],
        9 => vec![0x00u8, 0x00u8, 0x01u8, 0x00u8],
        10 => vec![0x23u8, 0x3fu8, 0x52u8, 0x41u8, 0x44u8, 0x49u8, 0x41u8, 0x4eu8, 0x43u8, 0x45u8],
        11 => vec![0x50u8, 0x31u8],
        12 => vec![0x50u8, 0x32u8],
        13 => vec![0x50u8, 0x33u8],
        14 => vec![0x50u8, 0x34u8],
        15 => vec![0x50u8, 0x35u8],
        16 => vec![0x50u8, 0x36u8],
        17 => vec![0x50u8, 0x37u8],
        18 => vec![0x66u8, 0x61u8, 0x72u8, 0x62u8, 0x66u8, 0x65u8, 0x6cu8, 0x64u8],
        19 => vec![0x00u8, 0x00u8, 0x00u8, 0x20u8, 0x66u8, 0x74u8, 0x79u8, 0x70u8, 0x61u8, 0x76u8, 0x69u8, 0x66u8],
        20 => vec![0x00u8, 0x00u8, 0x00u8, 0x1cu8, 0x66u8, 0x74u8, 0x79u8, 0x70u8, 0x61u8, 0x76u8, 0x69u8, 0x66u8],
        21 => vec![0x76u8, 0x2fu8, 0x31u8, 0x01u8],
        _ => vec![0x71u8, 0x6fu8, 0x69u8, 0x66u8],
    };
    assert(s@ =~= signature(i as int));
    s
}

fn format_of_signature(i: usize) -> (f: ImageFormat)
    requires
        i < n_signatures(),
    ensures
        f == signature_format(i as int),
{
    match i {
        0 => ImageFormat::Png,
        1 => ImageFormat::Jpeg,
        2 => ImageFormat::Gif,
        3 => ImageFormat::Gif,
        4 => ImageFormat::WebP,
        5 => ImageFormat::Tiff,
        6 => ImageFormat::Tiff,
        7 => ImageFormat::Dds,
        8 => ImageFormat::Bmp,
        9 => ImageFormat::Ico,
        10 => ImageFormat::Hdr,
        11 => ImageFormat::Pnm,
        12 => ImageFormat::Pnm,
        13 => ImageFormat::Pnm,
        14 => ImageFormat::Pnm,
        15 => ImageFormat::Pnm,
        16 => ImageFormat::Pnm,
        17 => ImageFormat::Pnm,
        18 => ImageFormat::Farbfeld,
        19 => ImageFormat::Avif,
        20 => ImageFormat::Avif,
        21 => ImageFormat::OpenExr,
        _ => ImageFormat::Qoi,
    }
}

fn buffer_starts_with(buffer: &[u8], prefix: &Vec<u8>) -> (r: bool)
    ensures
        r == starts_with(buffer@, prefix@),
{
    if prefix.len() > buffer.len() {
        return false;
    }
    let mut i: usize = 0;
    while i < prefix.len()
        invariant
            prefix@.len() <= buffer@.len(),
            i <= prefix@.len(),
            forall|k: int| 0 <= k < i ==> buffer@[k] == prefix@[k],
        decreases prefix@.len() - i,
    {
        if buffer[i] != prefix[i] {
            assert(buffer@.subrange(0, prefix@.len() as int)[i as int] != prefix@[i as int]);
            return false;
        }
        i = i + 1;
    }
    assert(buffer@.subrange(0, prefix@.len() as int) =~= prefix@);
    true
}

/// The file extensions of a format, the usual one first.
pub open spec fn format_extensions(format: ImageFormat) -> Seq<Seq<char>> {
    match format {
            ImageFormat::Png => seq!["png"@],
            ImageFormat::Jpeg => seq!["jpg"@, "jpeg"@],
            ImageFormat::Gif => seq!["gif"@],
            ImageFormat::WebP => seq!["webp"@],
            ImageFormat::Pnm => seq!["pbm"@, "pam"@, "ppm"@, "pgm"@],
            ImageFormat::Tiff => seq!["tiff"@, "tif"@],
            ImageFormat::Tga => seq!["tga"@],
            ImageFormat::Dds => seq!["dds"@],
            ImageFormat::Bmp => seq!["bmp"@],
            ImageFormat::Ico => seq!["ico"@],
            ImageFormat::Hdr => seq!["hdr"@],
            ImageFormat::OpenExr => seq!["exr"@],
            ImageFormat::Farbfeld => seq!["ff"@],
            ImageFormat::Avif => seq!["avif"@],
            ImageFormat::Qoi => seq!["qoi"@],
    }
}

/// The MIME type of a format.
pub open spec fn format_mime(format: ImageFormat) -> Seq<char> {
    match format {
        ImageFormat::Avif => "image/avif"@,
        ImageFormat::Jpeg => "image/jpeg"@,
        ImageFormat::Png => "image/png"@,
        ImageFormat::Gif => "image/gif"@,
        ImageFormat::WebP => "image/webp"@,
        ImageFormat::Tiff => "image/tiff"@,
        ImageFormat::Tga => "image/x-targa"@,
        ImageFormat::Dds => "image/vnd-ms.dds"@,
        ImageFormat::Bmp => "image/bmp"@,
        ImageFormat::Ico => "image/x-icon"@,
        ImageFormat::Hdr => "image/vnd.radiance"@,
        ImageFormat::OpenExr => "image/x-exr"@,
        ImageFormat::Pnm => "image/x-portable-anymap"@,
        ImageFormat::Qoi => "image/x-qoi"@,
        ImageFormat::Farbfeld => "application/octet-stream"@,
    }
}

/// A text with every ASCII upper-case letter made lower-case, as
/// `str::to_ascii_lowercase` does.
pub open spec fn ascii_lowercase(s: Seq<char>) -> Seq<char> {
    s.map_values(|c: char| if 'A' <= c && c <= 'Z' { ((c as u32) + 32) as char } else { c })
}

/// The format an extension stands for, ignoring ASCII case.
pub open spec fn format_for_extension(ext: Seq<char>) -> Option<ImageFormat> {
    let lower = ascii_lowercase(ext);
    if lower == "avif"@ {
        Some(ImageFormat::Avif)
    } else if lower == "jpg"@ {
        Some(ImageFormat::Jpeg)
    } else if lower == "jpeg"@ {
        Some(ImageFormat::Jpeg)
    } else if lower == "png"@ {
        Some(ImageFormat::Png)
    } else if lower == "gif"@ {
        Some(ImageFormat::Gif)
    } else if lower == "webp"@ {
        Some(ImageFormat::WebP)
    } else if lower == "tif"@ {
        Some(ImageFormat::Tiff)
    } else if lower == "tiff"@ {
        Some(ImageFormat::Tiff)
    } else if lower == "tga"@ {
        Some(ImageFormat::Tga)
    } else if lower == "dds"@ {
        Some(ImageFormat::Dds)
    } else if lower == "bmp"@ {
        Some(ImageFormat::Bmp)
    } else if lower == "ico"@ {
        Some(ImageFormat::Ico)
    } else if lower == "hdr"@ {
        Some(ImageFormat::Hdr)
    } else if lower == "exr"@ {
        Some(ImageFormat::OpenExr)
    } else if lower == "pbm"@ {
        Some(ImageFormat::Pnm)
    } else if lower == "pam"@ {
        Some(ImageFormat::Pnm)
    } else if lower == "ppm"@ {
        Some(ImageFormat::Pnm)
    } else if lower == "pgm"@ {
        Some(ImageFormat::Pnm)
    } else if lower == "ff"@ {
        Some(ImageFormat::Farbfeld)
    } else if lower == "qoi"@ {
        Some(ImageFormat::Qoi)
    } else {
        None
    }
}

fn lower_ascii(c: char) -> (r: char)
    ensures
        r == (if 'A' <= c && c <= 'Z' { ((c as u32) + 32) as char } else { c }),
{
    if 'A' <= c && c <= 'Z' {
        ((c as u32) + 32) as u8 as char
    } else {
        c
    }
}

fn ascii_eq_ignore_case(cs: &Vec<char>, lower: &str) -> (r: bool)
    ensures
        r == (ascii_lowercase(cs@) == lower@),
{
    let want = crate::text::chars_of(lower);
    if want.len() != cs.len() {
        assert(ascii_lowercase(cs@).len() == cs@.len());
        return false;
    }
    let mut i: usize = 0;
    while i < cs.len()
        invariant
            want@ == lower@,
            want@.len() == cs@.len(),
            i <= cs@.len(),
            forall|k: int| 0 <= k < i ==> ascii_lowercase(cs@)[k] == want@[k],
        decreases cs@.len() - i,
    {
        if lower_ascii(cs[i]) != want[i] {
            assert(ascii_lowercase(cs@)[i as int] != lower@[i as int]);
            return false;
        }
        i = i + 1;
    }
    assert(ascii_lowercase(cs@) =~= lower@);
    true
}

impl ImageFormat {
    /// Recognises the format of an image from its first bytes: the format of the first
    /// known signature the buffer starts with, or `None`.
    pub fn guess_format(buffer: &[u8]) -> (r: Option<Self>)
        ensures
            r == guessed_format(buffer@),
    {
        let mut i: usize = 0;
        while i < 23
            invariant
                0 <= i <= n_signatures(),
                guessed_format(buffer@) == first_match(buffer@, i as int),
            decreases 23 - i,
        {
            let sig = signature_bytes(i);
            if buffer_starts_with(buffer, &sig) {
                return Some(format_of_signature(i));
            }
            i = i + 1;
        }
        None
    }

    /// The file extensions of the format, the usual one first.
    pub fn extensions_str(self) -> (exts: &'static [&'static str])
        ensures
            exts@.map_values(|e: &str| e@) == format_extensions(self),
            exts@.len() > 0,
    {
        let exts: &'static [&'static str] = match self {
            ImageFormat::Png => &["png"],
            ImageFormat::Jpeg => &["jpg", "jpeg"],
            ImageFormat::Gif => &["gif"],
            ImageFormat::WebP => &["webp"],
            ImageFormat::Pnm => &["pbm", "pam", "ppm", "pgm"],
            ImageFormat::Tiff => &["tiff", "tif"],
            ImageFormat::Tga => &["tga"],
            ImageFormat::Dds => &["dds"],
            ImageFormat::Bmp => &["bmp"],
            ImageFormat::Ico => &["ico"],
            ImageFormat::Hdr => &["hdr"],
            ImageFormat::OpenExr => &["exr"],
            ImageFormat::Farbfeld => &["ff"],
            ImageFormat::Avif => &["avif"],
            ImageFormat::Qoi => &["qoi"],
        };
        assert(exts@.map_values(|e: &str| e@) =~= format_extensions(self));
        exts
    }

    /// The MIME type of the format.
    pub fn to_mime_type(self) -> (mime: &'static str)
        ensures
            mime@ == format_mime(self),
    {
        match self {
            ImageFormat::Avif => "image/avif",
            ImageFormat::Jpeg => "image/jpeg",
            ImageFormat::Png => "image/png",
            ImageFormat::Gif => "image/gif",
            ImageFormat::WebP => "image/webp",
            ImageFormat::Tiff => "image/tiff",
            ImageFormat::Tga => "image/x-targa",
            ImageFormat::Dds => "image/vnd-ms.dds",
            ImageFormat::Bmp => "image/bmp",
            ImageFormat::Ico => "image/x-icon",
            ImageFormat::Hdr => "image/vnd.radiance",
            ImageFormat::OpenExr => "image/x-exr",
            ImageFormat::Pnm => "image/x-portable-anymap",
            ImageFormat::Qoi => "image/x-qoi",
            ImageFormat::Farbfeld => "application/octet-stream",
        }
    }

    /// The format a file extension stands for, ignoring ASCII case.
    pub fn from_extension(ext: &str) -> (r: Option<Self>)
        ensures
            r == format_for_extension(ext@),
    {
        let cs = crate::text::chars_of(ext);
        if ascii_eq_ignore_case(&cs, "avif") {
            Some(ImageFormat::Avif)
        } else if ascii_eq_ignore_case(&cs, "jpg") {
            Some(ImageFormat::Jpeg)
        } else if ascii_eq_ignore_case(&cs, "jpeg") {
            Some(ImageFormat::Jpeg)
        } else if ascii_eq_ignore_case(&cs, "png") {
            Some(ImageFormat::Png)
        } else if ascii_eq_ignore_case(&cs, "gif") {
            Some(ImageFormat::Gif)
        } else if ascii_eq_ignore_case(&cs, "webp") {
            Some(ImageFormat::WebP)
        } else if ascii_eq_ignore_case(&cs, "tif") {
            Some(ImageFormat::Tiff)
        } else if ascii_eq_ignore_case(&cs, "tiff") {
            Some(ImageFormat::Tiff)
        } else if ascii_eq_ignore_case(&cs, "tga") {
            Some(ImageFormat::Tga)
        } else if ascii_eq_ignore_case(&cs, "dds") {
            Some(ImageFormat::Dds)
        } else if ascii_eq_ignore_case(&cs, "bmp") {
            Some(ImageFormat::Bmp)
        } else if ascii_eq_ignore_case(&cs, "ico") {
            Some(ImageFormat::Ico)
        } else if ascii_eq_ignore_case(&cs, "hdr") {
            Some(ImageFormat::Hdr)
        } else if ascii_eq_ignore_case(&cs, "exr") {
            Some(ImageFormat::OpenExr)
        } else if ascii_eq_ignore_case(&cs, "pbm") {
            Some(ImageFormat::Pnm)
        } else if ascii_eq_ignore_case(&cs, "pam") {
            Some(ImageFormat::Pnm)
        } else if ascii_eq_ignore_case(&cs, "ppm") {
            Some(ImageFormat::Pnm)
        } else if ascii_eq_ignore_case(&cs, "pgm") {
            Some(ImageFormat::Pnm)
        } else if ascii_eq_ignore_case(&cs, "ff") {
            Some(ImageFormat::Farbfeld)
        } else if ascii_eq_ignore_case(&cs, "qoi") {
            Some(ImageFormat::Qoi)
        } else {
            None
        }
    }
}

proof fn lemma_extension_literals_are_lowercase()
    ensures
        ascii_lowercase("avif"@) == "avif"@,
        ascii_lowercase("bmp"@) == "bmp"@,
        ascii_lowercase("dds"@) == "dds"@,
        ascii_lowercase("exr"@) == "exr"@,
        ascii_lowercase("ff"@) == "ff"@,
        ascii_lowercase("gif"@) == "gif"@,
        ascii_lowercase("hdr"@) == "hdr"@,
        ascii_lowercase("ico"@) == "ico"@,
        ascii_lowercase("jpeg"@) == "jpeg"@,
        ascii_lowercase("jpg"@) == "jpg"@,
        ascii_lowercase("pam"@) == "pam"@,
        ascii_lowercase("pbm"@) == "pbm"@,
        ascii_lowercase("pgm"@) == "pgm"@,
        ascii_lowercase("png"@) == "png"@,
        ascii_lowercase("ppm"@) == "ppm"@,
        ascii_lowercase("qoi"@) == "qoi"@,
        ascii_lowercase("tga"@) == "tga"@,
        ascii_lowercase("tif"@) == "tif"@,
        ascii_lowercase("tiff"@) == "tiff"@,
        ascii_lowercase("webp"@) == "webp"@,
{
    reveal_strlit("avif");
    reveal_strlit("bmp");
    reveal_strlit("dds");
    reveal_strlit("exr");
    reveal_strlit("ff");
    reveal_strlit("gif");
    reveal_strlit("hdr");
    reveal_strlit("ico");
    reveal_strlit("jpeg");
    reveal_strlit("jpg");
    reveal_strlit("pam");
    reveal_strlit("pbm");
    reveal_strlit("pgm");
    reveal_strlit("png");
    reveal_strlit("ppm");
    reveal_strlit("qoi");
    reveal_strlit("tga");
    reveal_strlit("tif");
    reveal_strlit("tiff");
    reveal_strlit("webp");
    assert(ascii_lowercase("avif"@) =~= "avif"@);
    assert(ascii_lowercase("bmp"@) =~= "bmp"@);
    assert(ascii_lowercase("dds"@) =~= "dds"@);
    assert(ascii_lowercase("exr"@) =~= "exr"@);
    assert(ascii_lowercase("ff"@) =~= "ff"@);
    assert(ascii_lowercase("gif"@) =~= "gif"@);
    assert(ascii_lowercase("hdr"@) =~= "hdr"@);
    assert(ascii_lowercase("ico"@) =~= "ico"@);
    assert(ascii_lowercase("jpeg"@) =~= "jpeg"@);
    assert(ascii_lowercase("jpg"@) =~= "jpg"@);
    assert(ascii_lowercase("pam"@) =~= "pam"@);
    assert(ascii_lowercase("pbm"@) =~= "pbm"@);
    assert(ascii_lowercase("pgm"@) =~= "pgm"@);
    assert(ascii_lowercase("png"@) =~= "png"@);
    assert(ascii_lowercase("ppm"@) =~= "ppm"@);
    assert(ascii_lowercase("qoi"@) =~= "qoi"@);
    assert(ascii_lowercase("tga"@) =~= "tga"@);
    assert(ascii_lowercase("tif"@) =~= "tif"@);
    assert(ascii_lowercase("tiff"@) =~= "tiff"@);
    assert(ascii_lowercase("webp"@) =~= "webp"@);
}

proof fn lemma_extension_literals_read_back()
    ensures
        format_for_extension("png"@) == Some(ImageFormat::Png),
        format_for_extension("jpg"@) == Some(ImageFormat::Jpeg),
        format_for_extension("jpeg"@) == Some(ImageFormat::Jpeg),
        format_for_extension("gif"@) == Some(ImageFormat::Gif),
        format_for_extension("webp"@) == Some(ImageFormat::WebP),
        format_for_extension("pbm"@) == Some(ImageFormat::Pnm),
        format_for_extension("pam"@) == Some(ImageFormat::Pnm),
        format_for_extension("ppm"@) == Some(ImageFormat::Pnm),
        format_for_extension("pgm"@) == Some(ImageFormat::Pnm),
        format_for_extension("tiff"@) == Some(ImageFormat::Tiff),
        format_for_extension("tif"@) == Some(ImageFormat::Tiff),
        format_for_extension("tga"@) == Some(ImageFormat::Tga),
        format_for_extension("dds"@) == Some(ImageFormat::Dds),
        format_for_extension("bmp"@) == Some(ImageFormat::Bmp),
        format_for_extension("ico"@) == Some(ImageFormat::Ico),
        format_for_extension("hdr"@) == Some(ImageFormat::Hdr),
        format_for_extension("exr"@) == Some(ImageFormat::OpenExr),
        format_for_extension("ff"@) == Some(ImageFormat::Farbfeld),
        format_for_extension("avif"@) == Some(ImageFormat::Avif),
        format_for_extension("qoi"@) == Some(ImageFormat::Qoi),
{
    lemma_extension_literals_are_lowercase();
    reveal_strlit("avif");
    reveal_strlit("bmp");
    reveal_strlit("dds");
    reveal_strlit("exr");
    reveal_strlit("ff");
    reveal_strlit("gif");
    reveal_strlit("hdr");
    reveal_strlit("ico");
    reveal_strlit("jpeg");
    reveal_strlit("jpg");
    reveal_strlit("pam");
    reveal_strlit("pbm");
    reveal_strlit("pgm");
    reveal_strlit("png");
    reveal_strlit("ppm");
    reveal_strlit("qoi");
    reveal_strlit("tga");
    reveal_strlit("tif");
    reveal_strlit("tiff");
    reveal_strlit("webp");
    assert("jpeg"@ != "avif"@) by { assert("jpeg"@[0] != "avif"@[0]); }
    assert("png"@ != "jpg"@) by { assert("png"@[0] != "jpg"@[0]); }
    assert("gif"@ != "jpg"@) by { assert("gif"@[0] != "jpg"@[0]); }
    assert("gif"@ != "png"@) by { assert("gif"@[0] != "png"@[0]); }
    assert("webp"@ != "avif"@) by { assert("webp"@[0] != "avif"@[0]); }
    assert("webp"@ != "jpeg"@) by { assert("webp"@[0] != "jpeg"@[0]); }
    assert("tif"@ != "jpg"@) by { assert("tif"@[0] != "jpg"@[0]); }
    assert("tif"@ != "png"@) by { assert("tif"@[0] != "png"@[0]); }
    assert("tif"@ != "gif"@) by { assert("tif"@[0] != "gif"@[0]); }
    assert("tiff"@ != "avif"@) by { assert("tiff"@[0] != "avif"@[0]); }
    assert("tiff"@ != "jpeg"@) by { assert("tiff"@[0] != "jpeg"@[0]); }
    assert("tiff"@ != "webp"@) by { assert("tiff"@[0] != "webp"@[0]); }
    assert("tga"@ != "jpg"@) by { assert("tga"@[0] != "jpg"@[0]); }
    assert("tga"@ != "png"@) by { assert("tga"@[0] != "png"@[0]); }
    assert("tga"@ != "gif"@) by { assert("tga"@[0] != "gif"@[0]); }
    assert("tga"@ != "tif"@) by { assert("tga"@[1] != "tif"@[1]); }
    assert("dds"@ != "jpg"@) by { assert("dds"@[0] != "jpg"@[0]); }
    assert("dds"@ != "png"@) by { assert("dds"@[0] != "png"@[0]); }
    assert("dds"@ != "gif"@) by { assert("dds"@[0] != "gif"@[0]); }
    assert("dds"@ != "tif"@) by { assert("dds"@[0] != "tif"@[0]); }
    assert("dds"@ != "tga"@) by { assert("dds"@[0] != "tga"@[0]); }
    assert("bmp"@ != "jpg"@) by { assert("bmp"@[0] != "jpg"@[0]); }
    assert("bmp"@ != "png"@) by { assert("bmp"@[0] != "png"@[0]); }
    assert("bmp"@ != "gif"@) by { assert("bmp"@[0] != "gif"@[0]); }
    assert("bmp"@ != "tif"@) by { assert("bmp"@[0] != "tif"@[0]); }
    assert("bmp"@ != "tga"@) by { assert("bmp"@[0] != "tga"@[0]); }
    assert("bmp"@ != "dds"@) by { assert("bmp"@[0] != "dds"@[0]); }
    assert("ico"@ != "jpg"@) by { assert("ico"@[0] != "jpg"@[0]); }
    assert("ico"@ != "png"@) by { assert("ico"@[0] != "png"@[0]); }
    assert("ico"@ != "gif"@) by { assert("ico"@[0] != "gif"@[0]); }
    assert("ico"@ != "tif"@) by { assert("ico"@[0] != "tif"@[0]); }
    assert("ico"@ != "tga"@) by { assert("ico"@[0] != "tga"@[0]); }
    assert("ico"@ != "dds"@) by { assert("ico"@[0] != "dds"@[0]); }
    assert("ico"@ != "bmp"@) by { assert("ico"@[0] != "bmp"@[0]); }
    assert("hdr"@ != "jpg"@) by { assert("hdr"@[0] != "jpg"@[0]); }
    assert("hdr"@ != "png"@) by { assert("hdr"@[0] != "png"@[0]); }
    assert("hdr"@ != "gif"@) by { assert("hdr"@[0] != "gif"@[0]); }
    assert("hdr"@ != "tif"@) by { assert("hdr"@[0] != "tif"@[0]); }
    assert("hdr"@ != "tga"@) by { assert("hdr"@[0] != "tga"@[0]); }
    assert("hdr"@ != "dds"@) by { assert("hdr"@[0] != "dds"@[0]); }
    assert("hdr"@ != "bmp"@) by { assert("hdr"@[0] != "bmp"@[0]); }
    assert("hdr"@ != "ico"@) by { assert("hdr"@[0] != "ico"@[0]); }
    assert("exr"@ != "jpg"@) by { assert("exr"@[0] != "jpg"@[0]); }
    assert("exr"@ != "png"@) by { assert("exr"@[0] != "png"@[0]); }
    assert("exr"@ != "gif"@) by { assert("exr"@[0] != "gif"@[0]); }
    assert("exr"@ != "tif"@) by { assert("exr"@[0] != "tif"@[0]); }
    assert("exr"@ != "tga"@) by { assert("exr"@[0] != "tga"@[0]); }
    assert("exr"@ != "dds"@) by { assert("exr"@[0] != "dds"@[0]); }
    assert("exr"@ != "bmp"@) by { assert("exr"@[0] != "bmp"@[0]); }
    assert("exr"@ != "ico"@) by { assert("exr"@[0] != "ico"@[0]); }
    assert("exr"@ != "hdr"@) by { assert("exr"@[0] != "hdr"@[0]); }
    assert("pbm"@ != "jpg"@) by { assert("pbm"@[0] != "jpg"@[0]); }
    assert("pbm"@ != "png"@) by { assert("pbm"@[1] != "png"@[1]); }
    assert("pbm"@ != "gif"@) by { assert("pbm"@[0] != "gif"@[0]); }
    assert("pbm"@ != "tif"@) by { assert("pbm"@[0] != "tif"@[0]); }
    assert("pbm"@ != "tga"@) by { assert("pbm"@[0] != "tga"@[0]); }
    assert("pbm"@ != "dds"@) by { assert("pbm"@[0] != "dds"@[0]); }
    assert("pbm"@ != "bmp"@) by { assert("pbm"@[0] != "bmp"@[0]); }
    assert("pbm"@ != "ico"@) by { assert("pbm"@[0] != "ico"@[0]); }
    assert("pbm"@ != "hdr"@) by { assert("pbm"@[0] != "hdr"@[0]); }
    assert("pbm"@ != "exr"@) by { assert("pbm"@[0] != "exr"@[0]); }
    assert("pam"@ != "jpg"@) by { assert("pam"@[0] != "jpg"@[0]); }
    assert("pam"@ != "png"@) by { assert("pam"@[1] != "png"@[1]); }
    assert("pam"@ != "gif"@) by { assert("pam"@[0] != "gif"@[0]); }
    assert("pam"@ != "tif"@) by { assert("pam"@[0] != "tif"@[0]); }
    assert("pam"@ != "tga"@) by { assert("pam"@[0] != "tga"@[0]); }
    assert("pam"@ != "dds"@) by { assert("pam"@[0] != "dds"@[0]); }
    assert("pam"@ != "bmp"@) by { assert("pam"@[0] != "bmp"@[0]); }
    assert("pam"@ != "ico"@) by { assert("pam"@[0] != "ico"@[0]); }
    assert("pam"@ != "hdr"@) by { assert("pam"@[0] != "hdr"@[0]); }
    assert("pam"@ != "exr"@) by { assert("pam"@[0] != "exr"@[0]); }
    assert("pam"@ != "pbm"@) by { assert("pam"@[1] != "pbm"@[1]); }
    assert("ppm"@ != "jpg"@) by { assert("ppm"@[0] != "jpg"@[0]); }
    assert("ppm"@ != "png"@) by { assert("ppm"@[1] != "png"@[1]); }
    assert("ppm"@ != "gif"@) by { assert("ppm"@[0] != "gif"@[0]); }
    assert("ppm"@ != "tif"@) by { assert("ppm"@[0] != "tif"@[0]); }
    assert("ppm"@ != "tga"@) by { assert("ppm"@[0] != "tga"@[0]); }
    assert("ppm"@ != "dds"@) by { assert("ppm"@[0] != "dds"@[0]); }
    assert("ppm"@ != "bmp"@) by { assert("ppm"@[0] != "bmp"@[0]); }
    assert("ppm"@ != "ico"@) by { assert("ppm"@[0] != "ico"@[0]); }
    assert("ppm"@ != "hdr"@) by { assert("ppm"@[0] != "hdr"@[0]); }
    assert("ppm"@ != "exr"@) by { assert("ppm"@[0] != "exr"@[0]); }
    assert("ppm"@ != "pbm"@) by { assert("ppm"@[1] != "pbm"@[1]); }
    assert("ppm"@ != "pam"@) by { assert("ppm"@[1] != "pam"@[1]); }
    assert("pgm"@ != "jpg"@) by { assert("pgm"@[0] != "jpg"@[0]); }
    assert("pgm"@ != "png"@) by { assert("pgm"@[1] != "png"@[1]); }
    assert("pgm"@ != "gif"@) by { assert("pgm"@[0] != "gif"@[0]); }
    assert("pgm"@ != "tif"@) by { assert("pgm"@[0] != "tif"@[0]); }
    assert("pgm"@ != "tga"@) by { assert("pgm"@[0] != "tga"@[0]); }
    assert("pgm"@ != "dds"@) by { assert("pgm"@[0] != "dds"@[0]); }
    assert("pgm"@ != "bmp"@) by { assert("pgm"@[0] != "bmp"@[0]); }
    assert("pgm"@ != "ico"@) by { assert("pgm"@[0] != "ico"@[0]); }
    assert("pgm"@ != "hdr"@) by { assert("pgm"@[0] != "hdr"@[0]); }
    assert("pgm"@ != "exr"@) by { assert("pgm"@[0] != "exr"@[0]); }
    assert("pgm"@ != "pbm"@) by { assert("pgm"@[1] != "pbm"@[1]); }
    assert("pgm"@ != "pam"@) by { assert("pgm"@[1] != "pam"@[1]); }
    assert("pgm"@ != "ppm"@) by { assert("pgm"@[1] != "ppm"@[1]); }
    assert("qoi"@ != "jpg"@) by { assert("qoi"@[0] != "jpg"@[0]); }
    assert("qoi"@ != "png"@) by { assert("qoi"@[0] != "png"@[0]); }
    assert("qoi"@ != "gif"@) by { assert("qoi"@[0] != "gif"@[0]); }
    assert("qoi"@ != "tif"@) by { assert("qoi"@[0] != "tif"@[0]); }
    assert("qoi"@ != "tga"@) by { assert("qoi"@[0] != "tga"@[0]); }
    assert("qoi"@ != "dds"@) by { assert("qoi"@[0] != "dds"@[0]); }
    assert("qoi"@ != "bmp"@) by { assert("qoi"@[0] != "bmp"@[0]); }
    assert("qoi"@ != "ico"@) by { assert("qoi"@[0] != "ico"@[0]); }
    assert("qoi"@ != "hdr"@) by { assert("qoi"@[0] != "hdr"@[0]); }
    assert("qoi"@ != "exr"@) by { assert("qoi"@[0] != "exr"@[0]); }
    assert("qoi"@ != "pbm"@) by { assert("qoi"@[0] != "pbm"@[0]); }
    assert("qoi"@ != "pam"@) by { assert("qoi"@[0] != "pam"@[0]); }
    assert("qoi"@ != "ppm"@) by { assert("qoi"@[0] != "ppm"@[0]); }
    assert("qoi"@ != "pgm"@) by { assert("qoi"@[0] != "pgm"@[0]); }
}

/// Every extension of a format is read back as that format: `from_extension` undoes
/// `extensions_str`.
pub proof fn lemma_extensions_round_trip(format: ImageFormat, i: int)
    requires
        0 <= i < format_extensions(format).len(),
    ensures
        format_for_extension(format_extensions(format)[i]) == Some(format),
{
    lemma_extension_literals_read_back();
    match format {
        ImageFormat::Png => {
            assert(format_extensions(format)[0] == "png"@);
        },
        ImageFormat::Jpeg => {
            assert(format_extensions(format)[0] == "jpg"@);
            assert(format_extensions(format)[1] == "jpeg"@);
        },
        ImageFormat::Gif => {
            assert(format_extensions(format)[0] == "gif"@);
        },
        ImageFormat::WebP => {
            assert(format_extensions(format)[0] == "webp"@);
        },
        ImageFormat::Pnm => {
            assert(format_extensions(format)[0] == "pbm"@);
            assert(format_extensions(format)[1] == "pam"@);
            assert(format_extensions(format)[2] == "ppm"@);
            assert(format_extensions(format)[3] == "pgm"@);
        },
        ImageFormat::Tiff => {
            assert(format_extensions(format)[0] == "tiff"@);
            assert(format_extensions(format)[1] == "tif"@);
        },
        ImageFormat::Tga => {
            assert(format_extensions(format)[0] == "tga"@);
        },
        ImageFormat::Dds => {
            assert(format_extensions(format)[0] == "dds"@);
        },
        ImageFormat::Bmp => {
            assert(format_extensions(format)[0] == "bmp"@);
        },
        ImageFormat::Ico => {
            assert(format_extensions(format)[0] == "ico"@);
        },
        ImageFormat::Hdr => {
            assert(format_extensions(format)[0] == "hdr"@);
        },
        ImageFormat::OpenExr => {
            assert(format_extensions(format)[0] == "exr"@);
        },
        ImageFormat::Farbfeld => {
            assert(format_extensions(format)[0] == "ff"@);
        },
        ImageFormat::Avif => {
            assert(format_extensions(format)[0] == "avif"@);
        },
        ImageFormat::Qoi => {
            assert(format_extensions(format)[0] == "qoi"@);
        },
    }
}

/// Reading an extension ignores ASCII case.
pub proof fn lemma_extension_case_insensitive(ext: Seq<char>)
    ensures
        format_for_extension(ascii_lowercase(ext)) == format_for_extension(ext),
{
    assert(ascii_lowercase(ascii_lowercase(ext)) =~= ascii_lowercase(ext));
}

/// A recognised image starts with a signature of the format it was recognised as,
/// and no image is recognised as TGA, which has no signature.
pub proof fn lemma_guess_matches_signature(buffer: Seq<u8>)
    ensures
        guessed_format(buffer) is Some ==> exists|i: int|
            0 <= i < n_signatures() && starts_with(buffer, #[trigger] signature(i))
                && signature_format(i) == guessed_format(buffer)->0,
        guessed_format(buffer) != Some(ImageFormat::Tga),
{
    lemma_first_match(buffer, 0);
}

proof fn lemma_first_match(buffer: Seq<u8>, i: int)
    requires
        0 <= i <= n_signatures(),
    ensures
        first_match(buffer, i) is Some ==> exists|j: int|
            i <= j < n_signatures() && starts_with(buffer, #[trigger] signature(j))
                && signature_format(j) == first_match(buffer, i)->0,
        first_match(buffer, i) != Some(ImageFormat::Tga),
    decreases n_signatures() - i,
{
    if i < n_signatures() {
        lemma_first_match(buffer, i + 1);
    }
}


proof fn lemma_later_signature_not_a_prefix(i: int, j: int)
    requires
        0 <= i < j < n_signatures(),
        signature(j).len() < signature(i).len(),
    ensures
        signature(j)[0] != signature(i)[0],
{
}

proof fn lemma_first_match_has_signature(buffer: Seq<u8>, i: int)
    requires
        first_match(buffer, i) is Some,
    ensures
        exists|j: int| i <= j < n_signatures() && #[trigger] starts_with(buffer, signature(j)),
    decreases n_signatures() - i,
{
    if !starts_with(buffer, signature(i)) {
        lemma_first_match_has_signature(buffer, i + 1);
    }
}

proof fn lemma_first_match_extends(buffer: Seq<u8>, extra: Seq<u8>, i: int)
    requires
        first_match(buffer, i) is Some,
    ensures
        first_match(buffer + extra, i) == first_match(buffer, i),
    decreases n_signatures() - i,
{
    let longer = buffer + extra;
    let sig = signature(i);
    if starts_with(buffer, sig) {
        assert(longer.subrange(0, sig.len() as int) =~= buffer.subrange(0, sig.len() as int));
    } else {
        lemma_first_match_extends(buffer, extra, i + 1);
        if starts_with(longer, sig) {
            if buffer.len() >= sig.len() {
                assert(longer.subrange(0, sig.len() as int) =~= buffer.subrange(0, sig.len() as int));
            } else {
                lemma_first_match_has_signature(buffer, i + 1);
                let j = choose|j: int| i + 1 <= j < n_signatures() && #[trigger] starts_with(buffer, signature(j));
                assert(buffer[0] == buffer.subrange(0, signature(j).len() as int)[0]);
                assert(longer[0] == longer.subrange(0, sig.len() as int)[0]);
                lemma_later_signature_not_a_prefix(i, j);
            }
        }
    }
}

/// Appending bytes to an image never changes the format recognised from it.
pub proof fn lemma_appending_keeps_format(buffer: Seq<u8>, extra: Seq<u8>)
    requires
        guessed_format(buffer) is Some,
    ensures
        guessed_format(buffer + extra) == guessed_format(buffer),
{
    lemma_first_match_extends(buffer, extra, 0);
}

/// Two different formats have different MIME types.
pub proof fn lemma_mime_types_distinct(f: ImageFormat, g: ImageFormat)
    requires
        f != g,
    ensures
        format_mime(f) != format_mime(g),
{
    reveal_strlit("image/avif");
    reveal_strlit("image/jpeg");
    reveal_strlit("image/png");
    reveal_strlit("image/gif");
    reveal_strlit("image/webp");
    reveal_strlit("image/tiff");
    reveal_strlit("image/x-targa");
    reveal_strlit("image/vnd-ms.dds");
    reveal_strlit("image/bmp");
    reveal_strlit("image/x-icon");
    reveal_strlit("image/vnd.radiance");
    reveal_strlit("image/x-exr");
    reveal_strlit("image/x-portable-anymap");
    reveal_strlit("image/x-qoi");
    reveal_strlit("application/octet-stream");
    if format_mime(f) == format_mime(g) {
        assert(format_mime(f).len() == format_mime(g).len());
        assert(format_mime(f)[6] == format_mime(g)[6]);
        assert(format_mime(f)[8] == format_mime(g)[8]);
    }
}

/// Every MIME type is visible ASCII and of the form `type/subtype`, and the type is
/// `image` for every format but Farbfeld.
pub proof fn lemma_mime_type_shape(f: ImageFormat)
    ensures
        forall|k: int| 0 <= k < format_mime(f).len() ==> '!' <= #[trigger] format_mime(f)[k] <= '~',
        format_mime(f).contains('/'),
        f != ImageFormat::Farbfeld ==> format_mime(f).subrange(0, 6) == "image/"@,
{
    reveal_strlit("image/avif");
    reveal_strlit("image/jpeg");
    reveal_strlit("image/png");
    reveal_strlit("image/gif");
    reveal_strlit("image/webp");
    reveal_strlit("image/tiff");
    reveal_strlit("image/x-targa");
    reveal_strlit("image/vnd-ms.dds");
    reveal_strlit("image/bmp");
    reveal_strlit("image/x-icon");
    reveal_strlit("image/vnd.radiance");
    reveal_strlit("image/x-exr");
    reveal_strlit("image/x-portable-anymap");
    reveal_strlit("image/x-qoi");
    reveal_strlit("application/octet-stream");
    reveal_strlit("image/");
    if f != ImageFormat::Farbfeld {
        assert(format_mime(f)[5] == '/');
        assert(format_mime(f).subrange(0, 6) =~= "image/"@);
    } else {
        assert(format_mime(f)[11] == '/');
    }
}


/// A text with every ASCII lower-case letter made upper-case, as
/// `str::to_ascii_uppercase` does.
pub open spec fn ascii_uppercase(s: Seq<char>) -> Seq<char> {
    s.map_values(|c: char| if 'a' <= c && c <= 'z' { ((c as u32) - 32) as char } else { c })
}

/// Whether a text is made of ASCII lower-case letters and digits.
pub open spec fn is_lowercase_alphanumeric(s: Seq<char>) -> bool {
    forall|k: int| 0 <= k < s.len() ==> ('a' <= #[trigger] s[k] <= 'z' || '0' <= s[k] <= '9')
}

proof fn lemma_lowercase_of_uppercase(s: Seq<char>)
    ensures
        ascii_lowercase(ascii_uppercase(s)) == ascii_lowercase(s),
{
    assert forall|k: int| 0 <= k < s.len() implies ascii_lowercase(ascii_uppercase(s))[k] == ascii_lowercase(s)[k] by {
        let c = s[k];
        if 'a' <= c && c <= 'z' {
            let u = ((c as u32) - 32) as char;
            assert('A' <= u && u <= 'Z');
            assert(((u as u32) + 32) as char == c);
        }
    }
    assert(ascii_lowercase(ascii_uppercase(s)) =~= ascii_lowercase(s));
}

/// Every extension of a format is made of ASCII lower-case letters and digits, and
/// reads back as its format both as it is and upper-cased.
pub proof fn lemma_extension_reads_back_in_any_case(format: ImageFormat, i: int)
    requires
        0 <= i < format_extensions(format).len(),
    ensures
        is_lowercase_alphanumeric(format_extensions(format)[i]),
        format_for_extension(format_extensions(format)[i]) == Some(format),
        format_for_extension(ascii_uppercase(format_extensions(format)[i])) == Some(format),
{
    let ext = format_extensions(format)[i];
    lemma_extensions_round_trip(format, i);
    lemma_lowercase_of_uppercase(ext);
    lemma_extension_case_insensitive(ascii_uppercase(ext));
    lemma_extension_case_insensitive(ext);
    assert(is_lowercase_alphanumeric(ext)) by {
        assert forall|k: int| 0 <= k < ext.len() implies ('a' <= #[trigger] ext[k] <= 'z' || '0' <= ext[k] <= '9') by {
            reveal_strlit("avif");
            reveal_strlit("bmp");
            reveal_strlit("dds");
            reveal_strlit("exr");
            reveal_strlit("ff");
            reveal_strlit("gif");
            reveal_strlit("hdr");
            reveal_strlit("ico");
            reveal_strlit("jpeg");
            reveal_strlit("jpg");
            reveal_strlit("pam");
            reveal_strlit("pbm");
            reveal_strlit("pgm");
            reveal_strlit("png");
            reveal_strlit("ppm");
            reveal_strlit("qoi");
            reveal_strlit("tga");
            reveal_strlit("tif");
            reveal_strlit("tiff");
            reveal_strlit("webp");
        }
    }
}

/// No two extensions are the same text, within a format or across formats.
pub proof fn lemma_extensions_distinct(f: ImageFormat, i: int, g: ImageFormat, j: int)
    requires
        0 <= i < format_extensions(f).len(),
        0 <= j < format_extensions(g).len(),
        f != g || i != j,
    ensures
        format_extensions(f)[i] != format_extensions(g)[j],
{
    lemma_extensions_round_trip(f, i);
    lemma_extensions_round_trip(g, j);
    if f == g {
        reveal_strlit("jpg");
        reveal_strlit("jpeg");
        reveal_strlit("pbm");
        reveal_strlit("pam");
        reveal_strlit("ppm");
        reveal_strlit("pgm");
        reveal_strlit("tiff");
        reveal_strlit("tif");
        if format_extensions(f)[i] == format_extensions(g)[j] {
            assert(format_extensions(f)[i].len() == format_extensions(g)[j].len());
            assert(format_extensions(f)[i][1] == format_extensions(g)[j][1]);
        }
    }
}


/// Each format is recognised from the bytes its files start with, whatever follows:
/// PNG's `\x89PNG\r\n\x1a\n`, JPEG's `\xff\xd8\xff`, `GIF89a` and `GIF87a`, `RIFF`
/// (WebP), TIFF's `MM\0*` and `II*\0`, `DDS `, `BM`, ICO's `\0\0\x01\0`, `#?RADIANCE`,
/// `P1` to `P7` (PNM), `farbfeld`, AVIF's `\0\0\0 ftypavif` and `\0\0\0\x1cftypavif`,
/// OpenEXR's `v/1\x01` and `qoif`.
pub proof fn lemma_signature_table(rest: Seq<u8>)
    ensures
        guessed_format(seq![0x89u8, 0x50u8, 0x4eu8, 0x47u8, 0x0du8, 0x0au8, 0x1au8, 0x0au8] + rest) == Some(ImageFormat::Png),
        guessed_format(seq![0xffu8, 0xd8u8, 0xffu8] + rest) == Some(ImageFormat::Jpeg),
        guessed_format(seq![0x47u8, 0x49u8, 0x46u8, 0x38u8, 0x39u8, 0x61u8] + rest) == Some(ImageFormat::Gif),
        guessed_format(seq![0x47u8, 0x49u8, 0x46u8, 0x38u8, 0x37u8, 0x61u8] + rest) == Some(ImageFormat::Gif),
        guessed_format(seq![0x52u8, 0x49u8, 0x46u8, 0x46u8] + rest) == Some(ImageFormat::WebP),
        guessed_format(seq![0x4du8, 0x4du8, 0x00u8, 0x2au8] + rest) == Some(ImageFormat::Tiff),
        guessed_format(seq![0x49u8, 0x49u8, 0x2au8, 0x00u8] + rest) == Some(ImageFormat::Tiff),
        guessed_format(seq![0x44u8, 0x44u8, 0x53u8, 0x20u8] + rest) == Some(ImageFormat::Dds),
        guessed_format(seq![0x42u8, 0x4du8] + rest) == Some(ImageFormat::Bmp),
        guessed_format(seq![0x00u8, 0x00u8, 0x01u8, 0x00u8] + rest) == Some(ImageFormat::Ico),
        guessed_format(seq![0x23u8, 0x3fu8, 0x52u8, 0x41u8, 0x44u8, 0x49u8, 0x41u8, 0x4eu8, 0x43u8, 0x45u8] + rest) == Some(ImageFormat::Hdr),
        guessed_format(seq![0x50u8, 0x31u8] + rest) == Some(ImageFormat::Pnm),
        guessed_format(seq![0x50u8, 0x32u8] + rest) == Some(ImageFormat::Pnm),
        guessed_format(seq![0x50u8, 0x33u8] + rest) == Some(ImageFormat::Pnm),
        guessed_format(seq![0x50u8, 0x34u8] + rest) == Some(ImageFormat::Pnm),
        guessed_format(seq![0x50u8, 0x35u8] + rest) == Some(ImageFormat::Pnm),
        guessed_format(seq![0x50u8, 0x36u8] + rest) == Some(ImageFormat::Pnm),
        guessed_format(seq![0x50u8, 0x37u8] + rest) == Some(ImageFormat::Pnm),
        guessed_format(seq![0x66u8, 0x61u8, 0x72u8, 0x62u8, 0x66u8, 0x65u8, 0x6cu8, 0x64u8] + rest) == Some(ImageFormat::Farbfeld),
        guessed_format(seq![0x00u8, 0x00u8, 0x00u8, 0x20u8, 0x66u8, 0x74u8, 0x79u8, 0x70u8, 0x61u8, 0x76u8, 0x69u8, 0x66u8] + rest) == Some(ImageFormat::Avif),
        guessed_format(seq![0x00u8, 0x00u8, 0x00u8, 0x1cu8, 0x66u8, 0x74u8, 0x79u8, 0x70u8, 0x61u8, 0x76u8, 0x69u8, 0x66u8] + rest) == Some(ImageFormat::Avif),
        guessed_format(seq![0x76u8, 0x2fu8, 0x31u8, 0x01u8] + rest) == Some(ImageFormat::OpenExr),
        guessed_format(seq![0x71u8, 0x6fu8, 0x69u8, 0x66u8] + rest) == Some(ImageFormat::Qoi),
{
    reveal_with_fuel(first_match, 24);
    let b = seq![0x89u8, 0x50u8, 0x4eu8, 0x47u8, 0x0du8, 0x0au8, 0x1au8, 0x0au8] + rest;
    assert(b.subrange(0, 8) =~= signature(0));
    let b = seq![0xffu8, 0xd8u8, 0xffu8] + rest;
    assert(b.subrange(0, 3) =~= signature(1));
    assert(b[0] == 0xffu8);
    let b = seq![0x47u8, 0x49u8, 0x46u8, 0x38u8, 0x39u8, 0x61u8] + rest;
    assert(b.subrange(0, 6) =~= signature(2));
    let b = seq![0x47u8, 0x49u8, 0x46u8, 0x38u8, 0x37u8, 0x61u8] + rest;
    assert(b.subrange(0, 6) =~= signature(3));
    assert(b.subrange(0, 6)[4] != signature(2)[4]);
    assert(b[0] == 0x47u8);
    let b = seq![0x52u8, 0x49u8, 0x46u8, 0x46u8] + rest;
    assert(b.subrange(0, 4) =~= signature(4));
    assert(b[0] == 0x52u8);
    let b = seq![0x4du8, 0x4du8, 0x00u8, 0x2au8] + rest;
    assert(b.subrange(0, 4) =~= signature(5));
    assert(b[0] == 0x4du8);
    let b = seq![0x49u8, 0x49u8, 0x2au8, 0x00u8] + rest;
    assert(b.subrange(0, 4) =~= signature(6));
    assert(b[0] == 0x49u8);
    let b = seq![0x44u8, 0x44u8, 0x53u8, 0x20u8] + rest;
    assert(b.subrange(0, 4) =~= signature(7));
    assert(b[0] == 0x44u8);
    let b = seq![0x42u8, 0x4du8] + rest;
    assert(b.subrange(0, 2) =~= signature(8));
    assert(b[0] == 0x42u8);
    let b = seq![0x00u8, 0x00u8, 0x01u8, 0x00u8] + rest;
    assert(b.subrange(0, 4) =~= signature(9));
    assert(b[0] == 0x00u8);
    let b = seq![0x23u8, 0x3fu8, 0x52u8, 0x41u8, 0x44u8, 0x49u8, 0x41u8, 0x4eu8, 0x43u8, 0x45u8] + rest;
    assert(b.subrange(0, 10) =~= signature(10));
    assert(b[0] == 0x23u8);
    let b = seq![0x50u8, 0x31u8] + rest;
    assert(b.subrange(0, 2) =~= signature(11));
    assert(b[0] == 0x50u8);
    let b = seq![0x50u8, 0x32u8] + rest;
    assert(b.subrange(0, 2) =~= signature(12));
    assert(b[0] == 0x50u8);
    let b = seq![0x50u8, 0x33u8] + rest;
    assert(b.subrange(0, 2) =~= signature(13));
    assert(b[0] == 0x50u8);
    let b = seq![0x50u8, 0x34u8] + rest;
    assert(b.subrange(0, 2) =~= signature(14));
    assert(b[0] == 0x50u8);
    let b = seq![0x50u8, 0x35u8] + rest;
    assert(b.subrange(0, 2) =~= signature(15));
    assert(b[0] == 0x50u8);
    let b = seq![0x50u8, 0x36u8] + rest;
    assert(b.subrange(0, 2) =~= signature(16));
    assert(b[0] == 0x50u8);
    let b = seq![0x50u8, 0x37u8] + rest;
    assert(b.subrange(0, 2) =~= signature(17));
    assert(b[0] == 0x50u8);
    let b = seq![0x66u8, 0x61u8, 0x72u8, 0x62u8, 0x66u8, 0x65u8, 0x6cu8, 0x64u8] + rest;
    assert(b.subrange(0, 8) =~= signature(18));
    assert(b[0] == 0x66u8);
    let b = seq![0x00u8, 0x00u8, 0x00u8, 0x20u8, 0x66u8, 0x74u8, 0x79u8, 0x70u8, 0x61u8, 0x76u8, 0x69u8, 0x66u8] + rest;
    assert(b.subrange(0, 12) =~= signature(19));
    assert(b[0] == 0x00u8 && b[2] == 0x00u8);
    assert(b.subrange(0, 4)[2] != signature(9)[2]);
    let b = seq![0x00u8, 0x00u8, 0x00u8, 0x1cu8, 0x66u8, 0x74u8, 0x79u8, 0x70u8, 0x61u8, 0x76u8, 0x69u8, 0x66u8] + rest;
    assert(b.subrange(0, 12) =~= signature(20));
    assert(b[0] == 0x00u8 && b[2] == 0x00u8);
    assert(b.subrange(0, 4)[2] != signature(9)[2]);
    assert(b.subrange(0, 12)[3] != signature(19)[3]);
    let b = seq![0x76u8, 0x2fu8, 0x31u8, 0x01u8] + rest;
    assert(b.subrange(0, 4) =~= signature(21));
    assert(b[0] == 0x76u8);
    let b = seq![0x71u8, 0x6fu8, 0x69u8, 0x66u8] + rest;
    assert(b.subrange(0, 4) =~= signature(22));
    assert(b[0] == 0x71u8);
}

} // verus!
