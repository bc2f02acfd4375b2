//! Where uploaded photos and their archives are stored.
use vstd::prelude::*;
use crate::image_format::{ImageFormat, format_extensions, format_mime, guessed_format};
use crate::error::{VentError, ImageAction};
use crate::text::{owned, same_text, decimal, decimal_string, hexadecimal, hex_string};

verus! {

/// The usual file extension of a format: the first of its extensions.
pub fn upload_extension(format: ImageFormat) -> (ext: &'static str)
    ensures
        ext@ == format_extensions(format)[0],
{
    let exts = format.extensions_str();
    assert(exts@.map_values(|e: &str| e@)[0] == exts@[0]@);
    exts[0]
}

/// The storage key of an uploaded photo: `uploads/{name}.{ext}`.
pub fn upload_key(name: &str, ext: &str) -> (key: String)
    ensures
        key@ == "uploads/"@ + name@ + "."@ + ext@,
{
    let mut key = owned("uploads/");
    key.append(name);
    key.append(".");
    key.append(ext);
    key
}

/// The storage key of a photo served at `/uploads/{name}`.
pub fn served_image_key(name: &str) -> (key: String)
    ensures
        key@ == "uploads/"@ + name@,
{
    let mut key = owned("uploads/");
    key.append(name);
    key
}

/// The storage key of an event's archive of photos: `zips/{name}`.
pub fn zip_key(name: &str) -> (key: String)
    ensures
        key@ == "zips/"@ + name@,
{
    let mut key = owned("zips/");
    key.append(name);
    key
}

/// Whether `key` is not taken by any of `existing`.
pub fn key_is_free(existing: &Vec<String>, key: &str) -> (free: bool)
    ensures
        free == (forall|i: int| 0 <= i < existing@.len() ==> (#[trigger] existing@[i])@ != key@),
{
    let mut i: usize = 0;
    while i < existing.len()
        invariant
            i <= existing@.len(),
            forall|k: int| 0 <= k < i ==> (#[trigger] existing@[k])@ != key@,
        decreases existing@.len() - i,
    {
        if same_text(existing[i].as_str(), key) {
            return false;
        }
        i = i + 1;
    }
    true
}

/// What an uploaded photo is stored as: its format, the extension its key ends in,
/// and the content type it is stored with.
pub struct UploadKind {
    pub format: ImageFormat,
    pub extension: &'static str,
    pub mime: &'static str,
}

/// Recognises an uploaded photo from its bytes, or the error that rejects it (an image
/// in no known format).
pub fn classify_upload(data: &[u8]) -> (r: Result<UploadKind, VentError>)
    ensures
        match r {
            Ok(k) => {
                &&& guessed_format(data@) == Some(k.format)
                &&& k.extension@ == format_extensions(k.format)[0]
                &&& k.mime@ == format_mime(k.format)
            },
            Err(e) => guessed_format(data@) is None && e == VentError::Image { action: ImageAction::GuessingFormat },
        },
{
    match ImageFormat::guess_format(data) {
        Some(format) => Ok(UploadKind { format, extension: upload_extension(format), mime: format.to_mime_type() }),
        None => Err(VentError::Image { action: ImageAction::GuessingFormat }),
    }
}

/// The key a photo is stored under, from a random number: `uploads/{hex}.{ext}`.
pub fn upload_key_for(random: u128, ext: &str) -> (key: String)
    ensures
        key@ == "uploads/"@ + hexadecimal(random as nat) + "."@ + ext@,
{
    let name = hex_string(random);
    upload_key(name.as_str(), ext)
}

/// `rand::random::<u128>()`: a number from the thread's generator. Nothing is promised
/// of it.
#[verifier::external_body]
fn random_u128() -> (n: u128) {
    rand::random::<u128>()
}

/// Whether no key in `existing` is `key`.
pub open spec fn free_among(existing: Seq<String>, key: Seq<char>) -> bool {
    forall|i: int| 0 <= i < existing.len() ==> (#[trigger] existing[i])@ != key
}

/// The key an uploaded photo gets from the number `n`: `uploads/{hex}.{ext}`.
pub open spec fn upload_key_from(n: u128, ext: Seq<char>) -> Seq<char> {
    "uploads/"@ + hexadecimal(n as nat) + "."@ + ext
}

/// The key for an uploaded photo from the number `n`, `uploads/{hex}.{ext}`, if no
/// stored photo has it.
pub fn upload_key_if_free(n: u128, ext: &str, existing: &Vec<String>) -> (r: Option<String>)
    ensures
        match r {
            Some(key) => key@ == upload_key_from(n, ext@) && free_among(existing@, upload_key_from(n, ext@)),
            None => !free_among(existing@, upload_key_from(n, ext@)),
        },
{
    let key = upload_key_for(n, ext);
    if key_is_free(existing, key.as_str()) {
        Some(key)
    } else {
        None
    }
}

/// One attempt at a key for an uploaded photo, from a random number: the key for the
/// number drawn if no stored photo has it, else `None`. So it fails only where some
/// key of that shape is taken, and never where `existing` holds no such key. The
/// caller draws again until one is free.
pub fn try_upload_key(ext: &str, existing: &Vec<String>) -> (r: Option<String>)
    ensures
        match r {
            Some(key) => exists|n: u128|
                key@ == upload_key_from(n, ext@) && #[trigger] free_among(existing@, upload_key_from(n, ext@)),
            None => exists|n: u128| !#[trigger] free_among(existing@, upload_key_from(n, ext@)),
        },
{
    let n = random_u128();
    let r = upload_key_if_free(n, ext, existing);
    r
}

/// The name an event's archive is checked under for the number `n`: `{decimal}.zip`.
pub open spec fn zip_name_from(n: u128) -> Seq<char> {
    decimal(n as nat) + ".zip"@
}

/// The key for an event's archive from the number `n`: `{decimal}.zip` is checked
/// against `existing` as it stands (the listing holds whole keys, so the check never
/// refuses one), and the key given is `zips/{decimal}.zip`.
pub fn zip_key_if_free(n: u128, existing: &Vec<String>) -> (r: Option<String>)
    ensures
        match r {
            Some(key) => key@ == "zips/"@ + zip_name_from(n) && free_among(existing@, zip_name_from(n)),
            None => !free_among(existing@, zip_name_from(n)),
        },
{
    let mut name = decimal_string(n);
    name.append(".zip");
    if key_is_free(existing, name.as_str()) {
        Some(zip_key(name.as_str()))
    } else {
        None
    }
}

/// One attempt at a key for an event's archive, from a random number: `zips/{name}`
/// where the number's name `{decimal}.zip` is not among `existing`, else `None`. So it
/// fails only where some name of that shape is among `existing`, and never where none
/// is. The caller draws again until one is accepted.
pub fn try_zip_key(existing: &Vec<String>) -> (r: Option<String>)
    ensures
        match r {
            Some(key) => exists|n: u128|
                key@ == "zips/"@ + zip_name_from(n) && #[trigger] free_among(existing@, zip_name_from(n)),
            None => exists|n: u128| !#[trigger] free_among(existing@, zip_name_from(n)),
        },
{
    let n = random_u128();
    let r = zip_key_if_free(n, existing);
    r
}

/// What the `zip` crate writes for an archive holding `files` (name and contents) in
/// order, with its default options, or `None` where it refuses them (such as a name
/// given twice). The crate is built without its clock, so every entry carries the fixed
/// date of 1980-01-01.
pub uninterp spec fn zip_archive_of(files: Seq<(Seq<char>, Seq<u8>)>) -> Option<Seq<u8>>;

/// Files as names and contents.
pub open spec fn files_view(files: Seq<(String, Vec<u8>)>) -> Seq<(Seq<char>, Seq<u8>)> {
    files.map_values(|f: (String, Vec<u8>)| (f.0@, f.1@))
}

/// `zip::ZipWriter` over an in-memory buffer: `start_file` with
/// `SimpleFileOptions::default().compression_level(None)` and `write_all` for each file,
/// then `finish`. The contract names the outcome; it depends on the files alone.
#[verifier::external_body]
fn write_zip(files: &Vec<(String, Vec<u8>)>) -> (r: Option<Vec<u8>>)
    ensures
        match r {
            Some(bytes) => zip_archive_of(files_view(files@)) == Some(bytes@),
            None => zip_archive_of(files_view(files@)) is None,
        },
{
    let mut buffer: Vec<u8> = Vec::new();
    let mut writer = zip::ZipWriter::new(std::io::Cursor::new(&mut buffer));
    for (name, contents) in files {
        let options = zip::write::SimpleFileOptions::default().compression_level(None);
        if writer.start_file(name.as_str(), options).is_err() || std::io::Write::write_all(&mut writer, contents).is_err() {
            return None;
        }
    }
    if writer.finish().is_err() {
        return None;
    }
    Some(buffer)
}

/// The archive of an event's photos, each stored under its key, or a zip error.
pub fn archive_photos(files: &Vec<(String, Vec<u8>)>) -> (r: Result<Vec<u8>, VentError>)
    ensures
        match zip_archive_of(files_view(files@)) {
            Some(bytes) => r matches Ok(b) && b@ == bytes,
            None => r matches Err(VentError::Zip),
        },
{
    match write_zip(files) {
        Some(bytes) => Ok(bytes),
        None => Err(VentError::Zip),
    }
}


/// What the photo-archive page does for an event.
pub enum ArchivePlan {
    /// It serves the archive already stored under this key.
    ServeStored(String),
    /// It builds an archive of the event's photos, stores it and serves it.
    Build,
}

/// An event's photos are archived once: where the event has an archive stored, that
/// archive is served again and never rebuilt; only where it has none is one built.
pub fn archive_plan(stored: Option<String>) -> (plan: ArchivePlan)
    ensures
        match stored {
            Some(key) => plan matches ArchivePlan::ServeStored(k) && k@ == key@,
            None => plan is Build,
        },
{
    match stored {
        Some(key) => ArchivePlan::ServeStored(key),
        None => ArchivePlan::Build,
    }
}

} // verus!
