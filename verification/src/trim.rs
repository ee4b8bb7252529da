//! The trim itself: manifest reader, archive scanner, set difference and
//! archive rewriter in a row.

use crate::archive::{
    archive_image, present_digests, read_archive, readable_entries, retained, scan_entries,
    write_retained,
};
use crate::error::{ParseError, TrimError};
use crate::json::json_document;
use crate::layers::difference;
use crate::manifest::{manifest_layers, read_json_layers};
use crate::text::{has_suffix, substring, to_chars, trim};
use vstd::prelude::*;
use vstd::string::StringExecFns;

verus! {

/// Whether `r` is what trimming the archive `image` against the layers of
/// `reference` owes: the archive of the entries that are no blob or whose
/// digest is present in `image` and not in `reference`.
pub open spec fn is_trim_of(
    image: Seq<u8>,
    reference: Set<Seq<char>>,
    r: Result<Vec<u8>, TrimError>,
) -> bool {
    match readable_entries(image) {
        Some(entries) => r matches Ok(bytes) && bytes@ == archive_image(
            retained(entries, present_digests(entries).difference(reference)),
        ),
        None => r matches Err(TrimError::ArchiveFormat(_)),
    }
}

/// Trims an image archive down to the layers that a reference image lacks.
///
/// `image` is the archive's bytes, `manifest` the text that describes the
/// reference image.  The manifest is read first, so its errors come first.
pub fn trim_image(image: &[u8], manifest: &str) -> (r: Result<Vec<u8>, TrimError>)
    ensures
        match json_document(trim(manifest@)) {
            None => r matches Err(TrimError::Parse(ParseError::InvalidJson(_))),
            Some(doc) => match manifest_layers(doc) {
                Err(e) => r == Err::<Vec<u8>, TrimError>(TrimError::Parse(e)),
                Ok(reference) => is_trim_of(image@, reference, r),
            },
        },
{
    let existing = match read_json_layers(manifest) {
        Ok(layers) => layers,
        Err(error) => {
            return Err(error);
        },
    };
    let entries = match read_archive(image) {
        Ok(entries) => entries,
        Err(error) => {
            return Err(error);
        },
    };
    let present = scan_entries(&entries);
    let keep = difference(&present, &existing);
    write_retained(&entries, &keep)
}

/// Where the trimmed archive goes when no place is asked for: beside the
/// input, with `_trimmed.tar` in place of the closing `.tar`; `trimmed.tar`
/// where the input's name does not end in `.tar`.
pub open spec fn default_output(image_path: Seq<char>) -> Seq<char> {
    if ".tar"@.is_suffix_of(image_path) {
        image_path.take(image_path.len() - ".tar"@.len()) + "_trimmed.tar"@
    } else {
        "trimmed.tar"@
    }
}

/// Where the trimmed archive goes: to the place asked for, else to
/// [`default_output`].
pub open spec fn output_for(image_path: Seq<char>, requested: Option<Seq<char>>) -> Seq<char> {
    match requested {
        Some(path) => path,
        None => default_output(image_path),
    }
}

/// Computes [`output_for`].
pub fn output_path(image_path: &str, requested: Option<&str>) -> (path: String)
    ensures
        path@ == output_for(
            image_path@,
            match requested {
                Some(asked) => Some(asked@),
                None => None,
            },
        ),
{
    match requested {
        Some(asked) => asked.to_owned(),
        None => {
            let chars = to_chars(image_path);
            let suffix = to_chars(".tar");
            if has_suffix(&chars, &suffix) {
                let stem = substring(image_path, 0, chars.len() - suffix.len());
                stem.concat("_trimmed.tar")
            } else {
                "trimmed.tar".to_owned()
            }
        },
    }
}

} // verus!
