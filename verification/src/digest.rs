//! Layer digests and the one normalization that both readers apply.

use crate::text::{has_prefix, substring, to_chars, trim, trim_bounds, without_prefix};
use vstd::prelude::*;

verus! {

/// What a manifest writes in front of a digest.
pub const DIGEST_PREFIX: &'static str = "sha256:";

/// The directory of an archive that holds the blobs.
pub const BLOB_PREFIX: &'static str = "blobs/sha256/";

/// The digest that `reference` stands for: `reference` without `prefix` at
/// its start, then without the whitespace around it.
pub open spec fn normalized(reference: Seq<char>, prefix: Seq<char>) -> Seq<char> {
    trim(without_prefix(reference, prefix))
}

/// Whether an archive entry of this name is a blob.
pub open spec fn is_blob_name(name: Seq<char>) -> bool {
    BLOB_PREFIX@.is_prefix_of(name)
}

/// The digest of the blob that an archive entry of this name holds.
pub open spec fn blob_digest(name: Seq<char>) -> Seq<char> {
    normalized(name, BLOB_PREFIX@)
}

/// The digest that a manifest's layer reference stands for.
pub open spec fn layer_digest(reference: Seq<char>) -> Seq<char> {
    normalized(reference, DIGEST_PREFIX@)
}

/// The two readers agree: a blob that an archive stores under a digest and
/// a manifest's reference to that digest stand for the same layer.
pub proof fn lemma_readers_agree(digest: Seq<char>)
    ensures
        is_blob_name(BLOB_PREFIX@ + digest),
        blob_digest(BLOB_PREFIX@ + digest) == trim(digest),
        layer_digest(DIGEST_PREFIX@ + digest) == trim(digest),
{
    let blob = BLOB_PREFIX@ + digest;
    assert(blob.skip(BLOB_PREFIX@.len() as int) =~= digest);
    let reference = DIGEST_PREFIX@ + digest;
    assert(reference.skip(DIGEST_PREFIX@.len() as int) =~= digest);
}

/// Computes [`normalized`].
pub fn normalize(reference: &str, prefix: &str) -> (digest: String)
    ensures
        digest@ == normalized(reference@, prefix@),
{
    let chars = to_chars(reference);
    let lead = to_chars(prefix);
    let from: usize = if has_prefix(&chars, &lead) {
        lead.len()
    } else {
        0
    };
    assert(chars@.skip(from as int) =~= without_prefix(reference@, prefix@));
    let (start, end) = trim_bounds(&chars, from);
    substring(reference, start, end)
}

/// The digest of the blob that an entry named `name` holds; `None` where
/// the entry is no blob.
pub fn digest_of_blob(name: &str) -> (r: Option<String>)
    ensures
        match r {
            Some(digest) => is_blob_name(name@) && digest@ == blob_digest(name@),
            None => !is_blob_name(name@),
        },
{
    let chars = to_chars(name);
    let lead = to_chars(BLOB_PREFIX);
    if has_prefix(&chars, &lead) {
        let (start, end) = trim_bounds(&chars, lead.len());
        Some(substring(name, start, end))
    } else {
        None
    }
}

} // verus!
