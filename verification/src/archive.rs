//! The archive scanner and the archive rewriter.

use crate::digest::{blob_digest, digest_of_blob, is_blob_name};
use crate::error::TrimError;
use crate::layers::LayerSet;
use vstd::prelude::*;

verus! {

/// One record of an archive: its name, its header block and its content.
#[derive(Debug)]
pub struct ArchiveEntry {
    /// The path under which the archive lists the entry.
    pub name: String,
    /// The header block: size, mode, type, times and owner.  It is the
    /// block as stored, but for the owner fields where an extended record
    /// in front of the entry gives them.
    pub header: [u8; 512],
    /// The content.
    pub data: Vec<u8>,
}

/// The mathematical value of an [`ArchiveEntry`].
pub struct EntryView {
    /// The path under which the archive lists the entry.
    pub name: Seq<char>,
    /// The header block.
    pub header: Seq<u8>,
    /// The content.
    pub data: Seq<u8>,
}

impl View for ArchiveEntry {
    type V = EntryView;

    open spec fn view(&self) -> EntryView {
        EntryView { name: self.name@, header: self.header@, data: self.data@ }
    }
}

/// The values of the entries, in order.
pub open spec fn entry_views(entries: Seq<ArchiveEntry>) -> Seq<EntryView> {
    entries.map_values(|entry: ArchiveEntry| entry@)
}

/// `std::io::Error`, carried from the archive calls to its message.
#[verifier::external_type_specification]
#[verifier::external_body]
pub struct ExIoError(std::io::Error);

/// An archive under construction: a `tar::Builder` that writes into memory.
#[verifier::external_body]
pub struct ArchiveWriter {
    builder: tar::Builder<Vec<u8>>,
}

/// The entries that `tar` reads out of an archive's bytes, in order, where
/// it reads them all without an error.
pub uninterp spec fn archive_entries(bytes: Seq<u8>) -> Option<Seq<EntryView>>;

/// The bytes that a writer has written so far.
pub uninterp spec fn written(writer: ArchiveWriter) -> Seq<u8>;

/// `n` zero bytes.
pub open spec fn zeros(n: nat) -> Seq<u8> {
    Seq::new(n, |i: int| 0u8)
}

/// The number of bytes that fill content of length `len` up to whole blocks.
pub open spec fn padding(len: nat) -> nat {
    ((512 - len % 512) % 512) as nat
}

/// The bytes that one entry takes in an archive.
pub open spec fn record(entry: EntryView) -> Seq<u8> {
    entry.header + entry.data + zeros(padding(entry.data.len()))
}

/// The bytes that the entries take in an archive, one record after another.
pub open spec fn records(entries: Seq<EntryView>) -> Seq<u8>
    decreases entries.len(),
{
    if entries.len() == 0 {
        Seq::empty()
    } else {
        records(entries.drop_last()) + record(entries.last())
    }
}

/// The archive that holds exactly these entries: their records, closed by
/// two blocks of zero bytes.
pub open spec fn archive_image(entries: Seq<EntryView>) -> Seq<u8> {
    records(entries) + zeros(1024)
}

/// Whether an entry named `name` is written out: it is unless it is a blob
/// whose digest is not in `keep`.
pub open spec fn is_retained(name: Seq<char>, keep: Set<Seq<char>>) -> bool {
    is_blob_name(name) ==> keep.contains(blob_digest(name))
}

/// The entries that are written out, in their order.
pub open spec fn retained(entries: Seq<EntryView>, keep: Set<Seq<char>>) -> Seq<EntryView> {
    entries.filter(|entry: EntryView| is_retained(entry.name, keep))
}

/// Whether an entry named `name` adds a digest to the set of present
/// layers: it does where it is a blob and its digest is not empty.
pub open spec fn names_layer(name: Seq<char>) -> bool {
    is_blob_name(name) && blob_digest(name).len() > 0
}

/// The digests of the layers that the entries hold.
pub open spec fn present_digests(entries: Seq<EntryView>) -> Set<Seq<char>> {
    Set::new(
        |digest: Seq<char>|
            exists|i: int|
                0 <= i < entries.len() && names_layer((#[trigger] entries[i]).name) && blob_digest(
                    entries[i].name,
                ) == digest,
    )
}

/// Whether the block that starts at `512 * k` is whole and reads as the
/// header of a sparse entry that announces extension blocks: the type `S`,
/// the magic `ustar  ` with a zero byte behind it, and the extension flag.
pub open spec fn sparse_extension_at(bytes: Seq<u8>, k: int) -> bool {
    let at = 512 * k;
    &&& 0 <= k
    &&& at + 512 <= bytes.len()
    &&& bytes[at + 156] == 0x53
    &&& bytes[at + 257] == 0x75
    &&& bytes[at + 258] == 0x73
    &&& bytes[at + 259] == 0x74
    &&& bytes[at + 260] == 0x61
    &&& bytes[at + 261] == 0x72
    &&& bytes[at + 262] == 0x20
    &&& bytes[at + 263] == 0x20
    &&& bytes[at + 264] == 0x00
    &&& bytes[at + 482] == 0x01
}

/// Whether some block of the archive reads as the header of a sparse entry
/// that announces extension blocks.
pub open spec fn holds_sparse_extension(bytes: Seq<u8>) -> bool {
    exists|k: int| #[trigger] sparse_extension_at(bytes, k)
}

/// The entries of an archive, in order, where the library reads it: none
/// where a block announces sparse extension blocks, else what `tar` reads.
pub open spec fn readable_entries(bytes: Seq<u8>) -> Option<Seq<EntryView>> {
    if holds_sparse_extension(bytes) {
        None
    } else {
        archive_entries(bytes)
    }
}

/// `tar::Archive::entries` over the bytes of an archive, and of each entry
/// the path as `Entry::path` displays it, the header block as
/// `Entry::header` holds it and the content as `Read::read_to_end` reads
/// it.  The reading is a function of the bytes alone: it succeeds exactly
/// where `archive_entries` has a value, and then hands out those entries.
///
/// The reader counts the extension blocks of a sparse entry without a
/// check for overflow.  It reads headers at multiples of 512 only, and
/// counts such blocks only behind a header that `sparse_extension_at`
/// describes, so an archive without such a block is read without a panic.
#[verifier::external_body]
fn read_entries(bytes: &[u8]) -> (r: Result<Vec<ArchiveEntry>, std::io::Error>)
    requires
        !holds_sparse_extension(bytes@),
    ensures
        r is Ok <==> archive_entries(bytes@) is Some,
        r matches Ok(entries) ==> archive_entries(bytes@) == Some(entry_views(entries@)),
{
    let mut archive = tar::Archive::new(bytes);
    let mut entries = Vec::new();
    for entry in archive.entries()? {
        let mut entry = entry?;
        let name = entry.path()?.display().to_string();
        let header = *entry.header().as_bytes();
        let mut data = Vec::new();
        std::io::Read::read_to_end(&mut entry, &mut data)?;
        entries.push(ArchiveEntry { name, header, data });
    }
    Ok(entries)
}

/// `tar::Builder::new` over an empty vector: nothing is written yet.
#[verifier::external_body]
fn new_writer() -> (writer: ArchiveWriter)
    ensures
        written(writer) == Seq::<u8>::empty(),
{
    ArchiveWriter { builder: tar::Builder::new(Vec::new()) }
}

/// `tar::Builder::append`, with the header block read as a `tar::Header`
/// by `Header::from_byte_slice`.  It writes the header block, then the
/// content, then zero bytes up to the next whole block.  It fails only
/// where reading the content or writing to the sink fails; the content is
/// a slice in memory and the sink a vector, so it succeeds.
#[verifier::external_body]
fn append_entry(writer: &mut ArchiveWriter, header: &[u8; 512], data: &[u8]) -> (r: Result<
    (),
    std::io::Error,
>)
    ensures
        r is Ok,
        written(*final(writer)) == written(*old(writer)) + header@ + data@ + zeros(
            padding(data@.len()),
        ),
{
    writer.builder.append(tar::Header::from_byte_slice(header), data)
}

/// `tar::Builder::into_inner`: it closes the archive with two blocks of
/// zero bytes and hands out what was written.  It fails only where writing
/// to the sink fails; the sink is a vector, so it succeeds.
#[verifier::external_body]
fn finish_writer(writer: ArchiveWriter) -> (r: Result<Vec<u8>, std::io::Error>)
    ensures
        r is Ok,
        r matches Ok(bytes) ==> bytes@ == written(writer) + zeros(1024),
{
    writer.builder.into_inner()
}

/// The message of a `std::io::Error`, as its `Display` writes it.
#[verifier::external_body]
fn io_error_text(error: &std::io::Error) -> String {
    error.to_string()
}

/// A filter keeps a sequence whole where every item passes.
proof fn lemma_filter_keeps_all(entries: Seq<EntryView>, pass: spec_fn(EntryView) -> bool)
    requires
        forall|i: int| 0 <= i < entries.len() ==> pass(#[trigger] entries[i]),
    ensures
        entries.filter(pass) == entries,
    decreases entries.len(),
{
    reveal(Seq::filter);
    if entries.len() > 0 {
        let front = entries.drop_last();
        lemma_filter_keeps_all(front, pass);
    }
}

/// Two filters agree on a sequence where they agree on each of its items.
proof fn lemma_filters_agree(
    entries: Seq<EntryView>,
    pass: spec_fn(EntryView) -> bool,
    other: spec_fn(EntryView) -> bool,
)
    requires
        forall|i: int| 0 <= i < entries.len() ==> pass(#[trigger] entries[i]) == other(entries[i]),
    ensures
        entries.filter(pass) == entries.filter(other),
    decreases entries.len(),
{
    reveal(Seq::filter);
    if entries.len() > 0 {
        let front = entries.drop_last();
        lemma_filters_agree(front, pass, other);
    }
}

/// Whether no blob among the entries has an empty digest.
pub open spec fn blobs_are_named(entries: Seq<EntryView>) -> bool {
    forall|i: int|
        0 <= i < entries.len() && is_blob_name((#[trigger] entries[i]).name) ==> blob_digest(
            entries[i].name,
        ).len() > 0
}

/// The entries that are no blobs, in their order.
pub open spec fn structural(entries: Seq<EntryView>) -> Seq<EntryView> {
    entries.filter(|entry: EntryView| !is_blob_name(entry.name))
}

/// Rewriting with every present layer kept writes every entry out again,
/// header and content, provided that each blob has a digest: a retain set
/// that holds all present digests drops nothing.
pub proof fn lemma_keeping_all_drops_nothing(entries: Seq<EntryView>, keep: Set<Seq<char>>)
    requires
        present_digests(entries).subset_of(keep),
        blobs_are_named(entries),
    ensures
        retained(entries, keep) == entries,
        archive_image(retained(entries, keep)) == archive_image(entries),
{
    lemma_filter_keeps_all(entries, |entry: EntryView| is_retained(entry.name, keep));
}

/// An archive without blobs is written out whole, whatever the retain set.
pub proof fn lemma_no_blobs_drops_nothing(entries: Seq<EntryView>, keep: Set<Seq<char>>)
    requires
        forall|i: int| 0 <= i < entries.len() ==> !is_blob_name((#[trigger] entries[i]).name),
    ensures
        retained(entries, keep) == entries,
        archive_image(retained(entries, keep)) == archive_image(entries),
{
    lemma_filter_keeps_all(entries, |entry: EntryView| is_retained(entry.name, keep));
}

/// Where the reference holds every present layer, the retain set is empty
/// and only the entries that are no blobs are written out.
pub proof fn lemma_all_present_leaves_no_blob(entries: Seq<EntryView>, reference: Set<Seq<char>>)
    requires
        present_digests(entries).subset_of(reference),
    ensures
        present_digests(entries).difference(reference) == Set::<Seq<char>>::empty(),
        retained(entries, present_digests(entries).difference(reference)) == structural(entries),
{
    let keep = present_digests(entries).difference(reference);
    lemma_filters_agree(
        entries,
        |entry: EntryView| is_retained(entry.name, keep),
        |entry: EntryView| !is_blob_name(entry.name),
    );
}

/// Within one archive a blob with a digest is written out exactly where the
/// reference lacks that digest, and an entry that is no blob always is.
pub proof fn lemma_kept_iff_reference_lacks(
    entries: Seq<EntryView>,
    reference: Set<Seq<char>>,
    i: int,
)
    requires
        0 <= i < entries.len(),
    ensures
        !is_blob_name(entries[i].name) ==> is_retained(
            entries[i].name,
            present_digests(entries).difference(reference),
        ),
        names_layer(entries[i].name) ==> (is_retained(
            entries[i].name,
            present_digests(entries).difference(reference),
        ) <==> !reference.contains(blob_digest(entries[i].name))),
{
}

/// The records of a sequence with one more entry.
proof fn lemma_records_push(entries: Seq<EntryView>, entry: EntryView)
    ensures
        records(entries.push(entry)) == records(entries) + record(entry),
{
    assert(entries.push(entry).drop_last() =~= entries);
}

/// A trim never makes an archive larger.
pub proof fn lemma_trim_never_grows(entries: Seq<EntryView>, keep: Set<Seq<char>>)
    ensures
        archive_image(retained(entries, keep)).len() <= archive_image(entries).len(),
    decreases entries.len(),
{
    if entries.len() > 0 {
        let front = entries.drop_last();
        lemma_trim_never_grows(front, keep);
        front.lemma_filter_push(entries.last(), |entry: EntryView| is_retained(entry.name, keep));
        assert(front.push(entries.last()) =~= entries);
        lemma_records_push(retained(front, keep), entries.last());
    }
}

/// The records of the retained entries take no more bytes than those of
/// all entries.
proof fn lemma_retained_records_fit(entries: Seq<EntryView>, keep: Set<Seq<char>>)
    ensures
        records(retained(entries, keep)).len() <= records(entries).len(),
{
    lemma_trim_never_grows(entries, keep);
}

/// Dropping an entry shortens the archive by at least the record of that
/// entry; so the trimmed archive is strictly shorter wherever an entry with
/// a whole header block is dropped.
pub proof fn lemma_dropping_shortens(entries: Seq<EntryView>, keep: Set<Seq<char>>, i: int)
    requires
        0 <= i < entries.len(),
        !is_retained(entries[i].name, keep),
    ensures
        archive_image(retained(entries, keep)).len() + record(entries[i]).len() <= archive_image(
            entries,
        ).len(),
        entries[i].header.len() == 512 ==> archive_image(retained(entries, keep)).len()
            < archive_image(entries).len(),
    decreases entries.len(),
{
    let front = entries.drop_last();
    let last = entries.last();
    front.lemma_filter_push(last, |entry: EntryView| is_retained(entry.name, keep));
    assert(front.push(last) =~= entries);
    lemma_records_push(front, last);
    if i == entries.len() - 1 {
        lemma_retained_records_fit(front, keep);
    } else {
        assert(front[i] == entries[i]);
        lemma_dropping_shortens(front, keep, i);
        if is_retained(last.name, keep) {
            lemma_records_push(retained(front, keep), last);
        }
    }
}

/// The set of layers that the entries hold.
pub fn scan_entries(entries: &Vec<ArchiveEntry>) -> (layers: LayerSet)
    ensures
        layers@ == present_digests(entry_views(entries@)),
{
    let ghost all = entry_views(entries@);
    let mut layers = LayerSet::new();
    let mut i: usize = 0;
    while i < entries.len()
        invariant
            i <= entries.len(),
            all == entry_views(entries@),
            layers@ == present_digests(all.take(i as int)),
        decreases entries.len() - i,
    {
        let ghost seen = all.take(i as int);
        let ghost next = all.take(i as int + 1);
        let ghost name = entries@[i as int].name@;
        proof {
            assert forall|d: Seq<char>| #[trigger]
                present_digests(next).contains(d) == (present_digests(seen).contains(d) || (
                names_layer(name) && blob_digest(name) == d)) by {
                if names_layer(name) && blob_digest(name) == d {
                    assert(next[i as int].name == name);
                }
            }
        }
        match digest_of_blob(entries[i].name.as_str()) {
            Some(digest) => {
                if !digest.as_str().is_empty() {
                    layers.insert(digest);
                }
            },
            None => {},
        }
        i += 1;
    }
    assert(all.take(i as int) =~= all);
    layers
}

/// Whether an entry named `name` is written out under the retain set `keep`.
pub fn keeps_entry(name: &str, keep: &LayerSet) -> (b: bool)
    ensures
        b == is_retained(name@, keep@),
{
    match digest_of_blob(name) {
        Some(digest) => keep.contains(digest.as_str()),
        None => true,
    }
}

/// Writes the archive that holds the retained entries, in their order.
///
/// The archive is written into memory, so the writing always succeeds.
pub fn write_retained(entries: &Vec<ArchiveEntry>, keep: &LayerSet) -> (r: Result<
    Vec<u8>,
    TrimError,
>)
    ensures
        r is Ok,
        r matches Ok(bytes) ==> bytes@ == archive_image(retained(entry_views(entries@), keep@)),
{
    let ghost all = entry_views(entries@);
    let mut writer = new_writer();
    let mut i: usize = 0;
    while i < entries.len()
        invariant
            i <= entries.len(),
            all == entry_views(entries@),
            written(writer) == records(retained(all.take(i as int), keep@)),
        decreases entries.len() - i,
    {
        let entry = &entries[i];
        proof {
            let seen = all.take(i as int);
            assert(all.take(i as int + 1) =~= seen.push(entry@));
            seen.lemma_filter_push(entry@, |e: EntryView| is_retained(e.name, keep@));
            if is_retained(entry@.name, keep@) {
                assert(retained(seen, keep@).push(entry@).drop_last() =~= retained(seen, keep@));
            }
        }
        if keeps_entry(entry.name.as_str(), keep) {
            match append_entry(&mut writer, &entry.header, entry.data.as_slice()) {
                Ok(()) => {},
                Err(error) => {
                    return Err(TrimError::Io(io_error_text(&error)));
                },
            }
        }
        i += 1;
    }
    assert(all.take(i as int) =~= all);
    match finish_writer(writer) {
        Ok(bytes) => Ok(bytes),
        Err(error) => Err(TrimError::Io(io_error_text(&error))),
    }
}

/// Decides [`holds_sparse_extension`].
pub fn finds_sparse_extension(bytes: &[u8]) -> (found: bool)
    ensures
        found == holds_sparse_extension(bytes@),
{
    let mut at: usize = 0;
    let ghost mut k: int = 0;
    while bytes.len() - at >= 512
        invariant
            0 <= k,
            at == 512 * k,
            at <= bytes.len(),
            forall|j: int| 0 <= j < k ==> !sparse_extension_at(bytes@, j),
        decreases bytes.len() - at,
    {
        if bytes[at + 156] == 0x53 && bytes[at + 257] == 0x75 && bytes[at + 258] == 0x73 && bytes[at
            + 259] == 0x74 && bytes[at + 260] == 0x61 && bytes[at + 261] == 0x72 && bytes[at + 262]
            == 0x20 && bytes[at + 263] == 0x20 && bytes[at + 264] == 0x00 && bytes[at + 482]
            == 0x01 {
            assert(sparse_extension_at(bytes@, k));
            return true;
        }
        at += 512;
        proof {
            k = k + 1;
        }
    }
    assert forall|j: int| !sparse_extension_at(bytes@, j) by {
        if 0 <= j && 512 * j + 512 <= bytes@.len() {
            assert(j < k);
        }
    }
    false
}

/// Reads the entries of an archive, in their order.
///
/// `archive` is the archive's bytes.  An archive in which a block announces
/// sparse extension blocks is refused.  The records that only describe the
/// entry behind them, a long name or extended attributes, are read into
/// that entry and are no entries of their own.
pub fn read_archive(archive: &[u8]) -> (r: Result<Vec<ArchiveEntry>, TrimError>)
    ensures
        match readable_entries(archive@) {
            Some(entries) => r matches Ok(read) && entry_views(read@) == entries,
            None => r matches Err(TrimError::ArchiveFormat(_)),
        },
{
    if finds_sparse_extension(archive) {
        return Err(TrimError::ArchiveFormat("不支持带扩展块的稀疏条目".to_owned()));
    }
    match read_entries(archive) {
        Ok(entries) => Ok(entries),
        Err(error) => Err(TrimError::ArchiveFormat(io_error_text(&error))),
    }
}

/// Scans an archive for the layers that it holds.
///
/// `archive` is the archive's bytes.  Every entry under `blobs/sha256/`
/// whose name goes on after that directory stands for one layer.
pub fn read_tar_layers(archive: &[u8]) -> (r: Result<LayerSet, TrimError>)
    ensures
        match readable_entries(archive@) {
            Some(entries) => r matches Ok(layers) && layers@ == present_digests(entries),
            None => r matches Err(TrimError::ArchiveFormat(_)),
        },
{
    match read_archive(archive) {
        Ok(entries) => Ok(scan_entries(&entries)),
        Err(error) => Err(error),
    }
}

/// Rewrites an archive without the blobs that are not in `keep`.
///
/// `archive` is the archive's bytes.  Every other entry is written out as
/// it was read, header and content, in the order of the input.
pub fn write_trimmed_tar(archive: &[u8], keep: &LayerSet) -> (r: Result<Vec<u8>, TrimError>)
    ensures
        match readable_entries(archive@) {
            Some(entries) => r matches Ok(bytes) && bytes@ == archive_image(
                retained(entries, keep@),
            ),
            None => r matches Err(TrimError::ArchiveFormat(_)),
        },
{
    match read_archive(archive) {
        Ok(entries) => write_retained(&entries, keep),
        Err(error) => Err(error),
    }
}

} // verus!
