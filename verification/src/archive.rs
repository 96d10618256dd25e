//! Archive entries and binary-locate extraction.
//!
//! The two archive encodings used by the tool releases (a gzip-compressed tar
//! stream and a zip central-directory archive) are decoded by outside crates
//! behind trusted wrappers that list every entry eagerly; all selection logic
//! on the listed entries is verified here.
//!
//! Binary-locate mode scans entries in order and yields the content of the
//! first entry whose name matches the platform binary; remaining entries are
//! ignored. When no entry matches, the scan yields nothing and the caller
//! must treat the missing output as its own condition.

use vstd::prelude::*;

use crate::byteseq::{bytes_end_with, chars_start_with, copy_bytes, ends_with_bytes};

verus! {

/// One archive member: its stored path, its full decompressed content, and
/// its unix permission bits when the archive records them.
pub struct ArchiveEntry {
    pub path: Vec<u8>,
    pub data: Vec<u8>,
    pub unix_mode: Option<u32>,
}

/// Mathematical model of an entry: (path bytes, content bytes, mode).
pub type EntryModel = (Seq<u8>, Seq<u8>, Option<u32>);

/// The model of one entry.
pub open spec fn entry_model(e: ArchiveEntry) -> EntryModel {
    (e.path@, e.data@, e.unix_mode)
}

/// The model of an entry list.
pub open spec fn entries_model(es: Seq<ArchiveEntry>) -> Seq<EntryModel> {
    es.map_values(|e: ArchiveEntry| entry_model(e))
}

/// What decoding `bytes` as a zip archive yields: the entries in archive
/// order, or nothing when the bytes are not a well-formed zip archive. The
/// decoding depends on the bytes alone.
pub uninterp spec fn zip_entries_of(bytes: Seq<u8>) -> Option<Seq<EntryModel>>;

/// What decoding `bytes` as a gzip-compressed tar stream yields, in stream
/// order, or nothing when the bytes are not a well-formed archive. The
/// decoding depends on the bytes alone.
pub uninterp spec fn tar_gz_entries_of(bytes: Seq<u8>) -> Option<Seq<EntryModel>>;

/// Relies on zip::ZipArchive (new, len, by_index) and zip::read::ZipFile
/// (name, unix_mode, its std::io::Read impl): decodes the central directory
/// of a zip archive held in memory and lists each entry's name, content and
/// unix mode in archive order; the outcome is a function of the bytes alone.
/// Every failure message this body formats carries the same fixed prefix.
#[verifier::external_body]
pub(crate) fn read_zip_entries(bytes: &[u8]) -> (r: Result<Vec<ArchiveEntry>, String>)
    ensures
        r matches Ok(es) ==> zip_entries_of(bytes@) == Some(entries_model(es@)),
        r matches Err(m) ==> zip_entries_of(bytes@) is None && chars_start_with(
            m@,
            "Failed to read zip "@,
        ),
{
    let mut archive = zip::ZipArchive::new(std::io::Cursor::new(bytes))
        .map_err(|e| format!("Failed to read zip archive: {}", e))?;
    let mut out = Vec::new();
    for i in 0..archive.len() {
        let mut f = archive.by_index(i).map_err(|e| format!("Failed to read zip entry: {}", e))?;
        let path = f.name().as_bytes().to_vec();
        let unix_mode = f.unix_mode();
        let mut data = Vec::new();
        std::io::Read::read_to_end(&mut f, &mut data)
            .map_err(|e| format!("Failed to read zip entry: {}", e))?;
        out.push(ArchiveEntry { path, data, unix_mode });
    }
    Ok(out)
}

/// Relies on flate2::read::GzDecoder and tar::Archive (entries) and
/// tar::Entry (path_bytes, its std::io::Read impl): decompresses a gzip
/// stream, reads it as a tar archive and lists each entry's path and content
/// in stream order; the outcome is a function of the bytes alone. The tar
/// header's mode bits are not read: callers of this encoding force their own
/// permissions. Every failure message this body formats carries the same
/// fixed prefix.
#[verifier::external_body]
fn read_tar_gz_entries(bytes: &[u8]) -> (r: Result<Vec<ArchiveEntry>, String>)
    ensures
        r matches Ok(es) ==> tar_gz_entries_of(bytes@) == Some(entries_model(es@)),
        r matches Err(m) ==> tar_gz_entries_of(bytes@) is None && chars_start_with(
            m@,
            "Failed to read tar "@,
        ),
{
    let mut archive = tar::Archive::new(flate2::read::GzDecoder::new(std::io::Cursor::new(bytes)));
    let entries = archive.entries().map_err(|e| format!("Failed to read tar archive: {}", e))?;
    let mut out = Vec::new();
    for entry in entries {
        let mut entry = entry.map_err(|e| format!("Failed to read tar entry: {}", e))?;
        let path = entry.path_bytes().to_vec();
        let mut data = Vec::new();
        std::io::Read::read_to_end(&mut entry, &mut data)
            .map_err(|e| format!("Failed to read tar entry: {}", e))?;
        out.push(ArchiveEntry { path, data, unix_mode: None });
    }
    Ok(out)
}

/// The name suffix that marks the tool binary in a zip archive: `uv.exe`.
pub open spec fn zip_binary_suffix() -> Seq<u8> {
    seq![117u8, 118u8, 46u8, 101u8, 120u8, 101u8]
}

/// The name suffix that marks the tool binary in a tar archive: `/uv`.
pub open spec fn tar_binary_suffix() -> Seq<u8> {
    seq![47u8, 117u8, 118u8]
}

/// The suffix of the alias binary that must not be mistaken for the tool:
/// `/uvx`.
pub open spec fn tar_excluded_suffix() -> Seq<u8> {
    seq![47u8, 117u8, 118u8, 120u8]
}

/// Whether a zip entry name names the tool binary.
pub open spec fn zip_binary_match(path: Seq<u8>) -> bool {
    bytes_end_with(path, zip_binary_suffix())
}

/// Whether a tar entry name names the tool binary (and not the alias).
pub open spec fn tar_binary_match(path: Seq<u8>) -> bool {
    bytes_end_with(path, tar_binary_suffix()) && !bytes_end_with(path, tar_excluded_suffix())
}

/// First-match scan: the content of the first entry whose path satisfies
/// `pred`, or nothing when no entry matches.
pub open spec fn spec_locate(ms: Seq<EntryModel>, pred: spec_fn(Seq<u8>) -> bool) -> Option<Seq<u8>>
    decreases ms.len(),
{
    if ms.len() == 0 {
        None
    } else if pred(ms[0].0) {
        Some(ms[0].1)
    } else {
        spec_locate(ms.drop_first(), pred)
    }
}

/// Binary-locate over a zip entry list.
pub open spec fn spec_locate_zip(ms: Seq<EntryModel>) -> Option<Seq<u8>> {
    spec_locate(ms, |p: Seq<u8>| zip_binary_match(p))
}

/// Binary-locate over a tar entry list.
pub open spec fn spec_locate_tar(ms: Seq<EntryModel>) -> Option<Seq<u8>> {
    spec_locate(ms, |p: Seq<u8>| tar_binary_match(p))
}

/// The model of an optional byte vector.
pub open spec fn opt_bytes_model(o: Option<Vec<u8>>) -> Option<Seq<u8>> {
    match o {
        Some(v) => Some(v@),
        None => None,
    }
}

proof fn lemma_locate_skip(ms: Seq<EntryModel>, pred: spec_fn(Seq<u8>) -> bool, i: int)
    requires
        0 <= i <= ms.len(),
        forall|j: int| 0 <= j < i ==> !pred(#[trigger] ms[j].0),
    ensures
        spec_locate(ms, pred) == spec_locate(ms.skip(i), pred),
    decreases i,
{
    if i > 0 {
        assert(ms.drop_first() =~= ms.skip(1));
        lemma_locate_skip(ms.skip(1), pred, i - 1);
        assert(ms.skip(1).skip(i - 1) =~= ms.skip(i));
    } else {
        assert(ms.skip(0) =~= ms);
    }
}

fn locate_entry(entries: &Vec<ArchiveEntry>, zip_mode: bool) -> (r: Option<Vec<u8>>)
    ensures
        zip_mode ==> opt_bytes_model(r) == spec_locate_zip(entries_model(entries@)),
        !zip_mode ==> opt_bytes_model(r) == spec_locate_tar(entries_model(entries@)),
{
    let ghost ms = entries_model(entries@);
    let ghost pred: spec_fn(Seq<u8>) -> bool = if zip_mode {
        |p: Seq<u8>| zip_binary_match(p)
    } else {
        |p: Seq<u8>| tar_binary_match(p)
    };
    let zip_suffix: Vec<u8> = vec![117u8, 118u8, 46u8, 101u8, 120u8, 101u8];
    let tar_suffix: Vec<u8> = vec![47u8, 117u8, 118u8];
    let tar_excluded: Vec<u8> = vec![47u8, 117u8, 118u8, 120u8];
    let mut i: usize = 0;
    while i < entries.len()
        invariant
            i <= entries.len(),
            ms == entries_model(entries@),
            zip_mode ==> pred == (|p: Seq<u8>| zip_binary_match(p)),
            !zip_mode ==> pred == (|p: Seq<u8>| tar_binary_match(p)),
            zip_suffix@ == zip_binary_suffix(),
            tar_suffix@ == tar_binary_suffix(),
            tar_excluded@ == tar_excluded_suffix(),
            forall|j: int| 0 <= j < i ==> !pred(#[trigger] ms[j].0),
        decreases entries.len() - i,
    {
        let e = &entries[i];
        let hit = if zip_mode {
            ends_with_bytes(e.path.as_slice(), zip_suffix.as_slice())
        } else {
            ends_with_bytes(e.path.as_slice(), tar_suffix.as_slice())
                && !ends_with_bytes(e.path.as_slice(), tar_excluded.as_slice())
        };
        proof {
            assert(ms[i as int] == entry_model(entries@[i as int]));
            assert(hit == pred(ms[i as int].0));
        }
        if hit {
            proof {
                lemma_locate_skip(ms, pred, i as int);
                assert(ms.skip(i as int)[0] == ms[i as int]);
            }
            return Some(copy_bytes(e.data.as_slice()));
        }
        i += 1;
    }
    proof {
        lemma_locate_skip(ms, pred, i as int);
        assert(ms.skip(i as int).len() == 0);
    }
    None
}

/// The content of the first zip entry naming the tool binary, if any.
pub fn locate_zip_binary(entries: &Vec<ArchiveEntry>) -> (r: Option<Vec<u8>>)
    ensures
        opt_bytes_model(r) == spec_locate_zip(entries_model(entries@)),
{
    locate_entry(entries, true)
}

/// The content of the first tar entry naming the tool binary, if any.
pub fn locate_tar_binary(entries: &Vec<ArchiveEntry>) -> (r: Option<Vec<u8>>)
    ensures
        opt_bytes_model(r) == spec_locate_tar(entries_model(entries@)),
{
    locate_entry(entries, false)
}

/// Binary-locate extraction from zip archive bytes: decode the central
/// directory, then yield the content of the first entry naming the tool
/// binary. A malformed archive is an error; an archive without a matching
/// entry yields nothing.
pub fn extract_zip_binary(bytes: &[u8]) -> (r: Result<Option<Vec<u8>>, String>)
    ensures
        r matches Ok(o) ==> (zip_entries_of(bytes@) matches Some(es) && opt_bytes_model(o)
            == spec_locate_zip(es)),
        r matches Err(m) ==> zip_entries_of(bytes@) is None && chars_start_with(
            m@,
            "Failed to read zip "@,
        ),
{
    match read_zip_entries(bytes) {
        Ok(entries) => Ok(locate_zip_binary(&entries)),
        Err(m) => Err(m),
    }
}

/// Binary-locate extraction from gzip-compressed tar bytes.
pub fn extract_tar_gz_binary(bytes: &[u8]) -> (r: Result<Option<Vec<u8>>, String>)
    ensures
        r matches Ok(o) ==> (tar_gz_entries_of(bytes@) matches Some(es) && opt_bytes_model(o)
            == spec_locate_tar(es)),
        r matches Err(m) ==> tar_gz_entries_of(bytes@) is None && chars_start_with(
            m@,
            "Failed to read tar "@,
        ),
{
    match read_tar_gz_entries(bytes) {
        Ok(entries) => Ok(locate_tar_binary(&entries)),
        Err(m) => Err(m),
    }
}

/// When exactly one entry matches, the scan yields exactly that entry's
/// content: an archive containing exactly one entry naming the tool binary
/// extracts byte-identically to that entry's content.
pub proof fn lemma_locate_single_match(
    ms: Seq<EntryModel>,
    pred: spec_fn(Seq<u8>) -> bool,
    i: int,
)
    requires
        0 <= i < ms.len(),
        pred(ms[i].0),
        forall|j: int| 0 <= j < ms.len() && j != i ==> !pred(#[trigger] ms[j].0),
    ensures
        spec_locate(ms, pred) == Some(ms[i].1),
{
    lemma_locate_skip(ms, pred, i);
    assert(ms.skip(i)[0] == ms[i]);
}

/// When no entry matches, the scan yields nothing.
pub proof fn lemma_locate_no_match(ms: Seq<EntryModel>, pred: spec_fn(Seq<u8>) -> bool)
    requires
        forall|j: int| 0 <= j < ms.len() ==> !pred(#[trigger] ms[j].0),
    ensures
        spec_locate(ms, pred) is None,
{
    lemma_locate_skip(ms, pred, ms.len() as int);
    assert(ms.skip(ms.len() as int).len() == 0);
}

} // verus!
