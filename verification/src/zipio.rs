//! Serializing archive entries into zip bytes, in memory. The zip encoding
//! itself is the zip crate's work, reached through a small trusted surface:
//! a sink that accumulates entries and, once finished, yields the bytes of a
//! complete archive. Every entry is written stored (uncompressed) with unix
//! permissions 0o755.

use crate::archive::{build_archive, ArchiveEntry, EntryModel, ScanEvent};
use crate::archive::{spec_archive, spec_events_under, spec_warnings};
use crate::views_of;
use vstd::prelude::*;

verus! {

/// An in-memory zip archive under construction.
#[verifier::external_body]
pub struct ZipSink {
    writer: zip::ZipWriter<std::io::Cursor<Vec<u8>>>,
}

/// The entries written to a sink so far, in write order.
pub uninterp spec fn sink_entries(z: ZipSink) -> Seq<EntryModel>;

/// Whether `data` is a finished zip archive holding exactly `entries`, in
/// order, each stored uncompressed with unix permissions 0o755.
pub uninterp spec fn zip_encodes(data: Seq<u8>, entries: Seq<EntryModel>) -> bool;

/// Whether the zip writer refuses to register `entry` after the entries
/// `prior`. The writer runs over an in-memory cursor, whose reads and
/// writes cannot fail, so refusal is a function of the entries alone;
/// notably it refuses an entry whose stored name repeats one already
/// written, and file data too large for a plain zip entry.
pub uninterp spec fn zip_rejects(prior: Seq<EntryModel>, entry: EntryModel) -> bool;

/// Whether the zip writer accepts every step of writing `entries` in order.
pub open spec fn spec_zip_accepts(entries: Seq<EntryModel>) -> bool {
    forall|i: int|
        0 <= i < entries.len() ==> !#[trigger] zip_rejects(entries.take(i), entries[i])
}

/// A fatal archive failure: opening, writing or finalizing the zip stream
/// went wrong.
#[derive(Debug)]
pub struct ArchiveError {
    pub message: String,
}

impl ArchiveError {
    /// A human-readable description of the failure.
    pub fn message(&self) -> (r: String)
        ensures
            r@ == self.message@,
    {
        self.message.clone()
    }
}

/// Relies on zip::write::ZipWriter::new over an in-memory cursor: a newly
/// created writer holds no entries.
#[verifier::external_body]
fn sink_new() -> (z: ZipSink)
    ensures
        sink_entries(z) == Seq::<EntryModel>::empty(),
{
    ZipSink { writer: zip::ZipWriter::new(std::io::Cursor::new(Vec::new())) }
}

/// Relies on zip::write::ZipWriter::start_file and the std::io::Write impl
/// of ZipWriter: on success the archive gains one entry named `path` holding
/// exactly `data`, stored uncompressed with unix permissions 0o755. Over an
/// in-memory cursor every failure of these calls is a deterministic check
/// against what was already written and what is being written (a repeated
/// entry name, data too large for a plain entry), so failure is exactly
/// `zip_rejects`.
#[verifier::external_body]
fn sink_add_file(z: &mut ZipSink, path: &str, data: &Vec<u8>) -> (r: Result<(), String>)
    ensures
        r is Ok <==> !zip_rejects(
            sink_entries(*old(z)),
            EntryModel::File { path: path@, data: data@ },
        ),
        r is Ok ==> sink_entries(*final(z)) == sink_entries(*old(z)).push(
            EntryModel::File { path: path@, data: data@ },
        ),
{
    let options = zip::write::SimpleFileOptions::default().compression_method(
        zip::CompressionMethod::Stored,
    ).unix_permissions(0o755);
    if let Err(e) = z.writer.start_file(path, options) {
        return Err(format!("{}", e));
    }
    if let Err(e) = std::io::Write::write_all(&mut z.writer, data.as_slice()) {
        return Err(format!("{}", e));
    }
    Ok(())
}

/// Relies on zip::write::ZipWriter::add_directory: on success the archive
/// gains one directory entry named `path` (the zip crate appends a trailing
/// slash to the stored name), with unix permissions 0o755. As with files,
/// over an in-memory cursor failure is a deterministic check against the
/// entries, so it is exactly `zip_rejects`.
#[verifier::external_body]
fn sink_add_dir(z: &mut ZipSink, path: &str) -> (r: Result<(), String>)
    ensures
        r is Ok <==> !zip_rejects(sink_entries(*old(z)), EntryModel::Dir { path: path@ }),
        r is Ok ==> sink_entries(*final(z)) == sink_entries(*old(z)).push(
            EntryModel::Dir { path: path@ },
        ),
{
    let options = zip::write::SimpleFileOptions::default().compression_method(
        zip::CompressionMethod::Stored,
    ).unix_permissions(0o755);
    match z.writer.add_directory(path, options) {
        Ok(()) => Ok(()),
        Err(e) => Err(format!("{}", e)),
    }
}

/// Relies on zip::write::ZipWriter::finish: the central directory is
/// written and the returned bytes are a complete zip archive holding
/// exactly the entries written so far. Finalization succeeds: it only
/// writes and seeks within the in-memory cursor, which cannot fail, and
/// every size or name it records was already checked when its entry was
/// registered.
#[verifier::external_body]
fn sink_finish(z: ZipSink) -> (r: Result<Vec<u8>, String>)
    ensures
        r is Ok,
        r matches Ok(data) ==> zip_encodes(data@, sink_entries(z)),
{
    match z.writer.finish() {
        Ok(cursor) => Ok(cursor.into_inner()),
        Err(e) => Err(format!("{}", e)),
    }
}

/// Serialize `entries` into the bytes of a zip archive holding exactly
/// those entries in order. The build fails, with an `ArchiveError`, exactly
/// when the zip writer rejects one of the entries; a traversal warning is
/// never a cause.
pub fn write_zip(entries: &Vec<ArchiveEntry>) -> (r: Result<Vec<u8>, ArchiveError>)
    ensures
        r matches Ok(data) ==> zip_encodes(data@, views_of(entries@)),
        r is Ok <==> spec_zip_accepts(views_of(entries@)),
{
    let ghost all = views_of(entries@);
    let mut sink = sink_new();
    let n = entries.len();
    let mut i: usize = 0;
    proof {
        assert(views_of(entries@.take(0int)) =~= Seq::<EntryModel>::empty());
    }
    while i < n
        invariant
            0 <= i <= n,
            n == entries@.len(),
            all == views_of(entries@),
            sink_entries(sink) == views_of(entries@.take(i as int)),
            forall|k: int| 0 <= k < i ==> !#[trigger] zip_rejects(all.take(k), all[k]),
        decreases n - i,
    {
        proof {
            assert(views_of(entries@.take(i as int)) =~= all.take(i as int));
            assert(all[i as int] == entries@[i as int]@);
        }
        let step = match &entries[i] {
            ArchiveEntry::File { path, data } => sink_add_file(&mut sink, path.as_str(), data),
            ArchiveEntry::Dir { path } => sink_add_dir(&mut sink, path.as_str()),
        };
        match step {
            Ok(()) => {},
            Err(message) => {
                proof {
                    assert(zip_rejects(all.take(i as int), all[i as int]));
                    assert(!spec_zip_accepts(all));
                }
                return Err(ArchiveError { message });
            },
        }
        proof {
            assert(views_of(entries@.take(i + 1)) =~= views_of(entries@.take(i as int)).push(
                entries@[i as int]@,
            ));
        }
        i += 1;
    }
    proof {
        assert(entries@.take(n as int) =~= entries@);
        assert(spec_zip_accepts(all)) by {
            assert(forall|k: int| 0 <= k < all.len() ==> !#[trigger] zip_rejects(
                all.take(k),
                all[k],
            ));
        }
    }
    match sink_finish(sink) {
        Ok(data) => Ok(data),
        Err(message) => Err(ArchiveError { message }),
    }
}

/// Walk outcomes in, zip bytes out: fold the scan events into archive
/// entries and traversal warnings, then serialize the entries. On success
/// the bytes hold exactly the entries the scan called for, and the warnings
/// are the traversal failures, in order. The build fails exactly when the
/// zip writer rejects one of those entries; traversal failures alone never
/// fail it, and a scan that found nothing packs an empty archive. Note that
/// this writer rejects a repeated entry name, so overlapping scans that
/// discover the same path twice fail the build rather than producing
/// duplicate entries.
pub fn pack_files(input_dirname: &str, events: Vec<ScanEvent>) -> (r: Result<
    (Vec<u8>, Vec<String>),
    ArchiveError,
>)
    requires
        spec_events_under(input_dirname@, views_of(events@)),
    ensures
        r matches Ok(p) ==> zip_encodes(p.0@, spec_archive(input_dirname@, views_of(events@)))
            && views_of(p.1@) == spec_warnings(views_of(events@)),
        r is Ok <==> spec_zip_accepts(spec_archive(input_dirname@, views_of(events@))),
{
    let (entries, warnings) = build_archive(input_dirname, events);
    match write_zip(&entries) {
        Ok(data) => Ok((data, warnings)),
        Err(e) => Err(e),
    }
}

/// A traversal failure is never fatal: its message is reported as a
/// warning, and the archive serialized from the scan equals the one
/// serialized from the same scan with the failure dropped, so whether the
/// build succeeds does not change.
pub proof fn lemma_error_never_fatal(
    root: Seq<char>,
    events: Seq<crate::archive::EventModel>,
    i: int,
    message: Seq<char>,
)
    requires
        0 <= i < events.len(),
        events[i] == (crate::archive::EventModel::Error { message }),
    ensures
        spec_zip_accepts(spec_archive(root, events)) == spec_zip_accepts(
            spec_archive(root, events.remove(i)),
        ),
        spec_warnings(events).contains(message),
{
    crate::archive::lemma_error_tolerated(root, events, i, message);
}

/// A scan whose every event is a traversal failure still packs: its archive
/// holds no entries, and writing no entries is accepted.
pub proof fn lemma_fruitless_scan_accepted(root: Seq<char>, events: Seq<crate::archive::EventModel>)
    requires
        forall|i: int| 0 <= i < events.len() ==> #[trigger] events[i] is Error,
    ensures
        spec_archive(root, events) == Seq::<EntryModel>::empty(),
        spec_zip_accepts(spec_archive(root, events)),
{
    crate::archive::lemma_warnings_only_archive_empty(root, events);
}

} // verus!
