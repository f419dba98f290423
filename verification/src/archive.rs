//! Archive assembly: turn the outcome of walking the resolved paths into an
//! ordered list of archive entries addressed relative to the input root,
//! tolerating per-path traversal failures as warnings.

use crate::paths::{rel_path, spec_is_under, spec_rel_path};
use crate::views_of;
use vstd::prelude::*;
use vstd::string::StrSliceExecFns;

verus! {

/// One outcome of the recursive walk over a resolved path: a file with its
/// bytes, a directory, or a traversal failure.
#[derive(Debug)]
pub enum ScanEvent {
    File { path: String, data: Vec<u8> },
    Dir { path: String },
    Error { message: String },
}

/// The mathematical shape of a `ScanEvent`.
pub enum EventModel {
    File { path: Seq<char>, data: Seq<u8> },
    Dir { path: Seq<char> },
    Error { message: Seq<char> },
}

impl View for ScanEvent {
    type V = EventModel;

    open spec fn view(&self) -> EventModel {
        match *self {
            ScanEvent::File { path, data } => EventModel::File { path: path@, data: data@ },
            ScanEvent::Dir { path } => EventModel::Dir { path: path@ },
            ScanEvent::Error { message } => EventModel::Error { message: message@ },
        }
    }
}

/// One entry of the finished archive, addressed relative to the input root:
/// a stored file with its exact bytes, or an explicit directory marker.
#[derive(Debug)]
pub enum ArchiveEntry {
    File { path: String, data: Vec<u8> },
    Dir { path: String },
}

/// The mathematical shape of an `ArchiveEntry`.
pub enum EntryModel {
    File { path: Seq<char>, data: Seq<u8> },
    Dir { path: Seq<char> },
}

impl View for ArchiveEntry {
    type V = EntryModel;

    open spec fn view(&self) -> EntryModel {
        match *self {
            ArchiveEntry::File { path, data } => EntryModel::File { path: path@, data: data@ },
            ArchiveEntry::Dir { path } => EntryModel::Dir { path: path@ },
        }
    }
}

/// Whether the path a scan event speaks of lies inside `root`. A traversal
/// failure carries no path and is always acceptable.
pub open spec fn spec_event_under(root: Seq<char>, e: EventModel) -> bool {
    match e {
        EventModel::File { path, .. } => spec_is_under(root, path),
        EventModel::Dir { path } => spec_is_under(root, path),
        EventModel::Error { .. } => true,
    }
}

/// Whether every scanned path lies inside `root`.
pub open spec fn spec_events_under(root: Seq<char>, events: Seq<EventModel>) -> bool {
    forall|i: int| 0 <= i < events.len() ==> spec_event_under(root, #[trigger] events[i])
}

/// The archive entries one scan event contributes: a file becomes a stored
/// file entry under its root-relative path; a directory becomes a directory
/// entry unless its root-relative path is empty (the input root itself); a
/// traversal failure contributes nothing.
pub open spec fn spec_entry_of(root: Seq<char>, e: EventModel) -> Seq<EntryModel> {
    match e {
        EventModel::File { path, data } => seq![
            EntryModel::File { path: spec_rel_path(root, path), data },
        ],
        EventModel::Dir { path } => if spec_rel_path(root, path).len() > 0 {
            seq![EntryModel::Dir { path: spec_rel_path(root, path) }]
        } else {
            Seq::empty()
        },
        EventModel::Error { .. } => Seq::empty(),
    }
}

/// The warnings one scan event contributes: the message of a traversal
/// failure, nothing otherwise.
pub open spec fn spec_warning_of(e: EventModel) -> Seq<Seq<char>> {
    match e {
        EventModel::Error { message } => seq![message],
        _ => Seq::empty(),
    }
}

/// The archive built from a sequence of scan events, in event order.
pub open spec fn spec_archive(root: Seq<char>, events: Seq<EventModel>) -> Seq<EntryModel>
    decreases events.len(),
{
    if events.len() == 0 {
        Seq::empty()
    } else {
        spec_entry_of(root, events[0]) + spec_archive(root, events.skip(1))
    }
}

/// The warnings collected from a sequence of scan events, in event order.
pub open spec fn spec_warnings(events: Seq<EventModel>) -> Seq<Seq<char>>
    decreases events.len(),
{
    if events.len() == 0 {
        Seq::empty()
    } else {
        spec_warning_of(events[0]) + spec_warnings(events.skip(1))
    }
}

/// Fold the scan events into archive entries and traversal warnings.
///
/// Every path walked must lie inside `input_dirname`; that is the caller's
/// contract, not validated here.
pub fn build_archive(input_dirname: &str, events: Vec<ScanEvent>) -> (r: (
    Vec<ArchiveEntry>,
    Vec<String>,
))
    requires
        spec_events_under(input_dirname@, views_of(events@)),
    ensures
        views_of(r.0@) == spec_archive(input_dirname@, views_of(events@)),
        views_of(r.1@) == spec_warnings(views_of(events@)),
{
    let ghost all = views_of(events@);
    let mut rest = events;
    let mut entries: Vec<ArchiveEntry> = Vec::new();
    let mut warnings: Vec<String> = Vec::new();
    while rest.len() > 0
        invariant
            spec_events_under(input_dirname@, views_of(rest@)),
            spec_archive(input_dirname@, all) == views_of(entries@) + spec_archive(
                input_dirname@,
                views_of(rest@),
            ),
            spec_warnings(all) == views_of(warnings@) + spec_warnings(views_of(rest@)),
        decreases rest.len(),
    {
        let ghost remaining = views_of(rest@);
        let ghost eb = views_of(entries@);
        let ghost wb = views_of(warnings@);
        let ev = rest.remove(0);
        let ghost evv = ev@;
        proof {
            assert(remaining[0] == evv);
            assert(views_of(rest@) =~= remaining.skip(1));
            assert(spec_archive(input_dirname@, remaining) == spec_entry_of(input_dirname@, evv)
                + spec_archive(input_dirname@, views_of(rest@)));
            assert(spec_warnings(remaining) == spec_warning_of(evv) + spec_warnings(
                views_of(rest@),
            ));
        }
        match ev {
            ScanEvent::File { path, data } => {
                let rel = rel_path(input_dirname, path.as_str());
                entries.push(ArchiveEntry::File { path: rel, data });
                proof {
                    assert(views_of(entries@) =~= eb + spec_entry_of(input_dirname@, evv));
                }
            },
            ScanEvent::Dir { path } => {
                let rel = rel_path(input_dirname, path.as_str());
                if rel.as_str().unicode_len() > 0 {
                    entries.push(ArchiveEntry::Dir { path: rel });
                    proof {
                        assert(views_of(entries@) =~= eb + spec_entry_of(input_dirname@, evv));
                    }
                } else {
                    proof {
                        assert(views_of(entries@) =~= eb + spec_entry_of(input_dirname@, evv));
                    }
                }
            },
            ScanEvent::Error { message } => {
                warnings.push(message);
                proof {
                    assert(views_of(warnings@) =~= wb + spec_warning_of(evv));
                }
            },
        }
        proof {
            assert(views_of(entries@) =~= eb + spec_entry_of(input_dirname@, evv));
            assert(views_of(warnings@) =~= wb + spec_warning_of(evv));
            lemma_seq_add_assoc(
                eb,
                spec_entry_of(input_dirname@, evv),
                spec_archive(input_dirname@, views_of(rest@)),
            );
            lemma_seq_add_assoc(
                wb,
                spec_warning_of(evv),
                spec_warnings(views_of(rest@)),
            );
        }
    }
    proof {
        assert(views_of(rest@) =~= Seq::<EventModel>::empty());
        assert(views_of(entries@) + spec_archive(input_dirname@, views_of(rest@)) =~= views_of(
            entries@,
        ));
        assert(views_of(warnings@) + spec_warnings(views_of(rest@)) =~= views_of(warnings@));
    }
    (entries, warnings)
}

/// Sequence concatenation is associative.
proof fn lemma_seq_add_assoc<T>(a: Seq<T>, b: Seq<T>, c: Seq<T>)
    ensures
        (a + b) + c == a + (b + c),
{
    assert((a + b) + c =~= a + (b + c));
}

/// Round trip: every file discovered during traversal is archived, under its
/// root-relative path, with exactly its original bytes.
pub proof fn lemma_file_archived(
    root: Seq<char>,
    events: Seq<EventModel>,
    i: int,
    path: Seq<char>,
    data: Seq<u8>,
)
    requires
        0 <= i < events.len(),
        events[i] == (EventModel::File { path, data }),
    ensures
        spec_archive(root, events).contains(
            EntryModel::File { path: spec_rel_path(root, path), data },
        ),
    decreases events.len(),
{
    let target = EntryModel::File { path: spec_rel_path(root, path), data };
    if i == 0 {
        assert(spec_archive(root, events)[0] == target);
    } else {
        lemma_file_archived(root, events.skip(1), i - 1, path, data);
        let rest = spec_archive(root, events.skip(1));
        let j = choose|j: int| 0 <= j < rest.len() && rest[j] == target;
        let head = spec_entry_of(root, events[0]);
        assert(spec_archive(root, events)[head.len() + j] == target);
    }
}

/// A traversed directory whose root-relative path is non-empty is archived
/// as an explicit directory entry, never silently dropped.
pub proof fn lemma_dir_archived(root: Seq<char>, events: Seq<EventModel>, i: int, path: Seq<char>)
    requires
        0 <= i < events.len(),
        events[i] == (EventModel::Dir { path }),
        spec_rel_path(root, path).len() > 0,
    ensures
        spec_archive(root, events).contains(EntryModel::Dir { path: spec_rel_path(root, path) }),
    decreases events.len(),
{
    let target = EntryModel::Dir { path: spec_rel_path(root, path) };
    if i == 0 {
        assert(spec_archive(root, events)[0] == target);
    } else {
        lemma_dir_archived(root, events.skip(1), i - 1, path);
        let rest = spec_archive(root, events.skip(1));
        let j = choose|j: int| 0 <= j < rest.len() && rest[j] == target;
        let head = spec_entry_of(root, events[0]);
        assert(spec_archive(root, events)[head.len() + j] == target);
    }
}

/// A scan whose every event is a traversal failure contributes no archive
/// entry at all.
pub proof fn lemma_warnings_only_archive_empty(root: Seq<char>, events: Seq<EventModel>)
    requires
        forall|i: int| 0 <= i < events.len() ==> #[trigger] events[i] is Error,
    ensures
        spec_archive(root, events) == Seq::<EntryModel>::empty(),
    decreases events.len(),
{
    if events.len() > 0 {
        lemma_warnings_only_archive_empty(root, events.skip(1));
        assert(spec_archive(root, events) =~= Seq::<EntryModel>::empty());
    }
}

/// A traversal failure is tolerated: it surfaces as a warning, and dropping
/// it from the scan leaves the archived entries exactly as they were, so one
/// bad path never loses the rest of the archive.
pub proof fn lemma_error_tolerated(
    root: Seq<char>,
    events: Seq<EventModel>,
    i: int,
    message: Seq<char>,
)
    requires
        0 <= i < events.len(),
        events[i] == (EventModel::Error { message }),
    ensures
        spec_archive(root, events) == spec_archive(root, events.remove(i)),
        spec_warnings(events).contains(message),
    decreases events.len(),
{
    if i == 0 {
        assert(events.remove(0) =~= events.skip(1));
        assert(spec_archive(root, events) =~= spec_archive(root, events.skip(1)));
        assert(spec_warnings(events)[0] == message);
    } else {
        lemma_error_tolerated(root, events.skip(1), i - 1, message);
        assert(events.remove(i).skip(1) =~= events.skip(1).remove(i - 1));
        assert(events.remove(i)[0] == events[0]);
        assert(spec_archive(root, events.remove(i)) == spec_entry_of(root, events[0])
            + spec_archive(root, events.skip(1).remove(i - 1)));
        let restw = spec_warnings(events.skip(1));
        let j = choose|j: int| 0 <= j < restw.len() && restw[j] == message;
        let head = spec_warning_of(events[0]);
        assert(spec_warnings(events)[head.len() + j] == message);
    }
}

} // verus!
