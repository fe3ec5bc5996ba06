//! Raw filesystem change events and their classification.
//!
//! A raw event carries a kind and a non-empty list of absolute paths, as the
//! operating system's watcher reports them. Classification filters the noisy
//! stream down to the one signal the pipeline acts on: a settled write to the
//! watched port file.

use vstd::prelude::*;
use crate::text::{contains_seq, last_segment, contains_bytes, last_segment_bytes};

verus! {

/// The access mode attached to a close event, as the watcher reports it.
#[derive(Clone, Copy, Debug, PartialEq, Eq, Structural)]
pub enum AccessMode {
    Any,
    Execute,
    Read,
    Write,
    Other,
}

/// The subkind of a creation event.
#[derive(Clone, Copy, Debug, PartialEq, Eq, Structural)]
pub enum CreateKind {
    Any,
    File,
    Folder,
    Other,
}

/// The subkind of a modification event.
#[derive(Clone, Copy, Debug, PartialEq, Eq, Structural)]
pub enum ModifyKind {
    Any,
    Data,
    Metadata,
    Name,
    Other,
}

/// The subkind of a removal event.
#[derive(Clone, Copy, Debug, PartialEq, Eq, Structural)]
pub enum RemoveKind {
    Any,
    File,
    Folder,
    Other,
}

/// The kind of a raw change event: a close after an access, a creation, a
/// modification, a removal, or anything else the platform reports.
#[derive(Clone, Copy, Debug, PartialEq, Eq, Structural)]
pub enum EventKind {
    AccessClose(AccessMode),
    Create(CreateKind),
    Modify(ModifyKind),
    Remove(RemoveKind),
    Other,
}

/// One notification from the raw event source. `paths` holds the absolute
/// paths the event concerns, as bytes; the first path is the event's
/// identity and must be present.
pub struct RawChangeEvent {
    pub kind: EventKind,
    pub paths: Vec<Vec<u8>>,
}

/// The classifier's result for one event: the path of a completed write
/// worth reading, or nothing of interest.
#[derive(Debug, PartialEq, Eq)]
pub enum Classification {
    SettledWrite(Vec<u8>),
    Irrelevant,
}

/// The fixed name of the file that carries the forwarded port:
/// the bytes of `forwarded_port`.
pub open spec fn port_file_name() -> Seq<u8> {
    seq![102u8, 111u8, 114u8, 119u8, 97u8, 114u8, 100u8, 101u8, 100u8, 95u8, 112u8, 111u8, 114u8, 116u8]
}

/// The watched file name, `forwarded_port`, as a byte vector.
pub fn port_file_name_bytes() -> (name: Vec<u8>)
    ensures
        name@ == port_file_name(),
{
    let mut name: Vec<u8> = Vec::new();
    name.push(102);
    name.push(111);
    name.push(114);
    name.push(119);
    name.push(97);
    name.push(114);
    name.push(100);
    name.push(101);
    name.push(100);
    name.push(95);
    name.push(112);
    name.push(111);
    name.push(114);
    name.push(116);
    assert(name@ =~= port_file_name());
    name
}

/// The two event kinds that signal a logical write has completed: a
/// close-after-write, or the creation of a regular file.
pub open spec fn is_settled_kind(kind: EventKind) -> bool {
    match kind {
        EventKind::AccessClose(mode) => mode == AccessMode::Write,
        EventKind::Create(sub) => sub == CreateKind::File,
        _ => false,
    }
}

/// Whether a path concerns the watched port file: its final segment
/// contains the fixed file name.
pub open spec fn relevant_path(p: Seq<u8>) -> bool {
    contains_seq(last_segment(p), port_file_name())
}

/// Classifies one raw event. The verdict is `SettledWrite`, carrying the
/// event's first path, exactly when that path's final segment contains the
/// watched file name and the kind is a close-after-write or a file
/// creation; every other event is `Irrelevant`. Classification is pure: no
/// history is consulted, so equal events always receive equal verdicts.
pub fn classify(event: &RawChangeEvent) -> (verdict: Classification)
    requires
        event.paths@.len() > 0,
    ensures
        (verdict matches Classification::SettledWrite(p) ==> p@ == event.paths@[0]@
            && relevant_path(event.paths@[0]@) && is_settled_kind(event.kind)),
        (relevant_path(event.paths@[0]@) && is_settled_kind(event.kind) ==> (
        verdict matches Classification::SettledWrite(p) && p@ == event.paths@[0]@)),
        (verdict is Irrelevant <==> !(relevant_path(event.paths@[0]@) && is_settled_kind(
            event.kind,
        ))),
{
    let segment = last_segment_bytes(&event.paths[0]);
    let name = port_file_name_bytes();
    if !contains_bytes(&segment, &name) {
        return Classification::Irrelevant;
    }
    let settled = match event.kind {
        EventKind::AccessClose(mode) => matches!(mode, AccessMode::Write),
        EventKind::Create(sub) => matches!(sub, CreateKind::File),
        _ => false,
    };
    if settled {
        Classification::SettledWrite(event.paths[0].clone())
    } else {
        Classification::Irrelevant
    }
}

} // verus!
