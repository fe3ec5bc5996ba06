//! The pipeline's per-event and startup decisions, and the laws that hold of
//! them.
//!
//! For every settled write the surrounding process reads the file and hands
//! the outcome here; these functions decide whether a notification request
//! goes out and what it carries. They keep no state across events: every
//! decision is a function of its arguments alone.

use vstd::prelude::*;
use crate::events::{port_file_name, port_file_name_bytes, relevant_path};
use crate::notifier::{
    request_url, request_body, NotificationRequest, NotifyDecision, notify_decision,
};
use crate::ports::{port_parse_ok, parsed_port, parse_port, ReadError};
use crate::text::{last_segment, matches_at, lemma_last_segment_is_suffix};

verus! {

/// The value a read's contents settle to: the parsed port when the contents
/// parse, and the sentinel `0` (which the notifier suppresses) when they do
/// not. A parse failure and a literal `0` are indistinguishable downstream
/// by design.
pub open spec fn value_of_contents(c: Seq<u8>) -> u32 {
    if port_parse_ok(c) {
        parsed_port(c) as u32
    } else {
        0u32
    }
}

/// The read outcome as the pipeline sees it: a failed read abandons the
/// attempt (`None`); contents settle to their value.
pub open spec fn value_of_read(read: Result<Seq<u8>, ReadError>) -> Option<u32> {
    match read {
        Ok(c) => Some(value_of_contents(c)),
        Err(_) => None,
    }
}

/// The request the pipeline plans for one read outcome: the endpoint URL and
/// the body encoding the settled value, exactly when the read succeeded and
/// the value is positive; nothing otherwise.
pub open spec fn planned_request(base: Seq<u8>, read: Result<Seq<u8>, ReadError>) -> Option<
    (Seq<u8>, Seq<u8>),
> {
    match read {
        Ok(c) => if value_of_contents(c) > 0 {
            Some((request_url(base), request_body(value_of_contents(c) as nat)))
        } else {
            None
        },
        Err(_) => None,
    }
}

/// The view of an executable read outcome.
pub open spec fn read_view(read: Result<Vec<u8>, ReadError>) -> Result<Seq<u8>, ReadError> {
    match read {
        Ok(c) => Ok(c@),
        Err(e) => Err(e),
    }
}

/// Settles one read outcome into a value for the notifier: `None` abandons
/// the attempt after a failed read; contents yield their parsed value, or
/// the sentinel `0` when they do not parse.
pub fn settled_value(read: &Result<Vec<u8>, ReadError>) -> (value: Option<u32>)
    ensures
        value == value_of_read(read_view(*read)),
{
    match read {
        Ok(contents) => match parse_port(contents) {
            Ok(v) => Some(v),
            Err(_) => Some(0),
        },
        Err(_) => None,
    }
}

/// The whole per-write tail of the pipeline: settles the read outcome and
/// runs the notifier's validity check. Returns the one request to send — the endpoint
/// URL and the body encoding the parsed value — exactly when the read
/// succeeded and its contents parse to a positive port; `None` otherwise.
pub fn plan_post(base_url: &Vec<u8>, read: &Result<Vec<u8>, ReadError>) -> (planned: Option<
    NotificationRequest,
>)
    ensures
        (planned is Some <==> planned_request(base_url@, read_view(*read)) is Some),
        (planned matches Some(request) ==> planned_request(base_url@, read_view(*read)) == Some(
            (request.url@, request.body@),
        )),
{
    match settled_value(read) {
        Some(value) => match notify_decision(base_url, value) {
            NotifyDecision::Post(request) => Some(request),
            NotifyDecision::Skip => None,
        },
        None => None,
    }
}

/// The absolute path of the watched file under directory `dir`: the
/// directory, a slash, and the fixed file name.
pub open spec fn watched_file_path(dir: Seq<u8>) -> Seq<u8> {
    dir + seq![47u8] + port_file_name()
}

/// The path of the watched port file under `dir`.
pub fn target_path(dir: &Vec<u8>) -> (path: Vec<u8>)
    ensures
        path@ == watched_file_path(dir@),
{
    let mut path = dir.clone();
    path.push(47);
    let mut name = port_file_name_bytes();
    path.append(&mut name);
    assert(path@ =~= watched_file_path(dir@));
    path
}

/// The startup priming decision: exactly one read of the watched file is
/// planned when the existence check found it, and none when the file is
/// absent or the check itself failed (which is never fatal).
pub fn plan_startup_read(dir: &Vec<u8>, file_present: Option<bool>) -> (planned: Option<Vec<u8>>)
    ensures
        (planned is Some <==> file_present == Some(true)),
        (planned matches Some(path) ==> path@ == watched_file_path(dir@)),
{
    match file_present {
        Some(true) => Some(target_path(dir)),
        _ => None,
    }
}

/// Contents that parse to a positive port `v` plan exactly one request, and
/// its body encodes `v`; contents that fail to parse, or parse to zero,
/// plan none.
pub proof fn lemma_valid_value_notified(base: Seq<u8>, c: Seq<u8>)
    ensures
        port_parse_ok(c) && parsed_port(c) > 0 ==> planned_request(base, Ok(c)) == Some(
            (request_url(base), request_body(parsed_port(c))),
        ),
        !(port_parse_ok(c) && parsed_port(c) > 0) ==> planned_request(base, Ok(c)) is None,
{
}

/// The pipeline keeps no state across events: two settled writes whose
/// reads returned the same contents plan identical requests. Repeated
/// notification on equal values is deliberate — there is no deduplication.
pub proof fn lemma_repeat_plans_equal(
    base: Seq<u8>,
    first: Result<Seq<u8>, ReadError>,
    second: Result<Seq<u8>, ReadError>,
)
    requires
        first == second,
    ensures
        planned_request(base, first) == planned_request(base, second),
{
}

/// The watched file's own path is relevant to the classifier: its final
/// segment is exactly the watched file name. A settled write to the path
/// the startup pass primes from is therefore never filtered out.
pub proof fn lemma_watched_path_relevant(dir: Seq<u8>)
    ensures
        relevant_path(watched_file_path(dir)),
{
    let p = watched_file_path(dir);
    let name = port_file_name();
    let k = dir.len() + 1;
    assert(p[k - 1] == 47);
    assert(forall|t: int| k <= t < p.len() ==> #[trigger] p[t] == name[t - k]);
    assert(forall|t: int| k <= t < p.len() ==> p[t] != 47);
    lemma_last_segment_is_suffix(p, k as int);
    assert(p.subrange(k as int, p.len() as int) =~= name);
    assert(last_segment(p).subrange(0, name.len() as int) =~= name);
    assert(matches_at(last_segment(p), name, 0));
}

} // verus!
