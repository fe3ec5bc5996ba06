//! Building the outbound request for a settled port value, and the validity
//! check that keeps non-positive values off the wire.

use vstd::prelude::*;
use crate::ports::dec_digits;

verus! {

/// How one notification ended: posted successfully, suppressed by the
/// validity check before any network use, or failed in transit.
#[derive(Clone, Copy, Debug, PartialEq, Eq, Structural)]
pub enum NotifyOutcome {
    Sent,
    Skipped,
    Failed,
}

/// The outbound side effect: an HTTP POST of `body` to `url`.
#[derive(Debug, PartialEq, Eq)]
pub struct NotificationRequest {
    pub url: Vec<u8>,
    pub body: Vec<u8>,
}

/// The notifier's verdict for one settled value: post this request, or skip
/// without any network call.
#[derive(Debug, PartialEq, Eq)]
pub enum NotifyDecision {
    Post(NotificationRequest),
    Skip,
}

/// The fixed path of the remote configuration endpoint: the bytes of
/// `/api/v2/app/setPreferences`.
pub open spec fn endpoint_path() -> Seq<u8> {
    seq![
        47u8, 97u8, 112u8, 105u8, 47u8, 118u8, 50u8, 47u8, 97u8, 112u8, 112u8, 47u8, 115u8, 101u8,
        116u8, 80u8, 114u8, 101u8, 102u8, 101u8, 114u8, 101u8, 110u8, 99u8, 101u8, 115u8,
    ]
}

/// The form-encoded body up to the port digits: the bytes of
/// `json={"listen_port": `.
pub open spec fn body_prefix() -> Seq<u8> {
    seq![
        106u8, 115u8, 111u8, 110u8, 61u8, 123u8, 34u8, 108u8, 105u8, 115u8, 116u8, 101u8, 110u8,
        95u8, 112u8, 111u8, 114u8, 116u8, 34u8, 58u8, 32u8,
    ]
}

/// The full URL notified for a given base: the base with the fixed endpoint
/// path appended.
pub open spec fn request_url(base: Seq<u8>) -> Seq<u8> {
    base + endpoint_path()
}

/// The full request body for port `v`: the form-encoded settings object
/// whose single key carries the decimal digits of `v`.
pub open spec fn request_body(v: nat) -> Seq<u8> {
    body_prefix() + dec_digits(v) + seq![125u8]
}

fn endpoint_path_bytes() -> (path: Vec<u8>)
    ensures
        path@ == endpoint_path(),
{
    let mut path: Vec<u8> = Vec::new();
    path.push(47);
    path.push(97);
    path.push(112);
    path.push(105);
    path.push(47);
    path.push(118);
    path.push(50);
    path.push(47);
    path.push(97);
    path.push(112);
    path.push(112);
    path.push(47);
    path.push(115);
    path.push(101);
    path.push(116);
    path.push(80);
    path.push(114);
    path.push(101);
    path.push(102);
    path.push(101);
    path.push(114);
    path.push(101);
    path.push(110);
    path.push(99);
    path.push(101);
    path.push(115);
    assert(path@ =~= endpoint_path());
    path
}

fn body_prefix_bytes() -> (prefix: Vec<u8>)
    ensures
        prefix@ == body_prefix(),
{
    let mut prefix: Vec<u8> = Vec::new();
    prefix.push(106);
    prefix.push(115);
    prefix.push(111);
    prefix.push(110);
    prefix.push(61);
    prefix.push(123);
    prefix.push(34);
    prefix.push(108);
    prefix.push(105);
    prefix.push(115);
    prefix.push(116);
    prefix.push(101);
    prefix.push(110);
    prefix.push(95);
    prefix.push(112);
    prefix.push(111);
    prefix.push(114);
    prefix.push(116);
    prefix.push(34);
    prefix.push(58);
    prefix.push(32);
    assert(prefix@ =~= body_prefix());
    prefix
}

/// Builds the notification request for a positive port value: the endpoint
/// URL under `base_url` and the body encoding `port`.
pub fn build_request(base_url: &Vec<u8>, port: u32) -> (request: NotificationRequest)
    ensures
        request.url@ == request_url(base_url@),
        request.body@ == request_body(port as nat),
{
    let mut url = base_url.clone();
    let mut path = endpoint_path_bytes();
    url.append(&mut path);
    let mut body = body_prefix_bytes();
    let mut digits = crate::ports::format_port(port);
    body.append(&mut digits);
    body.push(125);
    assert(body@ =~= request_body(port as nat));
    NotificationRequest { url, body }
}

/// The notifier's validity check and request construction. A non-positive value is
/// skipped without a network call — the single validity check of the whole
/// pipeline; a positive value yields exactly the request that encodes it.
pub fn notify_decision(base_url: &Vec<u8>, port: u32) -> (decision: NotifyDecision)
    ensures
        (decision is Skip <==> port == 0),
        (decision matches NotifyDecision::Post(request) ==> port > 0 && request.url@
            == request_url(base_url@) && request.body@ == request_body(port as nat)),
{
    if port == 0 {
        NotifyDecision::Skip
    } else {
        NotifyDecision::Post(build_request(base_url, port))
    }
}

/// Records how a performed send ended: `Sent` on success, `Failed` on any
/// transport error. Failure is logged and forgotten by the caller; it never
/// stops the pipeline.
pub fn send_outcome(succeeded: bool) -> (outcome: NotifyOutcome)
    ensures
        outcome == (if succeeded {
            NotifyOutcome::Sent
        } else {
            NotifyOutcome::Failed
        }),
{
    if succeeded {
        NotifyOutcome::Sent
    } else {
        NotifyOutcome::Failed
    }
}

} // verus!
