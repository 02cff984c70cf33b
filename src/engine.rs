//! The decisions of the authentication loop: a request is validated, its key
//! encoded and authorized under its domain's policy, and answered.

use vstd::prelude::*;
use vstd::string::StringSliceAdditionalSpecFns;
use crate::frames::{
    Frame, Parsed, ZapRequest, ZapResponse, ResponseView, parse_request, views, has_request_id,
    body_complete, body_start, envelope_of, credentials_of, copy_bytes,
};
use crate::policy::{
    Policy, ServiceReply, policy_of, policy_for, occurs_in, allow_list_holds, reply_grants,
    entitled,
};
use crate::z85::{z85_text, encode_key};

verus! {

/// Why a well-formed request is turned down before authorization.
#[derive(PartialEq, Eq, Structural, Clone, Copy, Debug)]
pub enum Rejection {
    /// The version is not "1.0".
    UnsupportedVersion,
    /// The mechanism is not "CURVE", or there is not exactly one credential.
    UnsupportedMechanism,
    /// The one credential is not 32 bytes long.
    WrongKeyLength,
}

/// "CURVE", the one mechanism supported.
pub open spec fn curve() -> Seq<u8> {
    seq![67u8, 85u8, 82u8, 86u8, 69u8]
}

/// The checks on a request, in order: version, then mechanism and credential
/// count, then key length. On success, the raw key.
pub open spec fn check(version: Seq<u8>, mechanism: Seq<u8>, credentials: Seq<Seq<u8>>) -> Result<
    Seq<u8>,
    Rejection,
> {
    if version != crate::frames::version_tag() {
        Err(Rejection::UnsupportedVersion)
    } else if mechanism != curve() || credentials.len() != 1 {
        Err(Rejection::UnsupportedMechanism)
    } else if credentials[0].len() != 32 {
        Err(Rejection::WrongKeyLength)
    } else {
        Ok(credentials[0])
    }
}

/// The checks on a parsed request.
pub open spec fn check_request(q: ZapRequest) -> Result<Seq<u8>, Rejection> {
    check(q.version@, q.mechanism@, views(q.credentials@))
}

/// Checks a request's version, mechanism and credential; returns its raw key.
pub fn validate(req: &ZapRequest) -> (r: Result<Vec<u8>, Rejection>)
    ensures
        (r is Ok) <==> (check_request(*req) is Ok),
        r matches Ok(k) ==> (check_request(*req) matches Ok(s) && k@ == s),
        r matches Err(e) ==> check_request(*req) == Err::<Seq<u8>, Rejection>(e),
{
    let version: [u8; 3] = [49, 46, 48];
    assert(version@ =~= crate::frames::version_tag());
    if !crate::policy::same_bytes(&req.version, &version) {
        return Err(Rejection::UnsupportedVersion);
    }
    let mechanism: [u8; 5] = [67, 85, 82, 86, 69];
    assert(mechanism@ =~= curve());
    if !crate::policy::same_bytes(&req.mechanism, &mechanism) || req.credentials.len() != 1 {
        return Err(Rejection::UnsupportedMechanism);
    }
    assert(views(req.credentials@)[0] == req.credentials@[0]@);
    if req.credentials[0].len() != 32 {
        return Err(Rejection::WrongKeyLength);
    }
    Ok(copy_bytes(&req.credentials[0]))
}

/// The bytes of `s`.
pub fn text_bytes(s: &str) -> (r: Vec<u8>)
    ensures
        r@ == s.spec_bytes(),
{
    vstd::slice::slice_to_vec(s.as_bytes())
}

/// The status text of a rejection.
pub open spec fn rejection_text(e: Rejection) -> Seq<u8> {
    match e {
        Rejection::UnsupportedVersion => "unsupported version".spec_bytes(),
        Rejection::UnsupportedMechanism => "unsupported mechanism".spec_bytes(),
        Rejection::WrongKeyLength => "wrong key length".spec_bytes(),
    }
}

/// The status text of an answer to a request that ended early.
pub open spec fn incomplete_text() -> Seq<u8> {
    "incomplete request".spec_bytes()
}

/// A response to the request with this envelope and id.
pub open spec fn answer(
    envelope: Seq<Seq<u8>>,
    request_id: Seq<u8>,
    status_code: u16,
    status_text: Seq<u8>,
    user_id: Seq<u8>,
) -> ResponseView {
    ResponseView { envelope, request_id, status_code, status_text, user_id }
}

/// The answer to an authorization verdict on the key whose text is
/// `key_text`: 200 "OK" with the key text as user id, or 400 "Unknown Key"
/// with an empty user id.
pub open spec fn verdict(
    envelope: Seq<Seq<u8>>,
    request_id: Seq<u8>,
    key_text: Seq<u8>,
    allowed: bool,
) -> ResponseView {
    if allowed {
        answer(envelope, request_id, 200, "OK".spec_bytes(), key_text)
    } else {
        answer(envelope, request_id, 400, "Unknown Key".spec_bytes(), Seq::empty())
    }
}

/// A request that waits for the entitlement service's answer.
pub struct Pending {
    pub envelope: Vec<Vec<u8>>,
    pub request_id: Vec<u8>,
    /// The Z85 text of the peer's key.
    pub key_text: Vec<u8>,
}

pub struct PendingView {
    pub envelope: Seq<Seq<u8>>,
    pub request_id: Seq<u8>,
    pub key_text: Seq<u8>,
}

impl View for Pending {
    type V = PendingView;

    open spec fn view(&self) -> PendingView {
        PendingView {
            envelope: views(self.envelope@),
            request_id: self.request_id@,
            key_text: self.key_text@,
        }
    }
}

/// What to do with one message.
pub enum Step {
    /// Send this response.
    Respond(ZapResponse),
    /// Ask the entitlement service, then answer with `conclude`.
    Consult(Pending),
    /// Nothing can be answered.
    Ignore,
}

pub enum StepView {
    Respond(ResponseView),
    Consult(PendingView),
    Ignore,
}

impl View for Step {
    type V = StepView;

    open spec fn view(&self) -> StepView {
        match self {
            Step::Respond(r) => StepView::Respond(r@),
            Step::Consult(p) => StepView::Consult(p@),
            Step::Ignore => StepView::Ignore,
        }
    }
}

/// The configuration the decisions read: the service name that the
/// entitlement service must report, and the allow-list of encoded keys of
/// the other domains.
pub struct AuthConfig {
    pub required_service_name: String,
    pub allow_list: Vec<u8>,
}

/// What is to be done with the message made of the frames `f`.
pub open spec fn decide(allow_list: Seq<u8>, f: Seq<Frame>) -> StepView {
    let b = body_start(f);
    let envelope = envelope_of(f);
    let request_id = f[b + 1].data@;
    if !has_request_id(f) {
        StepView::Ignore
    } else if !body_complete(f) {
        StepView::Respond(answer(envelope, request_id, 500, incomplete_text(), Seq::empty()))
    } else {
        match check(f[b].data@, f[b + 5].data@, credentials_of(f)) {
            Err(e) => StepView::Respond(
                answer(envelope, request_id, 500, rejection_text(e), Seq::empty()),
            ),
            Ok(key) => {
                let key_text = z85_text(key);
                if policy_of(f[b + 2].data@) == Policy::ExternalEntitlement {
                    StepView::Consult(PendingView { envelope, request_id, key_text })
                } else {
                    StepView::Respond(
                        verdict(envelope, request_id, key_text, occurs_in(allow_list, key_text)),
                    )
                }
            },
        }
    }
}

/// Decides what to do with one message read off the channel.
pub fn handle_message(config: &AuthConfig, frames: &Vec<Frame>) -> (r: Step)
    ensures
        r@ == decide(config.allow_list@, frames@),
{
    match parse_request(frames) {
        Parsed::Unanswerable => Step::Ignore,
        Parsed::Truncated { envelope, request_id } => {
            let resp = ZapResponse {
                envelope,
                request_id,
                status_code: 500,
                status_text: text_bytes("incomplete request"),
                user_id: Vec::new(),
            };
            assert(resp@.user_id =~= Seq::<u8>::empty());
            Step::Respond(resp)
        },
        Parsed::Request(req) => {
            proof {
                assert(has_request_id(frames@)) by {
                    let b = body_start(frames@);
                    assert(crate::frames::continues(frames@, b + 0));
                }
            }
            match validate(&req) {
                Err(e) => {
                    let text = match e {
                        Rejection::UnsupportedVersion => text_bytes("unsupported version"),
                        Rejection::UnsupportedMechanism => text_bytes("unsupported mechanism"),
                        Rejection::WrongKeyLength => text_bytes("wrong key length"),
                    };
                    let resp = ZapResponse {
                        envelope: req.envelope,
                        request_id: req.request_id,
                        status_code: 500,
                        status_text: text,
                        user_id: Vec::new(),
                    };
                    assert(resp@.user_id =~= Seq::<u8>::empty());
                    Step::Respond(resp)
                },
                Ok(key) => {
                    let key_text = encode_key(&key);
                    match policy_for(&req.domain) {
                        Policy::ExternalEntitlement => Step::Consult(
                            Pending { envelope: req.envelope, request_id: req.request_id, key_text },
                        ),
                        Policy::StaticAllowList => {
                            let allowed = allow_list_holds(&config.allow_list, &key_text);
                            let pending = Pending {
                                envelope: req.envelope,
                                request_id: req.request_id,
                                key_text,
                            };
                            Step::Respond(answer_verdict(pending, allowed))
                        },
                    }
                },
            }
        },
    }
}

/// The answer to a pending request once its verdict is known.
pub fn answer_verdict(pending: Pending, allowed: bool) -> (r: ZapResponse)
    ensures
        r@ == verdict(pending@.envelope, pending@.request_id, pending@.key_text, allowed),
{
    let Pending { envelope, request_id, key_text } = pending;
    if allowed {
        ZapResponse { envelope, request_id, status_code: 200, status_text: text_bytes("OK"), user_id: key_text }
    } else {
        let r = ZapResponse {
            envelope,
            request_id,
            status_code: 400,
            status_text: text_bytes("Unknown Key"),
            user_id: Vec::new(),
        };
        assert(r@.user_id =~= Seq::<u8>::empty());
        r
    }
}

/// Answers a pending request from the entitlement service's reply.
pub fn conclude(pending: Pending, config: &AuthConfig, reply: &ServiceReply) -> (r: ZapResponse)
    ensures
        r@ == verdict(
            pending@.envelope,
            pending@.request_id,
            pending@.key_text,
            reply_grants(*reply, config.required_service_name@),
        ),
{
    let allowed = entitled(reply, config.required_service_name.as_str());
    answer_verdict(pending, allowed)
}


/// A complete request whose version is not "1.0" is answered with status
/// 500, "unsupported version", whatever its other fields hold.
pub proof fn lemma_wrong_version_rejected(allow_list: Seq<u8>, f: Seq<Frame>)
    requires
        body_complete(f),
        f[body_start(f)].data@ != crate::frames::version_tag(),
    ensures
        decide(allow_list, f) matches StepView::Respond(r) && r.status_code == 500
            && r.status_text == rejection_text(Rejection::UnsupportedVersion),
{
    lemma_complete_answerable(f);
}

/// A complete request whose mechanism is not "CURVE", or that does not carry
/// exactly one credential, is answered with status 500.
pub proof fn lemma_wrong_mechanism_rejected(allow_list: Seq<u8>, f: Seq<Frame>)
    requires
        body_complete(f),
        f[body_start(f) + 5].data@ != curve() || credentials_of(f).len() != 1,
    ensures
        decide(allow_list, f) matches StepView::Respond(r) && r.status_code == 500,
{
    lemma_complete_answerable(f);
}

/// A complete request with exactly one credential that is not 32 bytes long
/// is answered with status 500, whatever the credential's bytes.
pub proof fn lemma_wrong_key_length_rejected(allow_list: Seq<u8>, f: Seq<Frame>)
    requires
        body_complete(f),
        credentials_of(f).len() == 1,
        credentials_of(f)[0].len() != 32,
    ensures
        decide(allow_list, f) matches StepView::Respond(r) && r.status_code == 500,
{
    lemma_complete_answerable(f);
}

proof fn lemma_complete_answerable(f: Seq<Frame>)
    requires
        body_complete(f),
    ensures
        has_request_id(f),
{
    let b = body_start(f);
    assert(crate::frames::continues(f, b + 0));
}

} // verus!
