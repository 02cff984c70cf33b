//! The multi-frame authentication wire protocol: frames of a request are
//! parsed into its fields, and a response is laid out as frames.

use vstd::prelude::*;

verus! {

/// One part of a multi-part message: its bytes, and whether more parts of
/// the same message follow.
pub struct Frame {
    pub data: Vec<u8>,
    pub more: bool,
}

/// The bytes of each frame of `f`.
pub open spec fn data_of(f: Seq<Frame>) -> Seq<Seq<u8>> {
    f.map_values(|x: Frame| x.data@)
}

/// The bytes of each buffer of `v`.
pub open spec fn views(v: Seq<Vec<u8>>) -> Seq<Seq<u8>> {
    v.map_values(|x: Vec<u8>| x@)
}

/// Frame `i` is present and announces that more frames follow.
pub open spec fn continues(f: Seq<Frame>, i: int) -> bool {
    0 <= i < f.len() && f[i].more
}

/// From `i` on, the first position where the envelope phase stops: a frame
/// that is missing, ends the message, or is empty.
pub open spec fn envelope_stop(f: Seq<Frame>, i: int) -> int
    decreases f.len() - i,
{
    if continues(f, i) && f[i].data@.len() > 0 {
        envelope_stop(f, i + 1)
    } else {
        i
    }
}

/// From `i` on, the first position whose frame is missing or ends the
/// message.
pub open spec fn message_stop(f: Seq<Frame>, i: int) -> int
    decreases f.len() - i,
{
    if continues(f, i) {
        message_stop(f, i + 1)
    } else {
        i
    }
}

/// Position of the envelope's delimiter, where the envelope is complete.
pub open spec fn envelope_end(f: Seq<Frame>) -> int {
    envelope_stop(f, 0)
}

/// The envelope ends with an empty frame, and every frame up to it
/// announces more.
pub open spec fn has_envelope(f: Seq<Frame>) -> bool {
    continues(f, envelope_end(f))
}

/// The frames of the envelope, delimiter included.
pub open spec fn envelope_of(f: Seq<Frame>) -> Seq<Seq<u8>> {
    data_of(f.subrange(0, envelope_end(f) + 1))
}

/// Position of the first body frame (the version).
pub open spec fn body_start(f: Seq<Frame>) -> int {
    envelope_end(f) + 1
}

/// The envelope, the version and the request id are all present: a request
/// that ends early can still be answered.
pub open spec fn has_request_id(f: Seq<Frame>) -> bool {
    &&& has_envelope(f)
    &&& continues(f, body_start(f))
    &&& body_start(f) + 1 < f.len()
}

/// Every part that a request needs is present: the envelope, five body parts
/// that announce more, the mechanism, and the credentials up to the frame
/// that ends the message.
pub open spec fn body_complete(f: Seq<Frame>) -> bool {
    let b = body_start(f);
    &&& has_envelope(f)
    &&& forall|j: int| 0 <= j < 5 ==> #[trigger] continues(f, b + j)
    &&& b + 5 < f.len()
    &&& f[b + 5].more ==> message_stop(f, b + 6) < f.len()
}

/// The credential frames of a complete request.
pub open spec fn credentials_of(f: Seq<Frame>) -> Seq<Seq<u8>> {
    let b = body_start(f);
    if f[b + 5].more {
        data_of(f.subrange(b + 6, message_stop(f, b + 6) + 1))
    } else {
        Seq::empty()
    }
}

/// The fields of a connection-authorization request.
pub struct ZapRequest {
    /// The routing frames, the empty delimiter included; echoed back.
    pub envelope: Vec<Vec<u8>>,
    pub version: Vec<u8>,
    pub request_id: Vec<u8>,
    pub domain: Vec<u8>,
    pub address: Vec<u8>,
    pub identity: Vec<u8>,
    pub mechanism: Vec<u8>,
    pub credentials: Vec<Vec<u8>>,
}

impl ZapRequest {
    /// The request holds exactly the fields that the frames `f` carry.
    pub open spec fn read_from(&self, f: Seq<Frame>) -> bool {
        let b = body_start(f);
        &&& views(self.envelope@) == envelope_of(f)
        &&& self.version@ == f[b].data@
        &&& self.request_id@ == f[b + 1].data@
        &&& self.domain@ == f[b + 2].data@
        &&& self.address@ == f[b + 3].data@
        &&& self.identity@ == f[b + 4].data@
        &&& self.mechanism@ == f[b + 5].data@
        &&& views(self.credentials@) == credentials_of(f)
    }
}

/// What a message read off the channel amounts to.
pub enum Parsed {
    /// A request with every part present.
    Request(ZapRequest),
    /// The message ended after the request id but before the request was
    /// complete: it is answered with an error.
    Truncated { envelope: Vec<Vec<u8>>, request_id: Vec<u8> },
    /// The message ended before its request id: nothing can be answered.
    Unanswerable,
}

/// A copy of `v`.
pub fn copy_bytes(v: &Vec<u8>) -> (r: Vec<u8>)
    ensures
        r@ == v@,
{
    let r = v.clone();
    assert(r@ =~= v@);
    r
}


proof fn lemma_complete_has_id(f: Seq<Frame>)
    requires
        body_complete(f),
    ensures
        has_request_id(f),
{
    let b = body_start(f);
    assert(continues(f, b + 0));
}

/// Parses the frames of one message (as read off the channel, up to the
/// frame that ends it) into an authentication request.
///
/// The envelope is read up to its empty delimiter, each frame announcing
/// more; then come the version, request id, domain, address and identity,
/// each announcing more, the mechanism, and as credentials the frames that
/// follow it up to the one that ends the message.
pub fn parse_request(frames: &Vec<Frame>) -> (r: Parsed)
    ensures
        (r is Unanswerable) <==> !has_request_id(frames@),
        (r is Request) <==> body_complete(frames@),
        r matches Parsed::Truncated { envelope, request_id } ==> {
            &&& views(envelope@) == envelope_of(frames@)
            &&& request_id@ == frames@[body_start(frames@) + 1].data@
        },
        r matches Parsed::Request(q) ==> q.read_from(frames@),
{
    let ghost f = frames@;
    let n = frames.len();
    let mut envelope: Vec<Vec<u8>> = Vec::new();
    let mut i: usize = 0;
    let mut done = false;
    while !done
        invariant
            n == f.len(),
            f == frames@,
            i <= n,
            !done ==> envelope_stop(f, i as int) == envelope_end(f),
            done ==> i >= 1 && i - 1 == envelope_end(f) && continues(f, i - 1),
            envelope@.len() == i,
            forall|k: int| 0 <= k < i ==> (#[trigger] envelope@[k])@ == f[k].data@,
        decreases n - i,
    {
        if i >= n || !frames[i].more {
            return Parsed::Unanswerable;
        }
        let empty = frames[i].data.len() == 0;
        envelope.push(copy_bytes(&frames[i].data));
        i += 1;
        if empty {
            done = true;
        }
    }
    let b = i;
    assert(views(envelope@) =~= envelope_of(f));
    assert(has_envelope(f));
    assert(body_start(f) == b);
    if b >= n || !frames[b].more || b + 1 >= n {
        proof {
            if body_complete(f) {
                lemma_complete_has_id(f);
            }
        }
        return Parsed::Unanswerable;
    }
    let version = copy_bytes(&frames[b].data);
    let request_id = copy_bytes(&frames[b + 1].data);
    assert(has_request_id(f));
    if !frames[b + 1].more || b + 2 >= n || !frames[b + 2].more || b + 3 >= n || !frames[b
        + 3].more || b + 4 >= n || !frames[b + 4].more || b + 5 >= n {
        assert(!body_complete(f)) by {
            if body_complete(f) {
                assert(continues(f, b + 1));
                assert(continues(f, b + 2));
                assert(continues(f, b + 3));
                assert(continues(f, b + 4));
            }
        }
        return Parsed::Truncated { envelope, request_id };
    }
    assert forall|j: int| 0 <= j < 5 implies #[trigger] continues(f, b + j) by {
        assert(continues(f, b + 0));
        assert(continues(f, b + 1));
    }
    let domain = copy_bytes(&frames[b + 2].data);
    let address = copy_bytes(&frames[b + 3].data);
    let identity = copy_bytes(&frames[b + 4].data);
    let mechanism = copy_bytes(&frames[b + 5].data);
    let mut credentials: Vec<Vec<u8>> = Vec::new();
    if frames[b + 5].more {
        let start = b + 6;
        let mut j: usize = start;
        let mut ended = false;
        while !ended
            invariant
                n == f.len(),
                f == frames@,
                has_request_id(f),
                b == body_start(f),
                start == b + 6,
                forall|k: int| 0 <= k < 5 ==> #[trigger] continues(f, b + k),
                b + 5 < n,
                f[b + 5].more,
                views(envelope@) == envelope_of(f),
                request_id@ == f[b + 1].data@,
                start <= j <= n,
                !ended ==> message_stop(f, j as int) == message_stop(f, start as int),
                ended ==> j >= 1 && j - 1 == message_stop(f, start as int) && j - 1 < n,
                credentials@.len() == j - start,
                forall|k: int|
                    0 <= k < j - start ==> (#[trigger] credentials@[k])@ == f[start + k].data@,
            decreases n - j,
        {
            if j >= n {
                return Parsed::Truncated { envelope, request_id };
            }
            credentials.push(copy_bytes(&frames[j].data));
            if !frames[j].more {
                ended = true;
            }
            j += 1;
        }
        assert(views(credentials@) =~= credentials_of(f));
    } else {
        assert(views(credentials@) =~= credentials_of(f));
    }
    Parsed::Request(
        ZapRequest {
            envelope,
            version,
            request_id,
            domain,
            address,
            identity,
            mechanism,
            credentials,
        },
    )
}


/// Decimal digits of `n`, most significant first.
pub open spec fn decimal(n: nat) -> Seq<u8>
    decreases n,
{
    if n < 10 {
        seq![(48 + n) as u8]
    } else {
        decimal(n / 10).push((48 + n % 10) as u8)
    }
}

/// The decimal text of `n`.
pub fn decimal_text(n: u16) -> (r: Vec<u8>)
    ensures
        r@ == decimal(n as nat),
    decreases n,
{
    if n < 10 {
        let mut r: Vec<u8> = Vec::new();
        r.push(48 + n as u8);
        assert(r@ =~= decimal(n as nat));
        r
    } else {
        let mut r = decimal_text(n / 10);
        r.push(48 + (n % 10) as u8);
        r
    }
}

/// The protocol version that requests must carry and responses carry.
pub open spec fn version_tag() -> Seq<u8> {
    seq![49u8, 46u8, 48u8]
}

/// The answer to one request.
pub struct ZapResponse {
    /// The request's envelope, delimiter included.
    pub envelope: Vec<Vec<u8>>,
    pub request_id: Vec<u8>,
    pub status_code: u16,
    pub status_text: Vec<u8>,
    pub user_id: Vec<u8>,
}

/// The fields of a response, as bytes.
pub struct ResponseView {
    pub envelope: Seq<Seq<u8>>,
    pub request_id: Seq<u8>,
    pub status_code: u16,
    pub status_text: Seq<u8>,
    pub user_id: Seq<u8>,
}

impl View for ZapResponse {
    type V = ResponseView;

    open spec fn view(&self) -> ResponseView {
        ResponseView {
            envelope: views(self.envelope@),
            request_id: self.request_id@,
            status_code: self.status_code,
            status_text: self.status_text@,
            user_id: self.user_id@,
        }
    }
}

/// The frames that carry the response `r`: every envelope frame, the
/// version, request id, status code in decimal, status text and user id,
/// all announcing more, then an empty frame that ends the message.
pub open spec fn response_layout(r: ResponseView) -> Seq<(Seq<u8>, bool)> {
    r.envelope.map_values(|e: Seq<u8>| (e, true)) + seq![
        (version_tag(), true),
        (r.request_id, true),
        (decimal(r.status_code as nat), true),
        (r.status_text, true),
        (r.user_id, true),
        (Seq::<u8>::empty(), false),
    ]
}

/// The bytes and flag of each frame.
pub open spec fn frame_views(f: Seq<Frame>) -> Seq<(Seq<u8>, bool)> {
    f.map_values(|x: Frame| (x.data@, x.more))
}

/// Lays out a response as the frames to send.
pub fn response_frames(resp: ZapResponse) -> (r: Vec<Frame>)
    ensures
        frame_views(r@) == response_layout(resp@),
{
    let ghost spec_resp = resp;
    let ZapResponse { envelope, request_id, status_code, status_text, user_id } = resp;
    let mut out: Vec<Frame> = Vec::new();
    let mut i: usize = 0;
    while i < envelope.len()
        invariant
            i <= envelope@.len(),
            envelope == spec_resp.envelope,
            out@.len() == i,
            forall|k: int|
                0 <= k < i ==> (#[trigger] out@[k]).data@ == envelope@[k]@ && out@[k].more,
        decreases envelope@.len() - i,
    {
        out.push(Frame { data: copy_bytes(&envelope[i]), more: true });
        i += 1;
    }
    let mut version: Vec<u8> = Vec::new();
    version.push(49);
    version.push(46);
    version.push(48);
    assert(version@ =~= version_tag());
    out.push(Frame { data: version, more: true });
    out.push(Frame { data: request_id, more: true });
    out.push(Frame { data: decimal_text(status_code), more: true });
    out.push(Frame { data: status_text, more: true });
    out.push(Frame { data: user_id, more: true });
    out.push(Frame { data: Vec::new(), more: false });
    assert(frame_views(out@) =~= response_layout(spec_resp@));
    out
}

} // verus!
