//! The authorization policies of the two trust domains: an external
//! entitlement service for the public-facing domain, and a static allow-list
//! of encoded keys for every other domain.

use vstd::prelude::*;

verus! {

/// What `str::to_lowercase` returns for `s`.
pub uninterp spec fn lower_of(s: Seq<char>) -> Seq<char>;

/// Relies on str::to_lowercase: the result depends on the characters alone,
/// and the empty string stays empty.
#[verifier::external_body]
fn lowercase(s: &str) -> (r: String)
    ensures
        r@ == lower_of(s@),
        s@.len() == 0 ==> r@.len() == 0,
{
    s.to_lowercase()
}

/// The name of the domain whose handshakes the entitlement service decides:
/// "frontend".
pub open spec fn frontend_domain() -> Seq<u8> {
    seq![102u8, 114u8, 111u8, 110u8, 116u8, 101u8, 110u8, 100u8]
}

/// How the handshakes of one domain are authorized.
#[derive(PartialEq, Eq, Structural, Clone, Copy, Debug)]
pub enum Policy {
    /// Ask the external entitlement service.
    ExternalEntitlement,
    /// Look the key up in the configured allow-list.
    StaticAllowList,
}

/// The policy that governs the domain `domain`.
pub open spec fn policy_of(domain: Seq<u8>) -> Policy {
    if domain == frontend_domain() {
        Policy::ExternalEntitlement
    } else {
        Policy::StaticAllowList
    }
}

/// Whether `a` and `b` hold the same bytes.
pub fn same_bytes(a: &[u8], b: &[u8]) -> (r: bool)
    ensures
        r == (a@ == b@),
{
    if a.len() != b.len() {
        return false;
    }
    let mut i: usize = 0;
    while i < a.len()
        invariant
            i <= a@.len(),
            a@.len() == b@.len(),
            forall|k: int| 0 <= k < i ==> a@[k] == b@[k],
        decreases a@.len() - i,
    {
        if a[i] != b[i] {
            return false;
        }
        i += 1;
    }
    assert(a@ =~= b@);
    true
}

/// Selects the policy of a domain.
pub fn policy_for(domain: &[u8]) -> (r: Policy)
    ensures
        r == policy_of(domain@),
{
    let frontend: [u8; 8] = [102, 114, 111, 110, 116, 101, 110, 100];
    assert(frontend@ =~= frontend_domain());
    if same_bytes(domain, &frontend) {
        Policy::ExternalEntitlement
    } else {
        Policy::StaticAllowList
    }
}

/// `needle` stands in `hay` at position `i`.
pub open spec fn occurs_at(hay: Seq<u8>, needle: Seq<u8>, i: int) -> bool {
    0 <= i && i + needle.len() <= hay.len() && hay.subrange(i, i + needle.len()) == needle
}

/// `needle` stands somewhere in `hay`.
pub open spec fn occurs_in(hay: Seq<u8>, needle: Seq<u8>) -> bool {
    exists|i: int| occurs_at(hay, needle, i)
}

/// Whether the allow-list `list` holds the encoded key `key` (as a part of
/// its text).
pub fn allow_list_holds(list: &[u8], key: &[u8]) -> (r: bool)
    ensures
        r == occurs_in(list@, key@),
{
    if key.len() > list.len() {
        return false;
    }
    let n = list.len();
    let last = n - key.len();
    let mut i: usize = 0;
    while i <= last
        invariant
            n == list@.len(),
            last == list@.len() - key@.len(),
            i <= last + 1,
            forall|p: int| 0 <= p < i ==> !occurs_at(list@, key@, p),
        decreases last + 1 - i,
    {
        let mut k: usize = 0;
        let mut same = true;
        while same && k < key.len()
            invariant
                n == list@.len(),
                last == list@.len() - key@.len(),
                i <= last,
                k <= key@.len(),
                forall|q: int| 0 <= q < k ==> list@[i + q] == key@[q],
                !same ==> k < key@.len() && list@[i + k] != key@[k as int],
            decreases key@.len() - k + (if same { 1int } else { 0int }),
        {
            if list[i + k] != key[k] {
                same = false;
            } else {
                k += 1;
            }
        }
        if same {
            assert(list@.subrange(i as int, i + key@.len()) =~= key@);
            assert(occurs_at(list@, key@, i as int));
            return true;
        }
        assert(!occurs_at(list@, key@, i as int)) by {
            if occurs_at(list@, key@, i as int) {
                assert(list@.subrange(i as int, i + key@.len())[k as int] == key@[k as int]);
            }
        }
        i += 1;
    }
    false
}

/// The entitlement service's answer about one key: the `active` flag and
/// the `service_name` text, each where the answer holds it with its type.
pub struct ServiceReply {
    pub active: Option<bool>,
    pub service_name: Option<String>,
}

/// The service name of a reply, empty where it holds none.
pub open spec fn name_of(reply: ServiceReply) -> Seq<char> {
    match reply.service_name {
        Some(s) => s@,
        None => Seq::empty(),
    }
}

/// A reply grants access: it says `active: true` and names the required
/// service, letter case aside.
pub open spec fn reply_grants(reply: ServiceReply, required: Seq<char>) -> bool {
    reply.active == Some(true) && lower_of(name_of(reply)) == lower_of(required)
}

/// Access is granted where the key is active and the lowercased service
/// name equals the lowercased required name.
pub fn grants(active: bool, folded_name: &String, folded_required: &String) -> (r: bool)
    ensures
        r == (active && folded_name@ == folded_required@),
{
    active && *folded_name == *folded_required
}

/// Whether the entitlement service's reply grants access to the service
/// named `required`.
pub fn entitled(reply: &ServiceReply, required: &str) -> (r: bool)
    ensures
        r == reply_grants(*reply, required@),
{
    let active = match reply.active {
        Some(a) => a,
        None => false,
    };
    let folded_name = match &reply.service_name {
        Some(s) => lowercase(s.as_str()),
        None => lowercase(""),
    };
    let folded_required = lowercase(required);
    proof {
        reveal_strlit("");
        assert(""@ =~= Seq::<char>::empty());
    }
    grants(active, &folded_name, &folded_required)
}

} // verus!
