//! The ingress server's decision core.
//!
//! The surrounding application owns the listening socket and the
//! websocket streams; this module owns every decision: which
//! connection is the active outbound writer, what an inbound frame
//! contributes to the bus, and whether a piece of text is JSON at
//! all. Accepting a connection replaces the retained outbound handle;
//! closing clears it; pushes while none is active go nowhere.

use vstd::prelude::*;

verus! {

/// An ASCII whitespace byte, as the ingress trims it.
pub open spec fn is_ws(c: u8) -> bool {
    c == 32 || c == 9 || c == 10 || c == 13
}

/// The first position at or after `i` holding a non-whitespace byte.
pub open spec fn lead_ws(s: Seq<u8>, i: int) -> int
    decreases s.len() - i,
    when 0 <= i <= s.len()
{
    if i < s.len() && is_ws(s[i]) {
        lead_ws(s, i + 1)
    } else {
        i
    }
}

/// The position just past the last non-whitespace byte before `j`.
pub open spec fn tail_ws(s: Seq<u8>, j: int) -> int
    decreases j,
    when 0 <= j <= s.len()
{
    if j > 0 && is_ws(s[j - 1]) {
        tail_ws(s, j - 1)
    } else {
        j
    }
}

/// A payload with surrounding whitespace removed.
pub open spec fn spec_trim(s: Seq<u8>) -> Seq<u8> {
    let a = lead_ws(s, 0);
    let b = tail_ws(s, s.len() as int);
    if a < b {
        s.subrange(a, b)
    } else {
        Seq::empty()
    }
}

/// One inbound frame as the decision core sees it: text to forward,
/// or anything else, which is ignored.
pub enum Frame {
    Text(Vec<u8>),
    Other,
}

/// `lead_ws` and `tail_ws` stay within the payload.
proof fn lemma_ws_bounds(s: Seq<u8>, i: int, j: int)
    requires
        0 <= i <= s.len(),
        0 <= j <= s.len(),
    ensures
        i <= lead_ws(s, i) <= s.len(),
        0 <= tail_ws(s, j) <= j,
    decreases s.len() - i + j,
{
    if i < s.len() && is_ws(s[i]) {
        lemma_ws_bounds(s, i + 1, j);
    }
    if j > 0 && is_ws(s[j - 1]) {
        lemma_ws_bounds(s, i, j - 1);
    }
}

/// Remove surrounding ASCII whitespace.
pub fn trim_bytes(s: &Vec<u8>) -> (r: Vec<u8>)
    ensures
        r@ == spec_trim(s@),
{
    proof {
        lemma_ws_bounds(s@, 0, s@.len() as int);
    }
    let n = s.len();
    let mut a: usize = 0;
    while a < n && (s[a] == 32 || s[a] == 9 || s[a] == 10 || s[a] == 13)
        invariant
            0 <= a <= n,
            n == s@.len(),
            lead_ws(s@, 0) == lead_ws(s@, a as int),
        decreases n - a,
    {
        a = a + 1;
    }
    let mut b: usize = n;
    while b > 0 && (s[b - 1] == 32 || s[b - 1] == 9 || s[b - 1] == 10 || s[b - 1] == 13)
        invariant
            0 <= b <= n,
            n == s@.len(),
            tail_ws(s@, n as int) == tail_ws(s@, b as int),
        decreases b,
    {
        b = b - 1;
    }
    let mut r: Vec<u8> = Vec::new();
    if a >= b {
        proof {
            assert(r@ =~= spec_trim(s@));
        }
        return r;
    }
    let mut k = a;
    while k < b
        invariant
            a <= k <= b <= n,
            n == s@.len(),
            r@ == s@.subrange(a as int, k as int),
        decreases b - k,
    {
        r.push(s[k]);
        proof {
            assert(r@ =~= s@.subrange(a as int, k as int + 1));
        }
        k = k + 1;
    }
    proof {
        assert(r@ == spec_trim(s@));
    }
    r
}

/// What one inbound frame hands to the bus: trimmed text, or nothing
/// for a non-text frame.
pub fn ingress_payload(f: &Frame) -> (r: Option<Vec<u8>>)
    ensures
        (match *f {
            Frame::Text(t) => r is Some && r.unwrap()@ == spec_trim(t@),
            Frame::Other => r is None,
        }),
{
    match f {
        Frame::Text(t) => Some(trim_bytes(t)),
        Frame::Other => None,
    }
}

/// The single-active-writer state of the ingress server.
pub struct ServerCore {
    next_conn: u64,
    active: Option<u64>,
}

impl ServerCore {
    /// Which connection, if any, outbound pushes currently reach.
    pub closed spec fn active_conn(&self) -> Option<u64> {
        self.active
    }

    /// The id the next accepted connection will get.
    pub closed spec fn conn_counter(&self) -> u64 {
        self.next_conn
    }

    /// The active connection, when present, was issued earlier.
    pub open spec fn wf(&self) -> bool {
        match self.active_conn() {
            Some(id) => id < self.conn_counter(),
            None => true,
        }
    }

    /// A server with no active connection.
    pub fn new() -> (s: ServerCore)
        ensures
            s.active_conn() is None,
            s.conn_counter() == 0,
            s.wf(),
    {
        ServerCore { next_conn: 0, active: None }
    }

    /// Accept a connection: it becomes the one active outbound
    /// writer, replacing any previously retained one.
    pub fn on_accept(&mut self) -> (id: u64)
        requires
            old(self).wf(),
            old(self).conn_counter() < u64::MAX,
        ensures
            final(self).wf(),
            id == old(self).conn_counter(),
            final(self).conn_counter() == id + 1,
            final(self).active_conn() == Some(id),
    {
        let id = self.next_conn;
        self.next_conn = id + 1;
        self.active = Some(id);
        id
    }

    /// The active connection closed (end of its read loop, for any
    /// reason): outbound pushes go nowhere until the next accept.
    pub fn on_close(&mut self)
        ensures
            final(self).wf(),
            final(self).active_conn() is None,
            final(self).conn_counter() == old(self).conn_counter(),
    {
        self.active = None;
    }

    /// How many connection ids have been issued, so a caller can test
    /// the accept precondition before asking for another.
    pub fn connections_issued(&self) -> (n: u64)
        ensures
            n == self.conn_counter(),
    {
        self.next_conn
    }

    /// Where an outbound push goes: the active connection, or nowhere.
    pub fn outbound_target(&self) -> (r: Option<u64>)
        ensures
            r == self.active_conn(),
    {
        self.active
    }
}

/// Single-active-writer: once a second connection has been accepted,
/// an outbound push targets only it; the earlier connection can never
/// receive anything again, because ids are never reissued.
pub proof fn lemma_single_active_writer(s1: ServerCore, s2: ServerCore, a: u64, b: u64)
    requires
        s1.wf(),
        s1.active_conn() == Some(a),
        b == s1.conn_counter(),
        s2.active_conn() == Some(b),
    ensures
        s2.active_conn() == Some(b),
        a != b,
{
}

/// One text payload is well-formed JSON: what `serde_json` accepts.
pub uninterp spec fn json_wellformed(s: Seq<char>) -> bool;

/// Relies on serde_json::from_str::<Value>: whether it succeeds
/// depends on the text alone.
#[verifier::external_body]
pub fn is_json(s: &str) -> (r: bool)
    ensures
        r == json_wellformed(s@),
{
    serde_json::from_str::<serde_json::Value>(s).is_ok()
}

} // verus!
