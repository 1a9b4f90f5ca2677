//! Request identifiers and the dedup set.
//!
//! A request id is a number or a string.  The bridge records the ids it has
//! answered itself, and the inbound path drops any runtime message that
//! carries a recorded id, so the client never sees a second response.

use vstd::prelude::*;

use crate::textutil::{dec_chars, u64_to_string};

verus! {

use vstd::string::StringExecFns;

/// A request id: a 64-bit number or a string, as the wire protocol allows.
#[derive(Debug, Hash, Eq)]
pub enum RequestId {
    Number(i64),
    String(String),
}

/// The mathematical value of a request id.
pub enum IdView {
    Num(i64),
    Str(Seq<char>),
}

impl View for RequestId {
    type V = IdView;

    open spec fn view(&self) -> IdView {
        match self {
            RequestId::Number(n) => IdView::Num(*n),
            RequestId::String(s) => IdView::Str(s@),
        }
    }
}

impl PartialEq for RequestId {
    fn eq(&self, other: &Self) -> bool {
        match (self, other) {
            (RequestId::Number(a), RequestId::Number(b)) => a == b,
            (RequestId::String(a), RequestId::String(b)) => a.eq(b),
            _ => false,
        }
    }
}

impl vstd::std_specs::cmp::PartialEqSpecImpl for RequestId {
    open spec fn obeys_eq_spec() -> bool {
        true
    }

    open spec fn eq_spec(&self, other: &Self) -> bool {
        self@ == other@
    }
}

impl Clone for RequestId {
    /// A clone carries the same value.
    fn clone(&self) -> (r: Self)
        ensures
            r@ == self@,
    {
        match self {
            RequestId::Number(n) => RequestId::Number(*n),
            RequestId::String(s) => RequestId::String(s.clone()),
        }
    }
}

/// The decimal digits of an id, quoted when it is a string.
pub open spec fn spec_display_id(v: IdView) -> Seq<char> {
    match v {
        IdView::Num(n) => if n >= 0 {
            dec_chars(n as nat)
        } else {
            seq!['-'] + dec_chars((-n) as nat)
        },
        IdView::Str(s) => seq!['"'] + s + seq!['"'],
    }
}

impl RequestId {
    /// Extract a request id from a decoded JSON value.
    ///
    /// Relies on `serde_json`: `Value::Number` with `Number::as_i64` for an
    /// integer id, `Value::String` for a string id; any other value carries
    /// no id.
    #[verifier::external_body]
    pub fn from_json(value: &serde_json::Value) -> Option<RequestId> {
        match value {
            serde_json::Value::Number(n) => n.as_i64().map(RequestId::Number),
            serde_json::Value::String(s) => Some(RequestId::String(s.clone())),
            _ => None,
        }
    }

    /// Render the id for log lines: the number's digits, or the string in
    /// quotes.
    pub fn display_string(&self) -> (r: String)
        ensures
            r@ == spec_display_id(self@),
    {
        proof {
            reveal_strlit("-");
            reveal_strlit("\"");
        }
        match self {
            RequestId::Number(n) => {
                let n = *n;
                if n >= 0 {
                    let r = u64_to_string(n as u64);
                    proof {
                        assert(r@ =~= spec_display_id(self@));
                    }
                    r
                } else {
                    let m: u64 = (-(n as i128)) as u64;
                    let mut r = String::from_str("-");
                    let digits = u64_to_string(m);
                    r.append(digits.as_str());
                    proof {
                        assert(r@ =~= spec_display_id(self@));
                    }
                    r
                }
            },
            RequestId::String(s) => {
                let mut r = String::from_str("\"");
                r.append(s.as_str());
                r.append("\"");
                proof {
                    assert(r@ =~= spec_display_id(self@));
                }
                r
            },
        }
    }
}

/// The set of request ids the bridge has already answered itself.
/// Append-only for the lifetime of a session.
pub struct DedupSet {
    ids: Vec<RequestId>,
}

impl DedupSet {
    /// The recorded ids, in recording order.
    pub closed spec fn spec_ids(self) -> Seq<IdView> {
        Seq::new(self.ids@.len(), |i: int| self.ids@[i]@)
    }

    /// Whether `id` has been recorded.
    pub open spec fn spec_contains(self, id: IdView) -> bool {
        self.spec_ids().contains(id)
    }

    /// An empty dedup set.
    pub fn new() -> (r: Self)
        ensures
            r.spec_ids() == Seq::<IdView>::empty(),
    {
        let r = DedupSet { ids: Vec::new() };
        proof {
            assert(r.spec_ids() =~= Seq::<IdView>::empty());
        }
        r
    }

    /// Record `id` as answered.  Recording never removes anything.
    pub fn insert(&mut self, id: RequestId)
        ensures
            final(self).spec_ids() == old(self).spec_ids().push(id@),
    {
        let ghost pre = self.spec_ids();
        self.ids.push(id);
        proof {
            assert(self.spec_ids() =~= pre.push(id@));
        }
    }

    /// Whether `id` has been recorded, by direct comparison.
    pub fn contains(&self, id: &RequestId) -> (r: bool)
        ensures
            r == self.spec_contains(id@),
    {
        let n = self.ids.len();
        let mut i: usize = 0;
        while i < n
            invariant
                n == self.ids@.len(),
                0 <= i <= n,
                forall|j: int| 0 <= j < i ==> self.spec_ids()[j] != id@,
            decreases n - i,
        {
            if &self.ids[i] == id {
                proof {
                    assert(self.spec_ids()[i as int] == id@);
                }
                return true;
            }
            i = i + 1;
        }
        proof {
            if self.spec_contains(id@) {
                let j = choose|j: int|
                    0 <= j < self.spec_ids().len() && self.spec_ids()[j] == id@;
                assert(self.spec_ids()[j] != id@);
            }
        }
        false
    }
}

/// Whether an inbound message must be dropped before it reaches the client:
/// exactly when it carries an id the bridge has already answered.
pub fn should_suppress_response(id: &Option<RequestId>, answered: &DedupSet) -> (r: bool)
    ensures
        r == match id {
            Some(rid) => answered.spec_contains(rid@),
            None => false,
        },
{
    match id {
        Some(rid) => answered.contains(rid),
        None => false,
    }
}

/// Dedup correctness: the set is append-only, so once an id is recorded,
/// it is still recorded after any sequence of later recordings — and by
/// [`should_suppress_response`]'s contract every later message carrying it
/// is suppressed, whatever else has happened in between.
pub proof fn lemma_dedup_append_only(ids: Seq<IdView>, later: Seq<IdView>, id: IdView)
    requires
        ids.contains(id),
    ensures
        (ids + later).contains(id),
{
    let j = choose|j: int| 0 <= j < ids.len() && ids[j] == id;
    assert((ids + later)[j] == id);
}

} // verus!
