//! The event record: an immutable frame of the append-only log.

use vstd::prelude::*;

verus! {

/// serde_json's structured value, carried opaquely as frame metadata.
#[verifier::external_type_specification]
#[verifier::external_body]
pub struct ExValue(serde_json::Value);

/// Relies on serde_json::Value::clone: the copy equals the original.
#[verifier::external_body]
pub(crate) fn clone_json_value(v: &serde_json::Value) -> (r: serde_json::Value)
    ensures
        r == *v,
{
    v.clone()
}

/// The reserved context id for system frames; multi-context operation is out
/// of scope, so every frame carries this namespace.
pub const SYSTEM_CONTEXT: u128 = 0;

/// The reserved topic whose presence marks a store as initialized.
pub open spec fn sentinel_topic() -> Seq<char> {
    "yak.create"@
}

/// The sentinel topic as an owned string.
pub fn new_sentinel_topic() -> (r: String)
    ensures
        r@ == sentinel_topic(),
{
    "yak.create".to_owned()
}

/// Relies on scru128::new: a fresh 128-bit time-ordered id from the
/// process-wide generator. Nothing is assumed of its value; callers that
/// need an id beyond the log's last one must check for themselves. The
/// call aborts the process when the system clock stands outside the
/// generator's supported range (before 1970 or past the year 10889).
#[verifier::external_body]
pub(crate) fn generate_id() -> (r: u128) {
    u128::from(scru128::new())
}

/// The base36 digit for a value below 36: `0` through `9`, then `a`
/// through `z`.
pub open spec fn base36_digit(d: u128) -> char {
    if d < 10 {
        ((48 + d) as u32) as char
    } else {
        ((87 + d) as u32) as char
    }
}

/// The fixed-width base36 text of a value: `n` digits, most significant
/// first, zero padded.
pub open spec fn base36_text(v: u128, n: nat) -> Seq<char>
    decreases n,
{
    if n == 0 {
        Seq::empty()
    } else {
        base36_text(v / 36, (n - 1) as nat).push(base36_digit(v % 36))
    }
}

/// 36 raised to the given power.
pub open spec fn pow36(n: nat) -> int
    decreases n,
{
    if n == 0 {
        1
    } else {
        36 * pow36((n - 1) as nat)
    }
}

/// The 25-digit canonical text of a SCRU128 id: its base36
/// representation, zero padded to fixed width.
pub open spec fn id_text_of(id: u128) -> Seq<char> {
    base36_text(id, 25)
}

/// Relies on scru128::Id's Display impl: the 25-digit canonical form is
/// the fixed-width base36 text of the id, in digits `0`-`9` then `a`-`z`,
/// most significant first, zero padded.
#[verifier::external_body]
pub(crate) fn id_to_text(id: u128) -> (r: String)
    ensures
        r@ == id_text_of(id),
{
    scru128::Id::from(id).to_string()
}

proof fn lemma_pow36_pos(n: nat)
    ensures
        pow36(n) >= 1,
    decreases n,
{
    if n > 0 {
        lemma_pow36_pos((n - 1) as nat);
    }
}

proof fn lemma_base36_digit_injective(d1: u128, d2: u128)
    requires
        d1 < 36,
        d2 < 36,
        base36_digit(d1) == base36_digit(d2),
    ensures
        d1 == d2,
{
}

proof fn lemma_base36_text_len(v: u128, n: nat)
    ensures
        base36_text(v, n).len() == n,
    decreases n,
{
    if n > 0 {
        lemma_base36_text_len(v / 36, (n - 1) as nat);
    }
}

proof fn lemma_base36_text_injective(v1: u128, v2: u128, n: nat)
    requires
        v1 < pow36(n),
        v2 < pow36(n),
        base36_text(v1, n) == base36_text(v2, n),
    ensures
        v1 == v2,
    decreases n,
{
    if n > 0 {
        let s1 = base36_text(v1, n);
        let s2 = base36_text(v2, n);
        assert(s1.drop_last() =~= base36_text(v1 / 36, (n - 1) as nat));
        assert(s2.drop_last() =~= base36_text(v2 / 36, (n - 1) as nat));
        assert(s1.last() == base36_digit(v1 % 36));
        assert(s2.last() == base36_digit(v2 % 36));
        lemma_base36_digit_injective(v1 % 36, v2 % 36);
        lemma_pow36_pos((n - 1) as nat);
        assert(v1 / 36 < pow36((n - 1) as nat));
        assert(v2 / 36 < pow36((n - 1) as nat));
        lemma_base36_text_injective(v1 / 36, v2 / 36, (n - 1) as nat);
    }
}

/// An id's canonical text is always exactly 25 characters.
pub proof fn lemma_id_text_len(id: u128)
    ensures
        id_text_of(id).len() == 25,
{
    lemma_base36_text_len(id, 25);
}

/// Distinct ids have distinct canonical texts: every 128-bit value fits
/// in 25 base36 digits, and fixed-width base36 texts differ wherever the
/// values do.
pub proof fn lemma_id_text_injective(a: u128, b: u128)
    requires
        id_text_of(a) == id_text_of(b),
    ensures
        a == b,
{
    reveal_with_fuel(pow36, 26);
    assert(pow36(25) == 808281277464764060643139600456536293376int);
    lemma_base36_text_injective(a, b, 25);
}

/// An immutable event record. Once appended to the log a frame is never
/// mutated or deleted.
pub struct Frame {
    /// 128-bit time-ordered id; doubles as the log's total order key.
    pub id: u128,
    /// Isolation namespace; fixed to `SYSTEM_CONTEXT` in this scope.
    pub context_id: u128,
    /// Non-empty name of the event kind.
    pub topic: String,
    /// Canonical integrity string of the CAS entry holding this frame's
    /// payload; `None` means the frame carries no payload.
    pub hash: Option<String>,
    /// Optional structured key-value document attached by the producer.
    pub meta: Option<serde_json::Value>,
    /// Optional expiry marker; accepted but never interpreted in this scope.
    pub ttl: Option<u64>,
}

impl Frame {
    /// A frame is well formed when its topic is non-empty.
    pub open spec fn wf(&self) -> bool {
        self.topic@.len() > 0
    }

    /// True when this frame carries the sentinel topic.
    pub open spec fn is_sentinel(&self) -> bool {
        self.topic@ == sentinel_topic()
    }
}

impl Clone for Frame {
    fn clone(&self) -> (r: Self)
        ensures
            r == *self,
    {
        Frame {
            id: self.id,
            context_id: self.context_id,
            topic: self.topic.clone(),
            hash: match &self.hash {
                Some(h) => Some(h.clone()),
                None => None,
            },
            meta: match &self.meta {
                Some(v) => Some(clone_json_value(v)),
                None => None,
            },
            ttl: self.ttl,
        }
    }
}

} // verus!
