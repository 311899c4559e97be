//! Canonical outcome codec: the one deterministic, self-describing binary
//! format in which the promise-result handler returns an outcome list to
//! bytecode.
//!
//! The encoding of a sequence is a 4-byte little-endian count followed by
//! the concatenation of each element's encoding, in order.  An element is
//! a one-byte tag; a successful outcome carries in addition a 4-byte
//! little-endian payload length and exactly that many payload bytes.  This
//! format is the wire contract of the precompile: decoding an encoding
//! reproduces the original sequence, and trailing or malformed bytes are
//! rejected, so the encoding of a given sequence is unique.

use vstd::prelude::*;
use vstd::bytes::lemma_auto_spec_u32_to_from_le_bytes;
use vstd::bytes::spec_u32_from_le_bytes;
use vstd::bytes::spec_u32_to_le_bytes;
use vstd::bytes::u32_from_le_bytes;
use vstd::bytes::u32_to_le_bytes;
use vstd::slice::slice_subrange;
use vstd::slice::slice_to_vec;
use crate::outcome::OutcomeModel;
use crate::outcome::PromiseOutcome;
use crate::outcome::outcome_wf;
use crate::outcome::outcomes_wf;

verus! {

/// Tag byte of an unresolved outcome.
pub const TAG_NOT_READY: u8 = 0;

/// Tag byte of a successful outcome; a 4-byte length and the payload follow.
pub const TAG_SUCCESSFUL: u8 = 1;

/// Tag byte of a failed outcome.
pub const TAG_FAILED: u8 = 2;

/// The encoding of one outcome: a tag byte, and for a successful outcome a
/// 4-byte little-endian payload length followed by the payload itself.
pub open spec fn encode_outcome(o: OutcomeModel) -> Seq<u8> {
    match o {
        OutcomeModel::NotReady => seq![TAG_NOT_READY],
        OutcomeModel::Successful(payload) => seq![TAG_SUCCESSFUL]
            + spec_u32_to_le_bytes(payload.len() as u32) + payload,
        OutcomeModel::Failed => seq![TAG_FAILED],
    }
}

/// The concatenation of the encodings of a sequence's elements, in order.
pub open spec fn encode_outcomes(s: Seq<OutcomeModel>) -> Seq<u8>
    decreases s.len(),
{
    if s.len() == 0 {
        Seq::empty()
    } else {
        encode_outcome(s[0]) + encode_outcomes(s.drop_first())
    }
}

/// The full encoding of an outcome sequence: a 4-byte little-endian count
/// followed by the encoded elements.
pub open spec fn encode_full(s: Seq<OutcomeModel>) -> Seq<u8> {
    spec_u32_to_le_bytes(s.len() as u32) + encode_outcomes(s)
}

/// Parses exactly `n` outcomes from `b`, accepting only when `b` holds
/// them and nothing more.
pub open spec fn decode_outcomes(b: Seq<u8>, n: nat) -> Option<Seq<OutcomeModel>>
    decreases n,
{
    if n == 0 {
        if b.len() == 0 {
            Some(Seq::empty())
        } else {
            None
        }
    } else if b.len() < 1 {
        None
    } else if b[0] == TAG_NOT_READY {
        match decode_outcomes(b.drop_first(), (n - 1) as nat) {
            Some(rest) => Some(seq![OutcomeModel::NotReady] + rest),
            None => None,
        }
    } else if b[0] == TAG_FAILED {
        match decode_outcomes(b.drop_first(), (n - 1) as nat) {
            Some(rest) => Some(seq![OutcomeModel::Failed] + rest),
            None => None,
        }
    } else if b[0] == TAG_SUCCESSFUL {
        if b.len() < 5 {
            None
        } else {
            let len = spec_u32_from_le_bytes(b.subrange(1, 5)) as int;
            if b.len() < 5 + len {
                None
            } else {
                match decode_outcomes(b.skip(5 + len), (n - 1) as nat) {
                    Some(rest) => Some(seq![OutcomeModel::Successful(b.subrange(5, 5 + len))] + rest),
                    None => None,
                }
            }
        }
    } else {
        None
    }
}

/// The inverse of [`encode_full`]: reads the 4-byte count, then exactly
/// that many outcomes, rejecting truncated input and trailing bytes.
pub open spec fn decode_full(b: Seq<u8>) -> Option<Seq<OutcomeModel>> {
    if b.len() < 4 {
        None
    } else {
        decode_outcomes(b.skip(4), spec_u32_from_le_bytes(b.subrange(0, 4)) as nat)
    }
}

/// The full encoding is the 4-byte count prefix followed by the encoded
/// outcome list; in particular it is never shorter than 4 bytes.
pub proof fn lemma_encode_full_len(s: Seq<OutcomeModel>)
    ensures
        encode_full(s).len() == 4 + encode_outcomes(s).len(),
{
    lemma_auto_spec_u32_to_from_le_bytes();
}

/// Concatenating outcome sequences concatenates their encodings.
pub proof fn lemma_encode_outcomes_app(a: Seq<OutcomeModel>, b: Seq<OutcomeModel>)
    ensures
        encode_outcomes(a + b) == encode_outcomes(a) + encode_outcomes(b),
    decreases a.len(),
{
    if a.len() == 0 {
        assert(a + b =~= b);
        assert(encode_outcomes(a) + encode_outcomes(b) =~= encode_outcomes(b));
    } else {
        assert((a + b).drop_first() =~= a.drop_first() + b);
        assert((a + b)[0] == a[0]);
        assert((a + b).len() != 0);
        lemma_encode_outcomes_app(a.drop_first(), b);
        assert(encode_outcome(a[0]) + (encode_outcomes(a.drop_first()) + encode_outcomes(b))
            =~= (encode_outcome(a[0]) + encode_outcomes(a.drop_first())) + encode_outcomes(b));
    }
}

/// Parsing the encoding of one well-formed outcome followed by any tail
/// consumes exactly that outcome's encoding and continues with the tail.
proof fn lemma_decode_encode_outcome_step(o: OutcomeModel, t: Seq<u8>, n: nat)
    requires
        outcome_wf(o),
    ensures
        decode_outcomes(encode_outcome(o) + t, n + 1) == match decode_outcomes(t, n) {
            Some(rest) => Some(seq![o] + rest),
            None => None::<Seq<OutcomeModel>>,
        },
{
    lemma_auto_spec_u32_to_from_le_bytes();
    let b = encode_outcome(o) + t;
    match o {
        OutcomeModel::NotReady => {
            assert(b[0] == TAG_NOT_READY);
            assert(b.drop_first() =~= t);
        },
        OutcomeModel::Failed => {
            assert(b[0] == TAG_FAILED);
            assert(b.drop_first() =~= t);
        },
        OutcomeModel::Successful(payload) => {
            let len = payload.len() as int;
            assert(b[0] == TAG_SUCCESSFUL);
            assert(b.len() == 5 + len + t.len());
            assert(b.subrange(1, 5) =~= spec_u32_to_le_bytes(payload.len() as u32));
            assert(spec_u32_from_le_bytes(b.subrange(1, 5)) == payload.len() as u32);
            assert(b.subrange(5, 5 + len) =~= payload);
            assert(b.skip(5 + len) =~= t);
        },
    }
}

/// Parsing the concatenated encodings of a well-formed sequence yields
/// exactly that sequence.
proof fn lemma_decode_encode_outcomes(s: Seq<OutcomeModel>)
    requires
        forall|i: int| 0 <= i < s.len() ==> outcome_wf(#[trigger] s[i]),
    ensures
        decode_outcomes(encode_outcomes(s), s.len()) == Some(s),
    decreases s.len(),
{
    if s.len() == 0 {
        assert(encode_outcomes(s) =~= Seq::<u8>::empty());
        assert(s =~= Seq::<OutcomeModel>::empty());
    } else {
        lemma_decode_encode_outcomes(s.drop_first());
        lemma_decode_encode_outcome_step(
            s[0],
            encode_outcomes(s.drop_first()),
            (s.len() - 1) as nat,
        );
        assert(seq![s[0]] + s.drop_first() =~= s);
    }
}

/// Round-trip law: decoding the canonical encoding of any encodable
/// outcome sequence yields exactly that sequence.
pub proof fn lemma_round_trip(s: Seq<OutcomeModel>)
    requires
        outcomes_wf(s),
    ensures
        decode_full(encode_full(s)) == Some(s),
{
    lemma_auto_spec_u32_to_from_le_bytes();
    let b = encode_full(s);
    assert(b.subrange(0, 4) =~= spec_u32_to_le_bytes(s.len() as u32));
    assert(b.skip(4) =~= encode_outcomes(s));
    assert(spec_u32_from_le_bytes(b.subrange(0, 4)) == s.len() as u32);
    lemma_decode_encode_outcomes(s);
}

/// Appends a byte slice to a byte vector.
fn extend_bytes(dst: &mut Vec<u8>, src: &[u8])
    ensures
        final(dst)@ == old(dst)@ + src@,
{
    let n = src.len();
    let mut i: usize = 0;
    while i < n
        invariant
            n == src@.len(),
            i <= n,
            dst@ == old(dst)@ + src@.take(i as int),
        decreases n - i,
    {
        let ghost pre = dst@;
        dst.push(src[i]);
        proof {
            assert(dst@ =~= old(dst)@ + src@.take(i + 1));
        }
        i += 1;
    }
    proof {
        assert(old(dst)@ + src@.take(n as int) =~= old(dst)@ + src@);
    }
}

/// Serializes an outcome list in the canonical format.
pub fn encode(outcomes: &Vec<PromiseOutcome>) -> (r: Vec<u8>)
    requires
        outcomes_wf(outcomes.deep_view()),
    ensures
        r@ == encode_full(outcomes.deep_view()),
{
    let ghost s = outcomes.deep_view();
    proof {
        lemma_auto_spec_u32_to_from_le_bytes();
    }
    let mut out: Vec<u8> = Vec::new();
    let count_bytes = u32_to_le_bytes(outcomes.len() as u32);
    extend_bytes(&mut out, count_bytes.as_slice());
    let n = outcomes.len();
    let mut i: usize = 0;
    while i < n
        invariant
            n == outcomes.len(),
            i <= n,
            s == outcomes.deep_view(),
            outcomes_wf(s),
            out@ == spec_u32_to_le_bytes(s.len() as u32) + encode_outcomes(s.take(i as int)),
        decreases n - i,
    {
        let ghost done = s.take(i as int);
        proof {
            assert(outcome_wf(s[i as int]));
        }
        match &outcomes[i] {
            PromiseOutcome::NotReady => {
                out.push(TAG_NOT_READY);
            },
            PromiseOutcome::Failed => {
                out.push(TAG_FAILED);
            },
            PromiseOutcome::Successful(payload) => {
                out.push(TAG_SUCCESSFUL);
                let len_bytes = u32_to_le_bytes(payload.len() as u32);
                extend_bytes(&mut out, len_bytes.as_slice());
                extend_bytes(&mut out, payload.as_slice());
            },
        }
        proof {
            assert(s.take(i + 1) =~= done + seq![s[i as int]]);
            lemma_encode_outcomes_app(done, seq![s[i as int]]);
            assert(seq![s[i as int]].drop_first() =~= Seq::<OutcomeModel>::empty());
            assert(encode_outcomes(seq![s[i as int]])
                =~= encode_outcome(s[i as int]) + encode_outcomes(Seq::<OutcomeModel>::empty()));
            assert(out@ =~= spec_u32_to_le_bytes(s.len() as u32) + encode_outcomes(s.take(i + 1)));
        }
        i += 1;
    }
    proof {
        assert(s.take(n as int) =~= s);
    }
    out
}

/// Deserializes a canonical encoding; returns the outcome list it encodes,
/// or `None` when the bytes are not the canonical encoding of any list.
pub fn decode(bytes: &[u8]) -> (r: Option<Vec<PromiseOutcome>>)
    ensures
        match r {
            Some(v) => decode_full(bytes@) == Some(v.deep_view()),
            None => decode_full(bytes@) is None,
        },
{
    proof {
        lemma_auto_spec_u32_to_from_le_bytes();
    }
    if bytes.len() < 4 {
        return None;
    }
    let count = u32_from_le_bytes(slice_subrange(bytes, 0, 4));
    let mut acc: Vec<PromiseOutcome> = Vec::new();
    let mut idx: usize = 4;
    let mut k: u32 = 0;
    proof {
        assert(acc.deep_view() =~= Seq::<OutcomeModel>::empty());
    }
    while k < count
        invariant
            4 <= idx <= bytes@.len(),
            k <= count,
            decode_full(bytes@) == (match decode_outcomes(
                bytes@.skip(idx as int),
                (count - k) as nat,
            ) {
                Some(rest) => Some(acc.deep_view() + rest),
                None => None::<Seq<OutcomeModel>>,
            }),
        decreases count - k,
    {
        let ghost rem = bytes@.skip(idx as int);
        let ghost m = (count - k) as nat;
        if idx >= bytes.len() {
            proof {
                assert(rem.len() == 0);
                assert(decode_outcomes(rem, m) is None);
            }
            return None;
        }
        let tag = bytes[idx];
        proof {
            assert(rem[0] == tag);
        }
        if tag == TAG_NOT_READY || tag == TAG_FAILED {
            let o = if tag == TAG_NOT_READY {
                PromiseOutcome::NotReady
            } else {
                PromiseOutcome::Failed
            };
            let ghost pre = acc.deep_view();
            acc.push(o);
            idx += 1;
            proof {
                assert(acc.deep_view() =~= pre.push(o@));
                assert(rem.drop_first() =~= bytes@.skip(idx as int));
                assert forall|rest: Seq<OutcomeModel>|
                    pre + (seq![o@] + rest) =~= acc.deep_view() + rest by {}
            }
        } else if tag == TAG_SUCCESSFUL {
            if bytes.len() - idx < 5 {
                proof {
                    assert(rem.len() < 5);
                    assert(decode_outcomes(rem, m) is None);
                }
                return None;
            }
            let len_slice = slice_subrange(bytes, idx + 1, idx + 5);
            let len32 = u32_from_le_bytes(len_slice);
            proof {
                assert(rem.subrange(1, 5) =~= bytes@.subrange(idx + 1, idx + 5));
            }
            let len = len32 as usize;
            if bytes.len() - idx - 5 < len {
                proof {
                    assert(rem.len() < 5 + len32);
                    assert(decode_outcomes(rem, m) is None);
                }
                return None;
            }
            let payload = slice_to_vec(slice_subrange(bytes, idx + 5, idx + 5 + len));
            let o = PromiseOutcome::Successful(payload);
            let ghost pre = acc.deep_view();
            acc.push(o);
            idx += 5 + len;
            proof {
                assert(rem.subrange(5, 5 + len32 as int) =~= bytes@.subrange(
                    (idx - len) as int,
                    idx as int,
                ));
                assert(o@ == OutcomeModel::Successful(rem.subrange(5, 5 + len32 as int)));
                assert(acc.deep_view() =~= pre.push(o@));
                assert(rem.skip(5 + len32 as int) =~= bytes@.skip(idx as int));
                assert forall|rest: Seq<OutcomeModel>|
                    pre + (seq![o@] + rest) =~= acc.deep_view() + rest by {}
            }
        } else {
            proof {
                assert(decode_outcomes(rem, m) is None);
            }
            return None;
        }
        k += 1;
    }
    if idx != bytes.len() {
        proof {
            assert(bytes@.skip(idx as int).len() > 0);
            assert(decode_outcomes(bytes@.skip(idx as int), 0) is None);
        }
        return None;
    }
    proof {
        assert(bytes@.skip(idx as int).len() == 0);
        assert(decode_outcomes(bytes@.skip(idx as int), 0) == Some(Seq::<OutcomeModel>::empty()));
        assert(acc.deep_view() + Seq::<OutcomeModel>::empty() =~= acc.deep_view());
    }
    Some(acc)
}

} // verus!
