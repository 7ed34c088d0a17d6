//! The wire codec for streamed response envelopes: the tagged JSON forms
//! of every message a client receives, encoded and decoded by verified
//! functions, with decoding proved to invert encoding.

use vstd::prelude::*;

use crate::codec::decode_number;
use crate::codec::lemma_decode_number;
use crate::codec::lemma_strip_concat;
use crate::codec::lemma_strip_fail_at;
use crate::codec::push_lit;
use crate::codec::spec_decode_number;
use crate::codec::spec_strip;
use crate::codec::strip_lit;
use crate::embedding::Embedding;
use crate::embedding::EmbeddingNormalizationMethod;
use crate::embedding::EmbeddingView;
use crate::embedding::PoolingType;
use crate::codec::decode_string;
use crate::codec::lemma_decode_string;
use crate::codec::push_json_string;
use crate::codec::spec_decode_string;
use crate::codec::spec_json_string;
use crate::error::Error;
use crate::inference_client::EmbeddingResult;
use crate::inference_client::EmbeddingResultView;
use crate::inference_client::GeneratedTokenResult;
use crate::inference_client::GeneratedTokenResultView;
use crate::inference_client::Message;
use crate::inference_client::MessageView;
use crate::inference_client::Response;
use crate::inference_client::ResponseEnvelopeView;
use crate::inference_client::ResponseView;
use crate::json::is_digit;
use crate::json::push_u64;
use crate::json::spec_u64_digits;
use crate::jsonrpc::ErrorEnvelope;
use crate::jsonrpc::ErrorEnvelopeView;
use crate::jsonrpc::JsonRpcError;
use crate::jsonrpc::JsonRpcErrorView;
use crate::jsonrpc::ResponseEnvelope;
use crate::text::chars_of;
use crate::text::string_of;

verus! {

/// The canonical decimal form of a signed 32-bit integer.
pub open spec fn spec_encode_i32(n: int) -> Seq<char> {
    if n < 0 {
        seq!['-'] + spec_u64_digits((-n) as nat)
    } else {
        spec_u64_digits(n as nat)
    }
}

/// Parse a signed decimal from the front of `t`, bounded to `i32`.
pub open spec fn spec_decode_i32(t: Seq<char>) -> Option<(int, Seq<char>)> {
    if t.len() > 0 && t[0] == '-' {
        match spec_decode_number(t.skip(1)) {
            Some(p) => if p.0 > 0x8000_0000 {
                None
            } else {
                Some((-(p.0 as int), p.1))
            },
            None => None,
        }
    } else {
        match spec_decode_number(t) {
            Some(p) => if p.0 > i32::MAX as nat {
                None
            } else {
                Some((p.0 as int, p.1))
            },
            None => None,
        }
    }
}

/// Law: decoding a canonical signed decimal yields the original value.
pub proof fn lemma_decode_i32(n: int, rest: Seq<char>)
    requires
        i32::MIN <= n <= i32::MAX,
        rest.len() == 0 || !is_digit(rest[0]),
    ensures
        spec_decode_i32(spec_encode_i32(n) + rest) == Some((n, rest)),
{
    let t = spec_encode_i32(n) + rest;
    if n < 0 {
        assert(t[0] == '-');
        assert(t.skip(1) =~= spec_u64_digits((-n) as nat) + rest);
        lemma_decode_number((-n) as nat, rest);
    } else {
        crate::json::lemma_u64_digits(n as nat);
        assert(t[0] == spec_u64_digits(n as nat)[0]);
        assert(is_digit(t[0]));
        assert(t[0] != '-');
        lemma_decode_number(n as nat, rest);
    }
}

/// Append the canonical decimal form of `n`.
pub fn push_i32(out: &mut Vec<char>, n: i32)
    ensures
        final(out)@ == old(out)@ + spec_encode_i32(n as int),
{
    if n < 0 {
        out.push('-');
        let magnitude = (-(n as i64)) as u64;
        proof {
            assert(magnitude == -(n as int));
        }
        push_u64(out, magnitude);
        proof {
            assert(out@ =~= old(out)@ + spec_encode_i32(n as int));
        }
    } else {
        push_u64(out, n as u64);
    }
}

/// Decode a signed decimal at `from`, bounded to `i32`.
pub fn decode_i32(t: &Vec<char>, from: usize) -> (r: Option<(i32, usize)>)
    requires
        from <= t@.len(),
    ensures
        match r {
            Some(p) => {
                &&& from < p.1 <= t@.len()
                &&& spec_decode_i32(t@.skip(from as int)) == Some(
                    (p.0 as int, t@.skip(p.1 as int)),
                )
            },
            None => spec_decode_i32(t@.skip(from as int)) is None,
        },
{
    let ghost tail = t@.skip(from as int);
    if from < t.len() && t[from] == '-' {
        proof {
            assert(tail[0] == '-');
            assert(tail.skip(1) =~= t@.skip(from + 1));
        }
        match decode_number(t, from + 1) {
            Some((v, end)) => {
                if v > 0x8000_0000 {
                    return None;
                }
                let value = (-(v as i64)) as i32;
                proof {
                    assert(value as int == -(v as int));
                }
                Some((value, end))
            },
            None => None,
        }
    } else {
        proof {
            if tail.len() > 0 {
                assert(tail[0] == t@[from as int]);
            }
        }
        match decode_number(t, from) {
            Some((v, end)) => {
                if v > i32::MAX as u64 {
                    return None;
                }
                Some((v as i32, end))
            },
            None => None,
        }
    }
}

/// The canonical items of a JSON array of unsigned numbers (no brackets).
pub open spec fn spec_encode_u32_items(s: Seq<u32>) -> Seq<char>
    decreases s.len(),
{
    if s.len() == 0 {
        Seq::<char>::empty()
    } else if s.len() == 1 {
        spec_u64_digits(s[0] as nat)
    } else {
        spec_u64_digits(s[0] as nat) + seq![','] + spec_encode_u32_items(s.drop_first())
    }
}

/// The canonical JSON array of unsigned numbers.
pub open spec fn spec_encode_u32_array(s: Seq<u32>) -> Seq<char> {
    seq!['['] + spec_encode_u32_items(s) + seq![']']
}

/// Parse the items of a non-empty array of `u32` numbers, up to and
/// including the closing bracket.
pub open spec fn spec_decode_u32_items(t: Seq<char>) -> Option<(Seq<u32>, Seq<char>)>
    decreases t.len(),
{
    match spec_decode_number(t) {
        Some(p) => if p.0 > u32::MAX as nat || p.1.len() >= t.len() {
            None
        } else if p.1.len() > 0 && p.1[0] == ']' {
            Some((seq![p.0 as u32], p.1.skip(1)))
        } else if p.1.len() > 0 && p.1[0] == ',' {
            match spec_decode_u32_items(p.1.skip(1)) {
                Some(q) => Some((seq![p.0 as u32] + q.0, q.1)),
                None => None,
            }
        } else {
            None
        },
        None => None,
    }
}

/// Parse a JSON array of `u32` numbers.
pub open spec fn spec_decode_u32_array(t: Seq<char>) -> Option<(Seq<u32>, Seq<char>)> {
    if t.len() >= 2 && t[0] == '[' && t[1] == ']' {
        Some((Seq::<u32>::empty(), t.skip(2)))
    } else if t.len() >= 1 && t[0] == '[' {
        spec_decode_u32_items(t.skip(1))
    } else {
        None
    }
}

/// Law: decoding canonical array items yields the original numbers.
proof fn lemma_decode_u32_items(s: Seq<u32>, rest: Seq<char>)
    requires
        s.len() > 0,
        rest.len() == 0 || !is_digit(rest[0]),
    ensures
        spec_decode_u32_items(spec_encode_u32_items(s) + seq![']'] + rest) == Some((s, rest)),
    decreases s.len(),
{
    let t = spec_encode_u32_items(s) + seq![']'] + rest;
    let d0 = spec_u64_digits(s[0] as nat);
    crate::json::lemma_u64_digits(s[0] as nat);
    if s.len() == 1 {
        assert(t =~= d0 + (seq![']'] + rest));
        lemma_decode_number(s[0] as nat, seq![']'] + rest);
        assert((seq![']'] + rest)[0] == ']');
        assert((seq![']'] + rest).skip(1) =~= rest);
        assert(seq![s[0]] =~= s);
    } else {
        let s2 = s.drop_first();
        lemma_decode_u32_items(s2, rest);
        let t2 = spec_encode_u32_items(s2) + seq![']'] + rest;
        assert(t =~= d0 + (seq![','] + t2));
        lemma_decode_number(s[0] as nat, seq![','] + t2);
        assert((seq![','] + t2)[0] == ',');
        assert((seq![','] + t2).skip(1) =~= t2);
        assert(t2.len() < t.len());
        assert(seq![s[0]] + s2 =~= s);
    }
}

/// Law: decoding a canonical array yields the original numbers.
pub proof fn lemma_decode_u32_array(s: Seq<u32>, rest: Seq<char>)
    requires
        rest.len() == 0 || !is_digit(rest[0]),
    ensures
        spec_decode_u32_array(spec_encode_u32_array(s) + rest) == Some((s, rest)),
{
    let t = spec_encode_u32_array(s) + rest;
    assert(t[0] == '[');
    if s.len() == 0 {
        assert(spec_encode_u32_items(s) =~= Seq::<char>::empty());
        assert(t =~= seq!['[', ']'] + rest);
        assert(t[1] == ']');
        assert(t.skip(2) =~= rest);
    } else {
        lemma_decode_u32_items(s, rest);
        assert(t.skip(1) =~= spec_encode_u32_items(s) + seq![']'] + rest);
        crate::json::lemma_u64_digits(s[0] as nat);
        if s.len() == 1 {
            assert(t[1] == spec_u64_digits(s[0] as nat)[0]);
        } else {
            assert(t[1] == spec_u64_digits(s[0] as nat)[0]);
        }
        assert(is_digit(t[1]));
    }
}

/// Append the canonical JSON array of the numbers in `s`.
pub fn push_u32_array(out: &mut Vec<char>, s: &Vec<u32>)
    ensures
        final(out)@ == old(out)@ + spec_encode_u32_array(s@),
{
    out.push('[');
    let n = s.len();
    let mut i: usize = 0;
    while i < n
        invariant
            n == s@.len(),
            i <= n,
            out@ == old(out)@ + seq!['['] + spec_encode_u32_items(s@.take(i as int)) + (
            if 0 < i < n {
                seq![',']
            } else {
                Seq::<char>::empty()
            }),
        decreases n - i,
    {
        let ghost entry = out@;
        push_u64(out, s[i] as u64);
        if i + 1 < n {
            out.push(',');
        }
        proof {
            lemma_encode_items_take_step(s@, i as int);
            let sep = if 0 < i {
                seq![',']
            } else {
                Seq::<char>::empty()
            };
            assert(entry =~= old(out)@ + seq!['['] + (spec_encode_u32_items(s@.take(i as int))
                + sep));
            let pre = old(out)@ + seq!['['];
            if i + 1 < n {
                assert(out@ =~= entry + spec_u64_digits(s@[i as int] as nat) + seq![',']);
                assert((spec_encode_u32_items(s@.take(i as int)) + sep) + spec_u64_digits(
                    s@[i as int] as nat,
                ) + seq![','] =~= spec_encode_u32_items(s@.take(i + 1)) + seq![',']);
                assert(out@ =~= pre + ((spec_encode_u32_items(s@.take(i as int)) + sep)
                    + spec_u64_digits(s@[i as int] as nat) + seq![',']));
                assert(out@ == pre + (spec_encode_u32_items(s@.take(i + 1)) + seq![',']));
                assert(pre + (spec_encode_u32_items(s@.take(i + 1)) + seq![',']) =~= old(out)@
                    + seq!['['] + spec_encode_u32_items(s@.take(i + 1)) + seq![',']);
            } else {
                assert(out@ =~= entry + spec_u64_digits(s@[i as int] as nat));
                assert((spec_encode_u32_items(s@.take(i as int)) + sep) + spec_u64_digits(
                    s@[i as int] as nat,
                ) =~= spec_encode_u32_items(s@.take(i + 1)));
                assert(out@ =~= pre + ((spec_encode_u32_items(s@.take(i as int)) + sep)
                    + spec_u64_digits(s@[i as int] as nat)));
                assert(out@ == pre + spec_encode_u32_items(s@.take(i + 1)));
                assert(pre + spec_encode_u32_items(s@.take(i + 1)) =~= old(out)@ + seq!['[']
                    + spec_encode_u32_items(s@.take(i + 1)));
            }
        }
        i = i + 1;
    }
    out.push(']');
    proof {
        assert(s@.take(n as int) =~= s@);
        assert(out@ =~= old(out)@ + spec_encode_u32_array(s@));
    }
}

/// Extending an item prefix appends one number (and the separating comma
/// stays with the prefix form).
proof fn lemma_encode_items_take_step(s: Seq<u32>, i: int)
    requires
        0 <= i < s.len(),
    ensures
        i + 1 < s.len() ==> spec_encode_u32_items(s.take(i + 1)) + seq![','] == (
        spec_encode_u32_items(s.take(i)) + (if 0 < i {
            seq![',']
        } else {
            Seq::<char>::empty()
        })) + spec_u64_digits(s[i] as nat) + seq![','],
        i + 1 == s.len() ==> spec_encode_u32_items(s.take(i + 1)) == (spec_encode_u32_items(
            s.take(i),
        ) + (if 0 < i {
            seq![',']
        } else {
            Seq::<char>::empty()
        })) + spec_u64_digits(s[i] as nat),
{
    lemma_encode_items_snoc(s.take(i + 1));
    assert(s.take(i + 1).drop_last() =~= s.take(i));
    assert(s.take(i + 1).last() == s[i]);
    if i == 0 {
        assert(spec_encode_u32_items(s.take(0)) =~= Seq::<char>::empty());
        assert(spec_encode_u32_items(s.take(1)) =~= spec_u64_digits(s[0] as nat));
    }
}

/// The items of a non-empty sequence are the items of its front followed
/// by a comma (when the front is non-empty) and the last number.
proof fn lemma_encode_items_snoc(s: Seq<u32>)
    requires
        s.len() > 0,
    ensures
        s.len() == 1 ==> spec_encode_u32_items(s) == spec_u64_digits(s[0] as nat),
        s.len() > 1 ==> spec_encode_u32_items(s) == spec_encode_u32_items(s.drop_last())
            + seq![','] + spec_u64_digits(s.last() as nat),
    decreases s.len(),
{
    if s.len() > 1 {
        lemma_encode_items_snoc(s.drop_first());
        assert(s.drop_first().drop_last() =~= s.drop_last().drop_first());
        if s.len() == 2 {
            assert(s.drop_last() =~= seq![s[0]]);
            assert(spec_encode_u32_items(s) == spec_u64_digits(s[0] as nat) + seq![',']
                + spec_u64_digits(s[1] as nat));
            assert(spec_encode_u32_items(s.drop_last()) == spec_u64_digits(s[0] as nat));
        } else {
            assert(s.drop_last()[0] == s[0]);
            assert(s.drop_last().len() > 1);
            assert(spec_encode_u32_items(s) == spec_u64_digits(s[0] as nat) + seq![',']
                + spec_encode_u32_items(s.drop_first()));
            assert(spec_encode_u32_items(s.drop_first()) == spec_encode_u32_items(
                s.drop_first().drop_last(),
            ) + seq![','] + spec_u64_digits(s.last() as nat));
            assert(spec_encode_u32_items(s.drop_last()) == spec_u64_digits(s[0] as nat)
                + seq![','] + spec_encode_u32_items(s.drop_last().drop_first()));
            assert(spec_u64_digits(s[0] as nat) + seq![','] + (spec_encode_u32_items(
                s.drop_first().drop_last(),
            ) + seq![','] + spec_u64_digits(s.last() as nat)) =~= (spec_u64_digits(s[0] as nat)
                + seq![','] + spec_encode_u32_items(s.drop_first().drop_last())) + seq![',']
                + spec_u64_digits(s.last() as nat));
        }
    }
}

/// Decode a JSON array of `u32` numbers at `from`.
pub fn decode_u32_array(t: &Vec<char>, from: usize) -> (r: Option<(Vec<u32>, usize)>)
    requires
        from <= t@.len(),
    ensures
        match r {
            Some(p) => {
                &&& from < p.1 <= t@.len()
                &&& spec_decode_u32_array(t@.skip(from as int)) == Some(
                    (p.0@, t@.skip(p.1 as int)),
                )
            },
            None => spec_decode_u32_array(t@.skip(from as int)) is None,
        },
{
    let ghost tail = t@.skip(from as int);
    if from >= t.len() || t[from] != '[' {
        proof {
            if tail.len() > 0 {
                assert(tail[0] == t@[from as int]);
            }
        }
        return None;
    }
    proof {
        assert(tail[0] == '[');
    }
    if from + 1 < t.len() && t[from + 1] == ']' {
        proof {
            assert(tail[1] == ']');
            assert(tail.skip(2) =~= t@.skip(from + 2));
        }
        return Some((Vec::new(), from + 2));
    }
    proof {
        if from + 1 < t.len() {
            assert(tail[1] == t@[from + 1]);
        }
        assert(tail.skip(1) =~= t@.skip(from + 1));
    }
    match decode_u32_items(t, from + 1) {
        Some(p) => Some(p),
        None => None,
    }
}

fn decode_u32_items(t: &Vec<char>, from: usize) -> (r: Option<(Vec<u32>, usize)>)
    requires
        from <= t@.len(),
    ensures
        match r {
            Some(p) => {
                &&& from < p.1 <= t@.len()
                &&& spec_decode_u32_items(t@.skip(from as int)) == Some(
                    (p.0@, t@.skip(p.1 as int)),
                )
            },
            None => spec_decode_u32_items(t@.skip(from as int)) is None,
        },
    decreases t@.len() - from,
{
    let ghost tail = t@.skip(from as int);
    let (v, end) = match decode_number(t, from) {
        Some(p) => p,
        None => {
            return None;
        },
    };
    if v > u32::MAX as u64 {
        return None;
    }
    proof {
        assert(t@.skip(end as int).len() < tail.len());
    }
    if end < t.len() && t[end] == ']' {
        proof {
            assert(t@.skip(end as int)[0] == ']');
            assert(t@.skip(end as int).skip(1) =~= t@.skip(end + 1));
        }
        let mut items: Vec<u32> = Vec::new();
        items.push(v as u32);
        proof {
            assert(items@ =~= seq![v as u32]);
        }
        return Some((items, end + 1));
    }
    if end < t.len() && t[end] == ',' {
        proof {
            assert(t@.skip(end as int)[0] == ',');
            assert(t@.skip(end as int).skip(1) =~= t@.skip(end + 1));
        }
        match decode_u32_items(t, end + 1) {
            Some((rest_items, after)) => {
                let mut items: Vec<u32> = Vec::new();
                items.push(v as u32);
                let mut rest_items = rest_items;
                let ghost rest_view = rest_items@;
                items.append(&mut rest_items);
                proof {
                    assert(items@ =~= seq![v as u32] + rest_view);
                }
                return Some((items, after));
            },
            None => {
                return None;
            },
        }
    }
    proof {
        if end < t@.len() {
            assert(t@.skip(end as int)[0] == t@[end as int]);
        }
    }
    None
}


/// The canonical form of a normalization method.
pub open spec fn spec_encode_method(m: EmbeddingNormalizationMethod) -> Seq<char> {
    match m {
        EmbeddingNormalizationMethod::L2 => "\"L2\""@,
        EmbeddingNormalizationMethod::NoNormalization => "\"NoNormalization\""@,
        EmbeddingNormalizationMethod::RmsNorm { epsilon_bits } =>
            "{\"RmsNorm\":{\"epsilon_bits\":"@ + spec_u64_digits(epsilon_bits as nat) + "}}"@,
    }
}

/// Decode a normalization method.
pub open spec fn spec_decode_method(t: Seq<char>) -> Option<(
    EmbeddingNormalizationMethod,
    Seq<char>,
)> {
    match spec_strip(t, "\"L2\""@) {
        Some(t1) => Some((EmbeddingNormalizationMethod::L2, t1)),
        None => match spec_strip(t, "\"NoNormalization\""@) {
            Some(t1) => Some((EmbeddingNormalizationMethod::NoNormalization, t1)),
            None => match spec_strip(t, "{\"RmsNorm\":{\"epsilon_bits\":"@) {
                Some(t1) => match spec_decode_number(t1) {
                    Some(p) => if p.0 > u32::MAX as nat {
                        None
                    } else {
                        match spec_strip(p.1, "}}"@) {
                            Some(t2) => Some(
                                (
                                    EmbeddingNormalizationMethod::RmsNorm {
                                        epsilon_bits: p.0 as u32,
                                    },
                                    t2,
                                ),
                            ),
                            None => None,
                        }
                    },
                    None => None,
                },
                None => None,
            },
        },
    }
}

/// Law: decoding a canonical method yields the original.
pub proof fn lemma_decode_method(m: EmbeddingNormalizationMethod, rest: Seq<char>)
    ensures
        spec_decode_method(spec_encode_method(m) + rest) == Some((m, rest)),
{
    reveal_strlit("\"L2\"");
    reveal_strlit("\"NoNormalization\"");
    reveal_strlit("{\"RmsNorm\":{\"epsilon_bits\":");
    reveal_strlit("}}");
    let t = spec_encode_method(m) + rest;
    match m {
        EmbeddingNormalizationMethod::L2 => {
            lemma_strip_concat("\"L2\""@, rest);
        },
        EmbeddingNormalizationMethod::NoNormalization => {
            assert(t[1] == 'N');
            lemma_strip_fail_at(t, "\"L2\""@, 1);
            lemma_strip_concat("\"NoNormalization\""@, rest);
        },
        EmbeddingNormalizationMethod::RmsNorm { epsilon_bits } => {
            assert(t[0] == '{');
            lemma_strip_fail_at(t, "\"L2\""@, 0);
            lemma_strip_fail_at(t, "\"NoNormalization\""@, 0);
            let key = "{\"RmsNorm\":{\"epsilon_bits\":"@;
            let r1 = spec_u64_digits(epsilon_bits as nat) + ("}}"@ + rest);
            assert(t =~= key + r1);
            lemma_strip_concat(key, r1);
            lemma_decode_number(epsilon_bits as nat, "}}"@ + rest);
            lemma_strip_concat("}}"@, rest);
        },
    }
}

/// The canonical form of a pooling type.
pub open spec fn spec_encode_pooling(p: PoolingType) -> Seq<char> {
    match p {
        PoolingType::Unspecified => "\"Unspecified\""@,
        PoolingType::NoPooling => "\"NoPooling\""@,
        PoolingType::Mean => "\"Mean\""@,
        PoolingType::Cls => "\"Cls\""@,
        PoolingType::Last => "\"Last\""@,
        PoolingType::Rank => "\"Rank\""@,
    }
}

/// Decode a pooling type.
pub open spec fn spec_decode_pooling(t: Seq<char>) -> Option<(PoolingType, Seq<char>)> {
    match spec_strip(t, "\"Unspecified\""@) {
        Some(t1) => Some((PoolingType::Unspecified, t1)),
        None => match spec_strip(t, "\"NoPooling\""@) {
            Some(t1) => Some((PoolingType::NoPooling, t1)),
            None => match spec_strip(t, "\"Mean\""@) {
                Some(t1) => Some((PoolingType::Mean, t1)),
                None => match spec_strip(t, "\"Cls\""@) {
                    Some(t1) => Some((PoolingType::Cls, t1)),
                    None => match spec_strip(t, "\"Last\""@) {
                        Some(t1) => Some((PoolingType::Last, t1)),
                        None => match spec_strip(t, "\"Rank\""@) {
                            Some(t1) => Some((PoolingType::Rank, t1)),
                            None => None,
                        },
                    },
                },
            },
        },
    }
}

/// Law: decoding a canonical pooling type yields the original.
pub proof fn lemma_decode_pooling(p: PoolingType, rest: Seq<char>)
    ensures
        spec_decode_pooling(spec_encode_pooling(p) + rest) == Some((p, rest)),
{
    reveal_strlit("\"Unspecified\"");
    reveal_strlit("\"NoPooling\"");
    reveal_strlit("\"Mean\"");
    reveal_strlit("\"Cls\"");
    reveal_strlit("\"Last\"");
    reveal_strlit("\"Rank\"");
    let t = spec_encode_pooling(p) + rest;
    match p {
        PoolingType::Unspecified => {
            lemma_strip_concat("\"Unspecified\""@, rest);
        },
        PoolingType::NoPooling => {
            assert(t[1] == 'N');
            lemma_strip_fail_at(t, "\"Unspecified\""@, 1);
            lemma_strip_concat("\"NoPooling\""@, rest);
        },
        PoolingType::Mean => {
            assert(t[1] == 'M');
            lemma_strip_fail_at(t, "\"Unspecified\""@, 1);
            lemma_strip_fail_at(t, "\"NoPooling\""@, 1);
            lemma_strip_concat("\"Mean\""@, rest);
        },
        PoolingType::Cls => {
            assert(t[1] == 'C');
            lemma_strip_fail_at(t, "\"Unspecified\""@, 1);
            lemma_strip_fail_at(t, "\"NoPooling\""@, 1);
            lemma_strip_fail_at(t, "\"Mean\""@, 1);
            lemma_strip_concat("\"Cls\""@, rest);
        },
        PoolingType::Last => {
            assert(t[1] == 'L');
            lemma_strip_fail_at(t, "\"Unspecified\""@, 1);
            lemma_strip_fail_at(t, "\"NoPooling\""@, 1);
            lemma_strip_fail_at(t, "\"Mean\""@, 1);
            lemma_strip_fail_at(t, "\"Cls\""@, 1);
            lemma_strip_concat("\"Last\""@, rest);
        },
        PoolingType::Rank => {
            assert(t[1] == 'R');
            lemma_strip_fail_at(t, "\"Unspecified\""@, 1);
            lemma_strip_fail_at(t, "\"NoPooling\""@, 1);
            lemma_strip_fail_at(t, "\"Mean\""@, 1);
            lemma_strip_fail_at(t, "\"Cls\""@, 1);
            lemma_strip_fail_at(t, "\"Last\""@, 1);
            lemma_strip_concat("\"Rank\""@, rest);
        },
    }
}

/// The canonical form of an embedding vector with its provenance.
pub open spec fn spec_encode_embedding(e: EmbeddingView) -> Seq<char> {
    "{\"embedding\":"@ + spec_encode_u32_array(e.embedding) + ",\"normalization_method\":"@
        + spec_encode_method(e.normalization_method) + ",\"pooling_type\":"@
        + spec_encode_pooling(e.pooling_type) + ",\"source_document_id\":"@ + spec_json_string(
        e.source_document_id,
    ) + "}"@
}

/// Decode an embedding object.
pub open spec fn spec_decode_embedding(t: Seq<char>) -> Option<(EmbeddingView, Seq<char>)> {
    match spec_strip(t, "{\"embedding\":"@) {
        Some(t1) => match spec_decode_u32_array(t1) {
            Some(p1) => match spec_strip(p1.1, ",\"normalization_method\":"@) {
                Some(t2) => match spec_decode_method(t2) {
                    Some(p2) => match spec_strip(p2.1, ",\"pooling_type\":"@) {
                        Some(t3) => match spec_decode_pooling(t3) {
                            Some(p3) => match spec_strip(p3.1, ",\"source_document_id\":"@) {
                                Some(t4) => match spec_decode_string(t4) {
                                    Some(p4) => match spec_strip(p4.1, "}"@) {
                                        Some(t5) => Some(
                                            (
                                                EmbeddingView {
                                                    embedding: p1.0,
                                                    normalization_method: p2.0,
                                                    pooling_type: p3.0,
                                                    source_document_id: p4.0,
                                                },
                                                t5,
                                            ),
                                        ),
                                        None => None,
                                    },
                                    None => None,
                                },
                                None => None,
                            },
                            None => None,
                        },
                        None => None,
                    },
                    None => None,
                },
                None => None,
            },
            None => None,
        },
        None => None,
    }
}

/// Law: decoding a canonical embedding yields the original.
pub proof fn lemma_decode_embedding(e: EmbeddingView, rest: Seq<char>)
    ensures
        spec_decode_embedding(spec_encode_embedding(e) + rest) == Some((e, rest)),
{
    reveal_strlit(",\"normalization_method\":");
    reveal_strlit(",\"pooling_type\":");
    reveal_strlit(",\"source_document_id\":");
    reveal_strlit("}");
    let k1 = "{\"embedding\":"@;
    let k2 = ",\"normalization_method\":"@;
    let k3 = ",\"pooling_type\":"@;
    let k4 = ",\"source_document_id\":"@;
    let e1 = spec_encode_u32_array(e.embedding);
    let e2 = spec_encode_method(e.normalization_method);
    let e3 = spec_encode_pooling(e.pooling_type);
    let e4 = spec_json_string(e.source_document_id);
    let t = spec_encode_embedding(e) + rest;
    let r1 = e1 + (k2 + (e2 + (k3 + (e3 + (k4 + (e4 + ("}"@ + rest)))))));
    assert(t =~= k1 + r1);
    lemma_strip_concat(k1, r1);
    lemma_decode_u32_array(e.embedding, k2 + (e2 + (k3 + (e3 + (k4 + (e4 + ("}"@ + rest)))))));
    lemma_strip_concat(k2, e2 + (k3 + (e3 + (k4 + (e4 + ("}"@ + rest))))));
    lemma_decode_method(e.normalization_method, k3 + (e3 + (k4 + (e4 + ("}"@ + rest)))));
    lemma_strip_concat(k3, e3 + (k4 + (e4 + ("}"@ + rest))));
    lemma_decode_pooling(e.pooling_type, k4 + (e4 + ("}"@ + rest)));
    lemma_strip_concat(k4, e4 + ("}"@ + rest));
    lemma_decode_string(e.source_document_id, "}"@ + rest);
    lemma_strip_concat("}"@, rest);
}

/// The canonical form of an embedding stream element.
pub open spec fn spec_encode_embedding_result(r: EmbeddingResultView) -> Seq<char> {
    match r {
        EmbeddingResultView::Embedding(e) => "{\"Embedding\":"@ + spec_encode_embedding(e)
            + "}"@,
        EmbeddingResultView::Done => "\"Done\""@,
        EmbeddingResultView::Error(e) => "{\"Error\":"@ + spec_json_string(e) + "}"@,
    }
}

/// Decode an embedding stream element.
pub open spec fn spec_decode_embedding_result(t: Seq<char>) -> Option<(
    EmbeddingResultView,
    Seq<char>,
)> {
    match spec_strip(t, "\"Done\""@) {
        Some(t1) => Some((EmbeddingResultView::Done, t1)),
        None => match spec_strip(t, "{\"Embedding\":"@) {
            Some(t1) => match spec_decode_embedding(t1) {
                Some(p) => match spec_strip(p.1, "}"@) {
                    Some(t2) => Some((EmbeddingResultView::Embedding(p.0), t2)),
                    None => None,
                },
                None => None,
            },
            None => match spec_strip(t, "{\"Error\":"@) {
                Some(t1) => match spec_decode_string(t1) {
                    Some(p) => match spec_strip(p.1, "}"@) {
                        Some(t2) => Some((EmbeddingResultView::Error(p.0), t2)),
                        None => None,
                    },
                    None => None,
                },
                None => None,
            },
        },
    }
}

/// Law: decoding a canonical embedding stream element yields the
/// original.
pub proof fn lemma_decode_embedding_result(r: EmbeddingResultView, rest: Seq<char>)
    ensures
        spec_decode_embedding_result(spec_encode_embedding_result(r) + rest) == Some((r, rest)),
{
    reveal_strlit("\"Done\"");
    reveal_strlit("{\"Embedding\":");
    reveal_strlit("{\"Error\":");
    reveal_strlit("}");
    let t = spec_encode_embedding_result(r) + rest;
    match r {
        EmbeddingResultView::Done => {
            lemma_strip_concat("\"Done\""@, rest);
        },
        EmbeddingResultView::Embedding(e) => {
            assert(t[0] == '{');
            lemma_strip_fail_at(t, "\"Done\""@, 0);
            let k = "{\"Embedding\":"@;
            let r1 = spec_encode_embedding(e) + ("}"@ + rest);
            assert(t =~= k + r1);
            lemma_strip_concat(k, r1);
            lemma_decode_embedding(e, "}"@ + rest);
            lemma_strip_concat("}"@, rest);
        },
        EmbeddingResultView::Error(e) => {
            assert(t[0] == '{');
            lemma_strip_fail_at(t, "\"Done\""@, 0);
            assert(t[3] == 'r');
            lemma_strip_fail_at(t, "{\"Embedding\":"@, 3);
            let k = "{\"Error\":"@;
            let r1 = spec_json_string(e) + ("}"@ + rest);
            assert(t =~= k + r1);
            lemma_strip_concat(k, r1);
            lemma_decode_string(e, "}"@ + rest);
            lemma_strip_concat("}"@, rest);
        },
    }
}

/// The canonical form of a token stream element.
pub open spec fn spec_encode_token_result(r: GeneratedTokenResultView) -> Seq<char> {
    match r {
        GeneratedTokenResultView::Token(s) => "{\"Token\":"@ + spec_json_string(s) + "}"@,
        GeneratedTokenResultView::Done => "\"Done\""@,
    }
}

/// Decode a token stream element.
pub open spec fn spec_decode_token_result(t: Seq<char>) -> Option<(
    GeneratedTokenResultView,
    Seq<char>,
)> {
    match spec_strip(t, "\"Done\""@) {
        Some(t1) => Some((GeneratedTokenResultView::Done, t1)),
        None => match spec_strip(t, "{\"Token\":"@) {
            Some(t1) => match spec_decode_string(t1) {
                Some(p) => match spec_strip(p.1, "}"@) {
                    Some(t2) => Some((GeneratedTokenResultView::Token(p.0), t2)),
                    None => None,
                },
                None => None,
            },
            None => None,
        },
    }
}

/// Law: decoding a canonical token stream element yields the original.
pub proof fn lemma_decode_token_result(r: GeneratedTokenResultView, rest: Seq<char>)
    ensures
        spec_decode_token_result(spec_encode_token_result(r) + rest) == Some((r, rest)),
{
    reveal_strlit("\"Done\"");
    reveal_strlit("{\"Token\":");
    reveal_strlit("}");
    let t = spec_encode_token_result(r) + rest;
    match r {
        GeneratedTokenResultView::Done => {
            lemma_strip_concat("\"Done\""@, rest);
        },
        GeneratedTokenResultView::Token(s) => {
            assert(t[0] == '{');
            lemma_strip_fail_at(t, "\"Done\""@, 0);
            let k = "{\"Token\":"@;
            let r1 = spec_json_string(s) + ("}"@ + rest);
            assert(t =~= k + r1);
            lemma_strip_concat(k, r1);
            lemma_decode_string(s, "}"@ + rest);
            lemma_strip_concat("}"@, rest);
        },
    }
}

/// The canonical form of a response payload.
pub open spec fn spec_encode_response(r: ResponseView) -> Seq<char> {
    match r {
        ResponseView::Embedding(er) => "{\"Embedding\":"@ + spec_encode_embedding_result(er)
            + "}"@,
        ResponseView::GeneratedToken(tr) => "{\"GeneratedToken\":"@ + spec_encode_token_result(
            tr,
        ) + "}"@,
        ResponseView::Timeout => "\"Timeout\""@,
        ResponseView::TooManyBufferedRequests => "\"TooManyBufferedRequests\""@,
    }
}

/// Decode a response payload.
pub open spec fn spec_decode_response(t: Seq<char>) -> Option<(ResponseView, Seq<char>)> {
    match spec_strip(t, "\"Timeout\""@) {
        Some(t1) => Some((ResponseView::Timeout, t1)),
        None => match spec_strip(t, "\"TooManyBufferedRequests\""@) {
            Some(t1) => Some((ResponseView::TooManyBufferedRequests, t1)),
            None => match spec_strip(t, "{\"Embedding\":"@) {
                Some(t1) => match spec_decode_embedding_result(t1) {
                    Some(p) => match spec_strip(p.1, "}"@) {
                        Some(t2) => Some((ResponseView::Embedding(p.0), t2)),
                        None => None,
                    },
                    None => None,
                },
                None => match spec_strip(t, "{\"GeneratedToken\":"@) {
                    Some(t1) => match spec_decode_token_result(t1) {
                        Some(p) => match spec_strip(p.1, "}"@) {
                            Some(t2) => Some((ResponseView::GeneratedToken(p.0), t2)),
                            None => None,
                        },
                        None => None,
                    },
                    None => None,
                },
            },
        },
    }
}

/// Law: decoding a canonical response payload yields the original.
pub proof fn lemma_decode_response(r: ResponseView, rest: Seq<char>)
    ensures
        spec_decode_response(spec_encode_response(r) + rest) == Some((r, rest)),
{
    reveal_strlit("\"Timeout\"");
    reveal_strlit("\"TooManyBufferedRequests\"");
    reveal_strlit("{\"Embedding\":");
    reveal_strlit("{\"GeneratedToken\":");
    reveal_strlit("}");
    let t = spec_encode_response(r) + rest;
    match r {
        ResponseView::Timeout => {
            lemma_strip_concat("\"Timeout\""@, rest);
        },
        ResponseView::TooManyBufferedRequests => {
            assert(t[2] == 'o');
            lemma_strip_fail_at(t, "\"Timeout\""@, 2);
            lemma_strip_concat("\"TooManyBufferedRequests\""@, rest);
        },
        ResponseView::Embedding(er) => {
            assert(t[0] == '{');
            lemma_strip_fail_at(t, "\"Timeout\""@, 0);
            lemma_strip_fail_at(t, "\"TooManyBufferedRequests\""@, 0);
            let k = "{\"Embedding\":"@;
            let r1 = spec_encode_embedding_result(er) + ("}"@ + rest);
            assert(t =~= k + r1);
            lemma_strip_concat(k, r1);
            lemma_decode_embedding_result(er, "}"@ + rest);
            lemma_strip_concat("}"@, rest);
        },
        ResponseView::GeneratedToken(tr) => {
            assert(t[0] == '{');
            lemma_strip_fail_at(t, "\"Timeout\""@, 0);
            lemma_strip_fail_at(t, "\"TooManyBufferedRequests\""@, 0);
            assert(t[2] == 'G');
            lemma_strip_fail_at(t, "{\"Embedding\":"@, 2);
            let k = "{\"GeneratedToken\":"@;
            let r1 = spec_encode_token_result(tr) + ("}"@ + rest);
            assert(t =~= k + r1);
            lemma_strip_concat(k, r1);
            lemma_decode_token_result(tr, "}"@ + rest);
            lemma_strip_concat("}"@, rest);
        },
    }
}

/// The canonical form of an optional request id.
pub open spec fn spec_encode_opt_id(id: Option<Seq<char>>) -> Seq<char> {
    match id {
        Some(s) => spec_json_string(s),
        None => "null"@,
    }
}

/// Decode an optional request id.
pub open spec fn spec_decode_opt_id(t: Seq<char>) -> Option<(Option<Seq<char>>, Seq<char>)> {
    match spec_strip(t, "null"@) {
        Some(t1) => Some((None, t1)),
        None => match spec_decode_string(t) {
            Some(p) => Some((Some(p.0), p.1)),
            None => None,
        },
    }
}

/// Law: decoding a canonical optional id yields the original.
pub proof fn lemma_decode_opt_id(id: Option<Seq<char>>, rest: Seq<char>)
    ensures
        spec_decode_opt_id(spec_encode_opt_id(id) + rest) == Some((id, rest)),
{
    reveal_strlit("null");
    let t = spec_encode_opt_id(id) + rest;
    match id {
        None => {
            lemma_strip_concat("null"@, rest);
        },
        Some(s) => {
            assert(t[0] == '"');
            lemma_strip_fail_at(t, "null"@, 0);
            lemma_decode_string(s, rest);
        },
    }
}

/// The canonical form of an error envelope.
pub open spec fn spec_encode_error_envelope(e: ErrorEnvelopeView) -> Seq<char> {
    "{\"request_id\":"@ + spec_encode_opt_id(e.request_id) + ",\"error\":{\"code\":"@
        + spec_encode_i32(e.error.code) + ",\"description\":"@ + spec_json_string(
        e.error.description,
    ) + "}}"@
}

/// Decode an error envelope.
pub open spec fn spec_decode_error_envelope(t: Seq<char>) -> Option<(
    ErrorEnvelopeView,
    Seq<char>,
)> {
    match spec_strip(t, "{\"request_id\":"@) {
        Some(t1) => match spec_decode_opt_id(t1) {
            Some(p1) => match spec_strip(p1.1, ",\"error\":{\"code\":"@) {
                Some(t2) => match spec_decode_i32(t2) {
                    Some(p2) => match spec_strip(p2.1, ",\"description\":"@) {
                        Some(t3) => match spec_decode_string(t3) {
                            Some(p3) => match spec_strip(p3.1, "}}"@) {
                                Some(t4) => Some(
                                    (
                                        ErrorEnvelopeView {
                                            request_id: p1.0,
                                            error: JsonRpcErrorView {
                                                code: p2.0,
                                                description: p3.0,
                                            },
                                        },
                                        t4,
                                    ),
                                ),
                                None => None,
                            },
                            None => None,
                        },
                        None => None,
                    },
                    None => None,
                },
                None => None,
            },
            None => None,
        },
        None => None,
    }
}

/// Law: decoding a canonical error envelope yields the original, for
/// every code in `i32` range.
pub proof fn lemma_decode_error_envelope(e: ErrorEnvelopeView, rest: Seq<char>)
    requires
        i32::MIN <= e.error.code <= i32::MAX,
    ensures
        spec_decode_error_envelope(spec_encode_error_envelope(e) + rest) == Some((e, rest)),
{
    reveal_strlit(",\"error\":{\"code\":");
    reveal_strlit(",\"description\":");
    reveal_strlit("}}");
    let k1 = "{\"request_id\":"@;
    let k2 = ",\"error\":{\"code\":"@;
    let k3 = ",\"description\":"@;
    let e1 = spec_encode_opt_id(e.request_id);
    let e2 = spec_encode_i32(e.error.code);
    let e3 = spec_json_string(e.error.description);
    let t = spec_encode_error_envelope(e) + rest;
    let r1 = e1 + (k2 + (e2 + (k3 + (e3 + ("}}"@ + rest)))));
    assert(t =~= k1 + r1);
    lemma_strip_concat(k1, r1);
    lemma_decode_opt_id(e.request_id, k2 + (e2 + (k3 + (e3 + ("}}"@ + rest)))));
    lemma_strip_concat(k2, e2 + (k3 + (e3 + ("}}"@ + rest))));
    lemma_decode_i32(e.error.code, k3 + (e3 + ("}}"@ + rest)));
    lemma_strip_concat(k3, e3 + ("}}"@ + rest));
    lemma_decode_string(e.error.description, "}}"@ + rest);
    lemma_strip_concat("}}"@, rest);
}

/// The canonical single-line form of one streamed message, as a tagged
/// union suitable for a WebSocket text frame or one NDJSON line.
pub open spec fn spec_encode_message(m: MessageView) -> Seq<char> {
    match m {
        MessageView::Error(e) => "{\"Error\":"@ + spec_encode_error_envelope(e) + "}"@,
        MessageView::Response(re) => "{\"Response\":{\"request_id\":"@ + spec_json_string(
            re.request_id,
        ) + ",\"response\":"@ + spec_encode_response(re.response) + "}}"@,
    }
}

/// Decode one streamed message.
pub open spec fn spec_decode_message(t: Seq<char>) -> Option<(MessageView, Seq<char>)> {
    match spec_strip(t, "{\"Error\":"@) {
        Some(t1) => match spec_decode_error_envelope(t1) {
            Some(p) => match spec_strip(p.1, "}"@) {
                Some(t2) => Some((MessageView::Error(p.0), t2)),
                None => None,
            },
            None => None,
        },
        None => match spec_strip(t, "{\"Response\":{\"request_id\":"@) {
            Some(t1) => match spec_decode_string(t1) {
                Some(p1) => match spec_strip(p1.1, ",\"response\":"@) {
                    Some(t2) => match spec_decode_response(t2) {
                        Some(p2) => match spec_strip(p2.1, "}}"@) {
                            Some(t3) => Some(
                                (
                                    MessageView::Response(
                                        ResponseEnvelopeView {
                                            request_id: p1.0,
                                            response: p2.0,
                                        },
                                    ),
                                    t3,
                                ),
                            ),
                            None => None,
                        },
                        None => None,
                    },
                    None => None,
                },
                None => None,
            },
            None => None,
        },
    }
}

/// Law: the envelope codec round-trips. Encoding any streamed message
/// and decoding the result yields the original, with nothing left over.
pub proof fn lemma_decode_message(m: MessageView, rest: Seq<char>)
    requires
        m matches MessageView::Error(e) ==> i32::MIN <= e.error.code <= i32::MAX,
    ensures
        spec_decode_message(spec_encode_message(m) + rest) == Some((m, rest)),
{
    reveal_strlit("{\"Error\":");
    reveal_strlit("{\"Response\":{\"request_id\":");
    reveal_strlit(",\"response\":");
    reveal_strlit("}");
    reveal_strlit("}}");
    let t = spec_encode_message(m) + rest;
    match m {
        MessageView::Error(e) => {
            let k = "{\"Error\":"@;
            let r1 = spec_encode_error_envelope(e) + ("}"@ + rest);
            assert(t =~= k + r1);
            lemma_strip_concat(k, r1);
            lemma_decode_error_envelope(e, "}"@ + rest);
            lemma_strip_concat("}"@, rest);
        },
        MessageView::Response(re) => {
            assert(t[2] == 'R');
            lemma_strip_fail_at(t, "{\"Error\":"@, 2);
            let k1 = "{\"Response\":{\"request_id\":"@;
            let k2 = ",\"response\":"@;
            let e1 = spec_json_string(re.request_id);
            let e2 = spec_encode_response(re.response);
            let r1 = e1 + (k2 + (e2 + ("}}"@ + rest)));
            assert(t =~= k1 + r1);
            lemma_strip_concat(k1, r1);
            lemma_decode_string(re.request_id, k2 + (e2 + ("}}"@ + rest)));
            lemma_strip_concat(k2, e2 + ("}}"@ + rest));
            lemma_decode_response(re.response, "}}"@ + rest);
            lemma_strip_concat("}}"@, rest);
        },
    }
}


fn push_method(out: &mut Vec<char>, m: &EmbeddingNormalizationMethod)
    ensures
        final(out)@ == old(out)@ + spec_encode_method(*m),
{
    match m {
        EmbeddingNormalizationMethod::L2 => push_lit(out, "\"L2\""),
        EmbeddingNormalizationMethod::NoNormalization => push_lit(out, "\"NoNormalization\""),
        EmbeddingNormalizationMethod::RmsNorm { epsilon_bits } => {
            push_lit(out, "{\"RmsNorm\":{\"epsilon_bits\":");
            push_u64(out, *epsilon_bits as u64);
            push_lit(out, "}}");
            proof {
                assert(out@ =~= old(out)@ + spec_encode_method(*m));
            }
        },
    }
}

fn push_pooling(out: &mut Vec<char>, p: &PoolingType)
    ensures
        final(out)@ == old(out)@ + spec_encode_pooling(*p),
{
    match p {
        PoolingType::Unspecified => push_lit(out, "\"Unspecified\""),
        PoolingType::NoPooling => push_lit(out, "\"NoPooling\""),
        PoolingType::Mean => push_lit(out, "\"Mean\""),
        PoolingType::Cls => push_lit(out, "\"Cls\""),
        PoolingType::Last => push_lit(out, "\"Last\""),
        PoolingType::Rank => push_lit(out, "\"Rank\""),
    }
}

fn push_embedding(out: &mut Vec<char>, e: &Embedding)
    ensures
        final(out)@ == old(out)@ + spec_encode_embedding(e@),
{
    push_lit(out, "{\"embedding\":");
    push_u32_array(out, &e.embedding);
    push_lit(out, ",\"normalization_method\":");
    push_method(out, &e.normalization_method);
    push_lit(out, ",\"pooling_type\":");
    push_pooling(out, &e.pooling_type);
    push_lit(out, ",\"source_document_id\":");
    let id_chars = chars_of(e.source_document_id.as_str());
    push_json_string(out, &id_chars);
    push_lit(out, "}");
    proof {
        assert(out@ =~= old(out)@ + spec_encode_embedding(e@));
    }
}

pub(crate) fn push_embedding_result(out: &mut Vec<char>, r: &EmbeddingResult)
    ensures
        final(out)@ == old(out)@ + spec_encode_embedding_result(r@),
{
    match r {
        EmbeddingResult::Embedding(e) => {
            push_lit(out, "{\"Embedding\":");
            push_embedding(out, e);
            push_lit(out, "}");
        },
        EmbeddingResult::Done => push_lit(out, "\"Done\""),
        EmbeddingResult::Error(e) => {
            push_lit(out, "{\"Error\":");
            let e_chars = chars_of(e.as_str());
            push_json_string(out, &e_chars);
            push_lit(out, "}");
        },
    }
    proof {
        assert(out@ =~= old(out)@ + spec_encode_embedding_result(r@));
    }
}

pub(crate) fn push_token_result(out: &mut Vec<char>, r: &GeneratedTokenResult)
    ensures
        final(out)@ == old(out)@ + spec_encode_token_result(r@),
{
    match r {
        GeneratedTokenResult::Token(s) => {
            push_lit(out, "{\"Token\":");
            let s_chars = chars_of(s.as_str());
            push_json_string(out, &s_chars);
            push_lit(out, "}");
        },
        GeneratedTokenResult::Done => push_lit(out, "\"Done\""),
    }
    proof {
        assert(out@ =~= old(out)@ + spec_encode_token_result(r@));
    }
}

fn push_response(out: &mut Vec<char>, r: &Response)
    ensures
        final(out)@ == old(out)@ + spec_encode_response(r@),
{
    match r {
        Response::Embedding(er) => {
            push_lit(out, "{\"Embedding\":");
            push_embedding_result(out, er);
            push_lit(out, "}");
        },
        Response::GeneratedToken(tr) => {
            push_lit(out, "{\"GeneratedToken\":");
            push_token_result(out, tr);
            push_lit(out, "}");
        },
        Response::Timeout => push_lit(out, "\"Timeout\""),
        Response::TooManyBufferedRequests => push_lit(out, "\"TooManyBufferedRequests\""),
    }
    proof {
        assert(out@ =~= old(out)@ + spec_encode_response(r@));
    }
}

pub(crate) fn push_error_envelope(out: &mut Vec<char>, e: &ErrorEnvelope)
    ensures
        final(out)@ == old(out)@ + spec_encode_error_envelope(e@),
{
    push_lit(out, "{\"request_id\":");
    match &e.request_id {
        Some(id) => {
            let id_chars = chars_of(id.as_str());
            push_json_string(out, &id_chars);
        },
        None => push_lit(out, "null"),
    }
    push_lit(out, ",\"error\":{\"code\":");
    push_i32(out, e.error.code);
    push_lit(out, ",\"description\":");
    let d_chars = chars_of(e.error.description.as_str());
    push_json_string(out, &d_chars);
    push_lit(out, "}}");
    proof {
        assert(out@ =~= old(out)@ + spec_encode_error_envelope(e@));
    }
}

/// Encode one streamed message as a single line, suitable for a WebSocket
/// text frame or one NDJSON line.
pub fn encode_message(m: &Message) -> (r: String)
    ensures
        r@ == spec_encode_message(m@),
{
    let mut out: Vec<char> = Vec::new();
    match m {
        Message::Error(envelope) => {
            push_lit(&mut out, "{\"Error\":");
            push_error_envelope(&mut out, envelope);
            push_lit(&mut out, "}");
        },
        Message::Response(envelope) => {
            push_lit(&mut out, "{\"Response\":{\"request_id\":");
            let id_chars = chars_of(envelope.request_id.as_str());
            push_json_string(&mut out, &id_chars);
            push_lit(&mut out, ",\"response\":");
            push_response(&mut out, &envelope.response);
            push_lit(&mut out, "}}");
        },
    }
    proof {
        assert(out@ =~= spec_encode_message(m@));
    }
    string_of(&out)
}

fn dec_method(t: &Vec<char>, from: usize) -> (r: Option<(EmbeddingNormalizationMethod, usize)>)
    requires
        from <= t@.len(),
    ensures
        match r {
            Some(p) => {
                &&& from <= p.1 <= t@.len()
                &&& spec_decode_method(t@.skip(from as int)) == Some((p.0, t@.skip(p.1 as int)))
            },
            None => spec_decode_method(t@.skip(from as int)) is None,
        },
{
    if let Some(j) = strip_lit(t, from, "\"L2\"") {
        return Some((EmbeddingNormalizationMethod::L2, j));
    }
    if let Some(j) = strip_lit(t, from, "\"NoNormalization\"") {
        return Some((EmbeddingNormalizationMethod::NoNormalization, j));
    }
    let j1 = match strip_lit(t, from, "{\"RmsNorm\":{\"epsilon_bits\":") {
        Some(j) => j,
        None => {
            return None;
        },
    };
    let (v, j2) = match decode_number(t, j1) {
        Some(p) => p,
        None => {
            return None;
        },
    };
    if v > u32::MAX as u64 {
        return None;
    }
    let j3 = match strip_lit(t, j2, "}}") {
        Some(j) => j,
        None => {
            return None;
        },
    };
    Some((EmbeddingNormalizationMethod::RmsNorm { epsilon_bits: v as u32 }, j3))
}

fn dec_pooling(t: &Vec<char>, from: usize) -> (r: Option<(PoolingType, usize)>)
    requires
        from <= t@.len(),
    ensures
        match r {
            Some(p) => {
                &&& from <= p.1 <= t@.len()
                &&& spec_decode_pooling(t@.skip(from as int)) == Some((p.0, t@.skip(p.1 as int)))
            },
            None => spec_decode_pooling(t@.skip(from as int)) is None,
        },
{
    if let Some(j) = strip_lit(t, from, "\"Unspecified\"") {
        return Some((PoolingType::Unspecified, j));
    }
    if let Some(j) = strip_lit(t, from, "\"NoPooling\"") {
        return Some((PoolingType::NoPooling, j));
    }
    if let Some(j) = strip_lit(t, from, "\"Mean\"") {
        return Some((PoolingType::Mean, j));
    }
    if let Some(j) = strip_lit(t, from, "\"Cls\"") {
        return Some((PoolingType::Cls, j));
    }
    if let Some(j) = strip_lit(t, from, "\"Last\"") {
        return Some((PoolingType::Last, j));
    }
    if let Some(j) = strip_lit(t, from, "\"Rank\"") {
        return Some((PoolingType::Rank, j));
    }
    None
}

fn dec_embedding(t: &Vec<char>, from: usize) -> (r: Option<(Embedding, usize)>)
    requires
        from <= t@.len(),
    ensures
        match r {
            Some(p) => {
                &&& from <= p.1 <= t@.len()
                &&& spec_decode_embedding(t@.skip(from as int)) == Some(
                    (p.0@, t@.skip(p.1 as int)),
                )
            },
            None => spec_decode_embedding(t@.skip(from as int)) is None,
        },
{
    let j1 = match strip_lit(t, from, "{\"embedding\":") {
        Some(j) => j,
        None => {
            return None;
        },
    };
    let (components, j2) = match decode_u32_array(t, j1) {
        Some(p) => p,
        None => {
            return None;
        },
    };
    let j3 = match strip_lit(t, j2, ",\"normalization_method\":") {
        Some(j) => j,
        None => {
            return None;
        },
    };
    let (method, j4) = match dec_method(t, j3) {
        Some(p) => p,
        None => {
            return None;
        },
    };
    let j5 = match strip_lit(t, j4, ",\"pooling_type\":") {
        Some(j) => j,
        None => {
            return None;
        },
    };
    let (pooling, j6) = match dec_pooling(t, j5) {
        Some(p) => p,
        None => {
            return None;
        },
    };
    let j7 = match strip_lit(t, j6, ",\"source_document_id\":") {
        Some(j) => j,
        None => {
            return None;
        },
    };
    let (id, j8) = match decode_string(t, j7) {
        Some(p) => p,
        None => {
            return None;
        },
    };
    let j9 = match strip_lit(t, j8, "}") {
        Some(j) => j,
        None => {
            return None;
        },
    };
    Some(
        (
            Embedding {
                embedding: components,
                normalization_method: method,
                pooling_type: pooling,
                source_document_id: string_of(&id),
            },
            j9,
        ),
    )
}

pub(crate) fn dec_embedding_result(t: &Vec<char>, from: usize) -> (r: Option<(EmbeddingResult, usize)>)
    requires
        from <= t@.len(),
    ensures
        match r {
            Some(p) => {
                &&& from <= p.1 <= t@.len()
                &&& spec_decode_embedding_result(t@.skip(from as int)) == Some(
                    (p.0@, t@.skip(p.1 as int)),
                )
            },
            None => spec_decode_embedding_result(t@.skip(from as int)) is None,
        },
{
    if let Some(j) = strip_lit(t, from, "\"Done\"") {
        return Some((EmbeddingResult::Done, j));
    }
    if let Some(j1) = strip_lit(t, from, "{\"Embedding\":") {
        let (embedding, j2) = match dec_embedding(t, j1) {
            Some(p) => p,
            None => {
                return None;
            },
        };
        let j3 = match strip_lit(t, j2, "}") {
            Some(j) => j,
            None => {
                return None;
            },
        };
        return Some((EmbeddingResult::Embedding(embedding), j3));
    }
    let j1 = match strip_lit(t, from, "{\"Error\":") {
        Some(j) => j,
        None => {
            return None;
        },
    };
    let (description, j2) = match decode_string(t, j1) {
        Some(p) => p,
        None => {
            return None;
        },
    };
    let j3 = match strip_lit(t, j2, "}") {
        Some(j) => j,
        None => {
            return None;
        },
    };
    Some((EmbeddingResult::Error(string_of(&description)), j3))
}

pub(crate) fn dec_token_result(t: &Vec<char>, from: usize) -> (r: Option<(GeneratedTokenResult, usize)>)
    requires
        from <= t@.len(),
    ensures
        match r {
            Some(p) => {
                &&& from <= p.1 <= t@.len()
                &&& spec_decode_token_result(t@.skip(from as int)) == Some(
                    (p.0@, t@.skip(p.1 as int)),
                )
            },
            None => spec_decode_token_result(t@.skip(from as int)) is None,
        },
{
    if let Some(j) = strip_lit(t, from, "\"Done\"") {
        return Some((GeneratedTokenResult::Done, j));
    }
    let j1 = match strip_lit(t, from, "{\"Token\":") {
        Some(j) => j,
        None => {
            return None;
        },
    };
    let (token, j2) = match decode_string(t, j1) {
        Some(p) => p,
        None => {
            return None;
        },
    };
    let j3 = match strip_lit(t, j2, "}") {
        Some(j) => j,
        None => {
            return None;
        },
    };
    Some((GeneratedTokenResult::Token(string_of(&token)), j3))
}

fn dec_response(t: &Vec<char>, from: usize) -> (r: Option<(Response, usize)>)
    requires
        from <= t@.len(),
    ensures
        match r {
            Some(p) => {
                &&& from <= p.1 <= t@.len()
                &&& spec_decode_response(t@.skip(from as int)) == Some(
                    (p.0@, t@.skip(p.1 as int)),
                )
            },
            None => spec_decode_response(t@.skip(from as int)) is None,
        },
{
    if let Some(j) = strip_lit(t, from, "\"Timeout\"") {
        return Some((Response::Timeout, j));
    }
    if let Some(j) = strip_lit(t, from, "\"TooManyBufferedRequests\"") {
        return Some((Response::TooManyBufferedRequests, j));
    }
    if let Some(j1) = strip_lit(t, from, "{\"Embedding\":") {
        let (er, j2) = match dec_embedding_result(t, j1) {
            Some(p) => p,
            None => {
                return None;
            },
        };
        let j3 = match strip_lit(t, j2, "}") {
            Some(j) => j,
            None => {
                return None;
            },
        };
        return Some((Response::Embedding(er), j3));
    }
    let j1 = match strip_lit(t, from, "{\"GeneratedToken\":") {
        Some(j) => j,
        None => {
            return None;
        },
    };
    let (tr, j2) = match dec_token_result(t, j1) {
        Some(p) => p,
        None => {
            return None;
        },
    };
    let j3 = match strip_lit(t, j2, "}") {
        Some(j) => j,
        None => {
            return None;
        },
    };
    Some((Response::GeneratedToken(tr), j3))
}

pub(crate) fn dec_error_envelope(t: &Vec<char>, from: usize) -> (r: Option<(ErrorEnvelope, usize)>)
    requires
        from <= t@.len(),
    ensures
        match r {
            Some(p) => {
                &&& from <= p.1 <= t@.len()
                &&& spec_decode_error_envelope(t@.skip(from as int)) == Some(
                    (p.0@, t@.skip(p.1 as int)),
                )
            },
            None => spec_decode_error_envelope(t@.skip(from as int)) is None,
        },
{
    let j1 = match strip_lit(t, from, "{\"request_id\":") {
        Some(j) => j,
        None => {
            return None;
        },
    };
    let (request_id, j2) = match strip_lit(t, j1, "null") {
        Some(j) => (None, j),
        None => match decode_string(t, j1) {
            Some((id, j)) => (Some(string_of(&id)), j),
            None => {
                return None;
            },
        },
    };
    let j3 = match strip_lit(t, j2, ",\"error\":{\"code\":") {
        Some(j) => j,
        None => {
            return None;
        },
    };
    let (code, j4) = match decode_i32(t, j3) {
        Some(p) => p,
        None => {
            return None;
        },
    };
    let j5 = match strip_lit(t, j4, ",\"description\":") {
        Some(j) => j,
        None => {
            return None;
        },
    };
    let (description, j6) = match decode_string(t, j5) {
        Some(p) => p,
        None => {
            return None;
        },
    };
    let j7 = match strip_lit(t, j6, "}}") {
        Some(j) => j,
        None => {
            return None;
        },
    };
    Some(
        (
            ErrorEnvelope {
                request_id,
                error: JsonRpcError { code, description: string_of(&description) },
            },
            j7,
        ),
    )
}

/// Decode one streamed message. Succeeds exactly on the canonical
/// single-line form with nothing trailing; anything else, unknown fields
/// included, is rejected.
pub fn decode_message(input: &str) -> (r: Result<Message, Error>)
    ensures
        match r {
            Ok(m) => {
                &&& spec_decode_message(input@) matches Some(p)
                &&& spec_decode_message(input@) == Some((m@, Seq::<char>::empty()))
            },
            Err(_) => !(spec_decode_message(input@) matches Some(p) && p.1.len() == 0),
        },
{
    let t = chars_of(input);
    proof {
        assert(t@.skip(0) =~= input@);
    }
    if let Some(j1) = strip_lit(&t, 0, "{\"Error\":") {
        let (envelope, j2) = match dec_error_envelope(&t, j1) {
            Some(p) => p,
            None => {
                return Err(Error::Json(input.to_owned()));
            },
        };
        let j3 = match strip_lit(&t, j2, "}") {
            Some(j) => j,
            None => {
                return Err(Error::Json(input.to_owned()));
            },
        };
        if j3 == t.len() {
            proof {
                assert(t@.skip(j3 as int) =~= Seq::<char>::empty());
            }
            return Ok(Message::Error(envelope));
        }
        proof {
            assert(t@.skip(j3 as int).len() > 0);
        }
        return Err(Error::Json(input.to_owned()));
    }
    let j1 = match strip_lit(&t, 0, "{\"Response\":{\"request_id\":") {
        Some(j) => j,
        None => {
            return Err(Error::Json(input.to_owned()));
        },
    };
    let (request_id, j2) = match decode_string(&t, j1) {
        Some(p) => p,
        None => {
            return Err(Error::Json(input.to_owned()));
        },
    };
    let j3 = match strip_lit(&t, j2, ",\"response\":") {
        Some(j) => j,
        None => {
            return Err(Error::Json(input.to_owned()));
        },
    };
    let (response, j4) = match dec_response(&t, j3) {
        Some(p) => p,
        None => {
            return Err(Error::Json(input.to_owned()));
        },
    };
    let j5 = match strip_lit(&t, j4, "}}") {
        Some(j) => j,
        None => {
            return Err(Error::Json(input.to_owned()));
        },
    };
    if j5 == t.len() {
        proof {
            assert(t@.skip(j5 as int) =~= Seq::<char>::empty());
        }
        Ok(
            Message::Response(
                ResponseEnvelope { request_id: string_of(&request_id), response },
            ),
        )
    } else {
        proof {
            assert(t@.skip(j5 as int).len() > 0);
        }
        Err(Error::Json(input.to_owned()))
    }
}

/// Law: the envelope codec round-trips at top level: encoding any message
/// and decoding the result yields the original, and only it.
pub proof fn lemma_message_round_trip(m: MessageView)
    requires
        m matches MessageView::Error(e) ==> i32::MIN <= e.error.code <= i32::MAX,
    ensures
        spec_decode_message(spec_encode_message(m)) == Some((m, Seq::<char>::empty())),
{
    lemma_decode_message(m, Seq::<char>::empty());
    assert(spec_encode_message(m) + Seq::<char>::empty() =~= spec_encode_message(m));
}

} // verus!
