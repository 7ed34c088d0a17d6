//! The wire codec for declared state: canonical JSON, encoded and decoded
//! by verified functions, with decoding proved to invert encoding.
//!
//! The encoder writes one canonical single-line form: fields in declaration
//! order, no whitespace. The decoder accepts exactly that form — its
//! contract says decoding succeeds precisely when the whole input parses
//! as the canonical encoding — so a document with an unknown field, at
//! any nesting depth, is rejected, and so is one with reordered fields or
//! extra whitespace. Producers that are not this encoder must emit the
//! canonical form.

use vstd::prelude::*;

use crate::json::digits_value;
use crate::json::is_digit;
use crate::json::lemma_digit_run_bounds;
use crate::json::lemma_parse_escape;
use crate::json::lemma_parse_u64_digits;
use crate::json::lemma_u64_digits;
use crate::json::matches_lit;
use crate::json::parse_string_body;
use crate::json::parse_u64;
use crate::json::push_escaped;
use crate::json::push_u64;
use crate::json::spec_digit_run_end;
use crate::json::spec_escape;
use crate::json::spec_parse_string_body;
use crate::json::spec_u64_digits;
use crate::state::AgentDesiredModel;
use crate::state::AgentDesiredModelView;
use crate::state::BalancerDesiredState;
use crate::state::BalancerDesiredStateView;
use crate::state::ChatTemplate;
use crate::state::HuggingFaceModelReference;
use crate::state::HuggingFaceModelReferenceView;
use crate::state::InferenceParameters;
use crate::error::Error;
use crate::text::chars_of;
use crate::text::string_of;

verus! {

/// Strip an expected literal from the front of `t`.
pub open spec fn spec_strip(t: Seq<char>, lit: Seq<char>) -> Option<Seq<char>> {
    if lit.len() <= t.len() && t.take(lit.len() as int) == lit {
        Some(t.skip(lit.len() as int))
    } else {
        None
    }
}

/// Stripping a literal off itself leaves the rest.
pub proof fn lemma_strip_concat(lit: Seq<char>, rest: Seq<char>)
    ensures
        spec_strip(lit + rest, lit) == Some(rest),
{
    assert((lit + rest).take(lit.len() as int) =~= lit);
    assert((lit + rest).skip(lit.len() as int) =~= rest);
}

/// Stripping fails when the text disagrees with the literal at some index.
pub proof fn lemma_strip_fail_at(t: Seq<char>, lit: Seq<char>, k: int)
    requires
        0 <= k < lit.len(),
        t.len() <= k || t[k] != lit[k],
    ensures
        spec_strip(t, lit) is None,
{
    if lit.len() <= t.len() && t.take(lit.len() as int) == lit {
        assert(t.take(lit.len() as int)[k] == t[k]);
    }
}

/// Parse a JSON string literal (quotes included) from the front of `t`.
pub open spec fn spec_decode_string(t: Seq<char>) -> Option<(Seq<char>, Seq<char>)> {
    if t.len() >= 1 && t[0] == '"' {
        match spec_parse_string_body(t.skip(1)) {
            Some(p) => Some((p.0, t.skip(1 + p.1))),
            None => None,
        }
    } else {
        None
    }
}

/// The canonical JSON string literal for `s`.
pub open spec fn spec_json_string(s: Seq<char>) -> Seq<char> {
    seq!['"'] + spec_escape(s) + seq!['"'] + Seq::<char>::empty()
}

/// Law: decoding a canonical string literal yields the original string.
pub proof fn lemma_decode_string(s: Seq<char>, rest: Seq<char>)
    ensures
        spec_decode_string(spec_json_string(s) + rest) == Some((s, rest)),
{
    let t = spec_json_string(s) + rest;
    assert(t[0] == '"');
    assert(t.skip(1) =~= spec_escape(s) + seq!['"'] + rest);
    lemma_parse_escape(s, rest);
    let consumed = spec_escape(s).len() + 1int;
    assert(spec_parse_string_body(t.skip(1)) == Some((s, consumed)));
    assert(t.skip(1 + consumed) =~= rest);
}

/// Parse an unsigned decimal from the front of `t`, `u64`-bounded.
pub open spec fn spec_decode_number(t: Seq<char>) -> Option<(nat, Seq<char>)> {
    let end = spec_digit_run_end(t, 0);
    if end == 0 {
        None
    } else {
        let v = digits_value(t.take(end));
        if v > u64::MAX {
            None
        } else {
            Some((v, t.skip(end)))
        }
    }
}

/// Law: decoding canonical digits yields the original number, as long as
/// what follows does not begin with a digit.
pub proof fn lemma_decode_number(n: nat, rest: Seq<char>)
    requires
        n <= u64::MAX,
        rest.len() == 0 || !is_digit(rest[0]),
    ensures
        spec_decode_number(spec_u64_digits(n) + rest) == Some((n, rest)),
{
    let d = spec_u64_digits(n);
    let t = d + rest;
    lemma_u64_digits(n);
    assert(t.subrange(0, d.len() as int) =~= d);
    lemma_parse_u64_digits(t, 0, n);
    assert(spec_digit_run_end(t, 0) == d.len());
    assert(d.len() > 0);
    assert(t.take(d.len() as int) == t.subrange(0, d.len() as int));
    assert(t.skip(d.len() as int) =~= rest);
}

/// Parse a JSON boolean from the front of `t`.
pub open spec fn spec_decode_bool(t: Seq<char>) -> Option<(bool, Seq<char>)> {
    match spec_strip(t, "true"@) {
        Some(rest) => Some((true, rest)),
        None => match spec_strip(t, "false"@) {
            Some(rest) => Some((false, rest)),
            None => None,
        },
    }
}

/// The canonical JSON boolean.
pub open spec fn spec_json_bool(b: bool) -> Seq<char> {
    if b {
        "true"@
    } else {
        "false"@
    }
}

/// Law: decoding a canonical boolean yields the original.
pub proof fn lemma_decode_bool(b: bool, rest: Seq<char>)
    ensures
        spec_decode_bool(spec_json_bool(b) + rest) == Some((b, rest)),
{
    reveal_strlit("true");
    reveal_strlit("false");
    if b {
        lemma_strip_concat("true"@, rest);
    } else {
        let t = "false"@ + rest;
        lemma_strip_fail_at(t, "true"@, 0);
        lemma_strip_concat("false"@, rest);
    }
}

/// Strip an expected literal at `from`; the index just past it on success.
pub fn strip_lit(t: &Vec<char>, from: usize, lit: &str) -> (r: Option<usize>)
    requires
        from <= t@.len(),
    ensures
        match r {
            Some(j) => {
                &&& from <= j <= t@.len()
                &&& j == from + lit@.len()
                &&& spec_strip(t@.skip(from as int), lit@) == Some(t@.skip(j as int))
            },
            None => spec_strip(t@.skip(from as int), lit@) is None,
        },
{
    let l = chars_of(lit);
    let tlen = t.len();
    if matches_lit(t, from, lit) {
        proof {
            let tail = t@.skip(from as int);
            assert(from + l@.len() <= tlen);
            assert(tail.take(lit@.len() as int) =~= t@.subrange(
                from as int,
                from + lit@.len(),
            ));
            assert(tail.skip(lit@.len() as int) =~= t@.skip(from + lit@.len()));
        }
        Some(from + l.len())
    } else {
        proof {
            let tail = t@.skip(from as int);
            if lit@.len() <= tail.len() && tail.take(lit@.len() as int) == lit@ {
                assert(t@.subrange(from as int, from + lit@.len()) =~= tail.take(
                    lit@.len() as int,
                ));
            }
        }
        None
    }
}

/// Decode a JSON string literal at `from`: its content and the index just
/// past the closing quote.
pub fn decode_string(t: &Vec<char>, from: usize) -> (r: Option<(Vec<char>, usize)>)
    requires
        from <= t@.len(),
    ensures
        match r {
            Some(p) => {
                &&& from < p.1 <= t@.len()
                &&& spec_decode_string(t@.skip(from as int)) == Some(
                    (p.0@, t@.skip(p.1 as int)),
                )
            },
            None => spec_decode_string(t@.skip(from as int)) is None,
        },
{
    let ghost tail = t@.skip(from as int);
    if from >= t.len() {
        return None;
    }
    if t[from] != '"' {
        proof {
            assert(tail[0] == t@[from as int]);
        }
        return None;
    }
    proof {
        assert(tail[0] == '"');
        assert(tail.skip(1) =~= t@.skip(from + 1));
    }
    match parse_string_body(t, from + 1) {
        Some((content, end)) => {
            proof {
                let p = spec_parse_string_body(tail.skip(1)).unwrap();
                assert(p.1 == end - (from + 1));
                assert(tail.skip(1 + p.1) =~= t@.skip(end as int));
            }
            Some((content, end))
        },
        None => None,
    }
}

/// Decode an unsigned decimal at `from`, bounded by `u64`.
pub fn decode_number(t: &Vec<char>, from: usize) -> (r: Option<(u64, usize)>)
    requires
        from <= t@.len(),
    ensures
        match r {
            Some(p) => {
                &&& from < p.1 <= t@.len()
                &&& spec_decode_number(t@.skip(from as int)) == Some(
                    (p.0 as nat, t@.skip(p.1 as int)),
                )
            },
            None => spec_decode_number(t@.skip(from as int)) is None,
        },
{
    let ghost tail = t@.skip(from as int);
    proof {
        lemma_run_end_shift(t@, from as int);
    }
    match parse_u64(t, from) {
        Some((v, end)) => {
            proof {
                assert(tail.take(end - from as int) =~= t@.subrange(from as int, end as int));
                assert(tail.skip(end - from as int) =~= t@.skip(end as int));
            }
            Some((v, end))
        },
        None => {
            proof {
                if from < t@.len() && is_digit(t@[from as int]) {
                    lemma_digit_run_bounds(t@, from as int);
                    lemma_digit_run_bounds(tail, 0);
                    assert(tail.take(spec_digit_run_end(tail, 0)) =~= t@.subrange(
                        from as int,
                        spec_digit_run_end(t@, from as int),
                    ));
                }
            }
            None
        },
    }
}

/// The digit run of a suffix mirrors the digit run of the whole text.
proof fn lemma_run_end_shift(t: Seq<char>, from: int)
    requires
        0 <= from <= t.len(),
    ensures
        spec_digit_run_end(t.skip(from), 0) == spec_digit_run_end(t, from) - from,
{
    lemma_run_end_shift_rec(t, from, from);
}

proof fn lemma_run_end_shift_rec(t: Seq<char>, from: int, at: int)
    requires
        0 <= from <= at <= t.len(),
    ensures
        spec_digit_run_end(t.skip(from), at - from) == spec_digit_run_end(t, at) - from,
    decreases t.len() - at,
{
    let tail = t.skip(from);
    if at < t.len() && is_digit(t[at]) {
        assert(tail[at - from] == t[at]);
        lemma_run_end_shift_rec(t, from, at + 1);
    } else {
        if at - from < tail.len() {
            assert(tail[at - from] == t[at]);
        }
    }
}

/// Decode a JSON boolean at `from`.
pub fn decode_bool(t: &Vec<char>, from: usize) -> (r: Option<(bool, usize)>)
    requires
        from <= t@.len(),
    ensures
        match r {
            Some(p) => {
                &&& from <= p.1 <= t@.len()
                &&& spec_decode_bool(t@.skip(from as int)) == Some((p.0, t@.skip(p.1 as int)))
            },
            None => spec_decode_bool(t@.skip(from as int)) is None,
        },
{
    match strip_lit(t, from, "true") {
        Some(j) => Some((true, j)),
        None => match strip_lit(t, from, "false") {
            Some(j) => Some((false, j)),
            None => None,
        },
    }
}

/// Append a literal to the output.
pub fn push_lit(out: &mut Vec<char>, lit: &str)
    ensures
        final(out)@ == old(out)@ + lit@,
{
    let l = chars_of(lit);
    let mut i: usize = 0;
    proof {
        assert(out@ =~= old(out)@ + l@.take(0));
    }
    while i < l.len()
        invariant
            l@ == lit@,
            i <= l@.len(),
            out@ == old(out)@ + l@.take(i as int),
        decreases l@.len() - i,
    {
        out.push(l[i]);
        proof {
            assert(l@.take(i + 1) =~= l@.take(i as int).push(l@[i as int]));
            assert(out@ =~= old(out)@ + l@.take(i + 1));
        }
        i = i + 1;
    }
    proof {
        assert(l@.take(l@.len() as int) =~= l@);
    }
}

/// Append the canonical JSON string literal for `s`.
pub fn push_json_string(out: &mut Vec<char>, s: &Vec<char>)
    ensures
        final(out)@ == old(out)@ + spec_json_string(s@),
{
    out.push('"');
    push_escaped(out, s);
    out.push('"');
    proof {
        assert(out@ =~= old(out)@ + spec_json_string(s@));
    }
}


/// The canonical form of a chat template: an object with its text.
pub open spec fn spec_encode_chat_template(content: Seq<char>) -> Seq<char> {
    "{\"content\":"@ + spec_json_string(content) + "}"@
}

/// The canonical form of an optional chat template override.
pub open spec fn spec_encode_opt_template(o: Option<Seq<char>>) -> Seq<char> {
    match o {
        Option::None => "null"@,
        Option::Some(c) => spec_encode_chat_template(c),
    }
}

/// The canonical form of the inference parameters.
pub open spec fn spec_encode_params(p: InferenceParameters) -> Seq<char> {
    "{\"batch_n_tokens\":"@ + spec_u64_digits(p.batch_n_tokens as nat) + ",\"context_size\":"@
        + spec_u64_digits(p.context_size as nat) + ",\"max_tokens\":"@ + spec_u64_digits(
        p.max_tokens as nat,
    ) + "}"@
}

/// The canonical form of the desired model reference.
pub open spec fn spec_encode_model(m: AgentDesiredModelView) -> Seq<char> {
    match m {
        AgentDesiredModelView::Unmanaged => "\"Unmanaged\""@,
        AgentDesiredModelView::HuggingFace(hf) => "{\"HuggingFace\":{\"filename\":"@
            + spec_json_string(hf.filename) + ",\"repo_id\":"@ + spec_json_string(hf.repo_id)
            + "}}"@,
        AgentDesiredModelView::LocalToAgent(path) => "{\"LocalToAgent\":"@ + spec_json_string(path)
            + "}"@,
    }
}

/// The canonical form of the whole declared state.
pub open spec fn spec_encode_state(v: BalancerDesiredStateView) -> Seq<char> {
    "{\"chat_template_override\":"@ + spec_encode_opt_template(v.chat_template_override)
        + ",\"inference_parameters\":"@ + spec_encode_params(v.inference_parameters)
        + ",\"model\":"@ + spec_encode_model(v.model) + ",\"use_chat_template_override\":"@
        + spec_json_bool(v.use_chat_template_override) + "}"@
}

/// Decode a chat template object.
pub open spec fn spec_decode_chat_template(t: Seq<char>) -> Option<(Seq<char>, Seq<char>)> {
    match spec_strip(t, "{\"content\":"@) {
        Option::Some(t1) => match spec_decode_string(t1) {
            Option::Some(p) => match spec_strip(p.1, "}"@) {
                Option::Some(t2) => Option::Some((p.0, t2)),
                Option::None => Option::None,
            },
            Option::None => Option::None,
        },
        Option::None => Option::None,
    }
}

/// Decode an optional chat template override.
pub open spec fn spec_decode_opt_template(t: Seq<char>) -> Option<(Option<Seq<char>>, Seq<char>)> {
    match spec_strip(t, "null"@) {
        Option::Some(t1) => Option::Some((Option::None, t1)),
        Option::None => match spec_decode_chat_template(t) {
            Option::Some(p) => Option::Some((Option::Some(p.0), p.1)),
            Option::None => Option::None,
        },
    }
}

/// Decode the inference parameters object.
pub open spec fn spec_decode_params(t: Seq<char>) -> Option<(InferenceParameters, Seq<char>)> {
    match spec_strip(t, "{\"batch_n_tokens\":"@) {
        Option::Some(t1) => match spec_decode_number(t1) {
            Option::Some(p1) => if p1.0 > u32::MAX as nat {
                Option::None
            } else {
                match spec_strip(p1.1, ",\"context_size\":"@) {
                    Option::Some(t2) => match spec_decode_number(t2) {
                        Option::Some(p2) => if p2.0 > u32::MAX as nat {
                            Option::None
                        } else {
                            match spec_strip(p2.1, ",\"max_tokens\":"@) {
                                Option::Some(t3) => match spec_decode_number(t3) {
                                    Option::Some(p3) => if p3.0 > u32::MAX as nat {
                                        Option::None
                                    } else {
                                        match spec_strip(p3.1, "}"@) {
                                            Option::Some(t4) => Option::Some(
                                                (
                                                    InferenceParameters {
                                                        batch_n_tokens: p1.0 as u32,
                                                        context_size: p2.0 as u32,
                                                        max_tokens: p3.0 as u32,
                                                    },
                                                    t4,
                                                ),
                                            ),
                                            Option::None => Option::None,
                                        }
                                    },
                                    Option::None => Option::None,
                                },
                                Option::None => Option::None,
                            }
                        },
                        Option::None => Option::None,
                    },
                    Option::None => Option::None,
                }
            },
            Option::None => Option::None,
        },
        Option::None => Option::None,
    }
}

/// Decode the desired model reference.
pub open spec fn spec_decode_model(t: Seq<char>) -> Option<(AgentDesiredModelView, Seq<char>)> {
    match spec_strip(t, "\"Unmanaged\""@) {
        Option::Some(t1) => Option::Some((AgentDesiredModelView::Unmanaged, t1)),
        Option::None => match spec_strip(t, "{\"HuggingFace\":{\"filename\":"@) {
            Option::Some(t1) => match spec_decode_string(t1) {
                Option::Some(p1) => match spec_strip(p1.1, ",\"repo_id\":"@) {
                    Option::Some(t2) => match spec_decode_string(t2) {
                        Option::Some(p2) => match spec_strip(p2.1, "}}"@) {
                            Option::Some(t3) => Option::Some(
                                (
                                    AgentDesiredModelView::HuggingFace(
                                        HuggingFaceModelReferenceView {
                                            filename: p1.0,
                                            repo_id: p2.0,
                                        },
                                    ),
                                    t3,
                                ),
                            ),
                            Option::None => Option::None,
                        },
                        Option::None => Option::None,
                    },
                    Option::None => Option::None,
                },
                Option::None => Option::None,
            },
            Option::None => match spec_strip(t, "{\"LocalToAgent\":"@) {
                Option::Some(t1) => match spec_decode_string(t1) {
                    Option::Some(p) => match spec_strip(p.1, "}"@) {
                        Option::Some(t2) => Option::Some(
                            (AgentDesiredModelView::LocalToAgent(p.0), t2),
                        ),
                        Option::None => Option::None,
                    },
                    Option::None => Option::None,
                },
                Option::None => Option::None,
            },
        },
    }
}

/// Decode the whole declared state object.
pub open spec fn spec_decode_state(t: Seq<char>) -> Option<(BalancerDesiredStateView, Seq<char>)> {
    match spec_strip(t, "{\"chat_template_override\":"@) {
        Option::Some(t1) => match spec_decode_opt_template(t1) {
            Option::Some(p1) => match spec_strip(p1.1, ",\"inference_parameters\":"@) {
                Option::Some(t2) => match spec_decode_params(t2) {
                    Option::Some(p2) => match spec_strip(p2.1, ",\"model\":"@) {
                        Option::Some(t3) => match spec_decode_model(t3) {
                            Option::Some(p3) => match spec_strip(
                                p3.1,
                                ",\"use_chat_template_override\":"@,
                            ) {
                                Option::Some(t4) => match spec_decode_bool(t4) {
                                    Option::Some(p4) => match spec_strip(p4.1, "}"@) {
                                        Option::Some(t5) => Option::Some(
                                            (
                                                BalancerDesiredStateView {
                                                    chat_template_override: p1.0,
                                                    inference_parameters: p2.0,
                                                    model: p3.0,
                                                    use_chat_template_override: p4.0,
                                                },
                                                t5,
                                            ),
                                        ),
                                        Option::None => Option::None,
                                    },
                                    Option::None => Option::None,
                                },
                                Option::None => Option::None,
                            },
                            Option::None => Option::None,
                        },
                        Option::None => Option::None,
                    },
                    Option::None => Option::None,
                },
                Option::None => Option::None,
            },
            Option::None => Option::None,
        },
        Option::None => Option::None,
    }
}

/// Law: decoding a canonical chat template yields the original.
pub proof fn lemma_decode_chat_template(content: Seq<char>, rest: Seq<char>)
    ensures
        spec_decode_chat_template(spec_encode_chat_template(content) + rest) == Some(
            (content, rest),
        ),
{
    let key = "{\"content\":"@;
    let t = spec_encode_chat_template(content) + rest;
    let x = spec_json_string(content) + ("}"@ + rest);
    assert(t =~= key + x);
    lemma_strip_concat(key, x);
    lemma_decode_string(content, "}"@ + rest);
    assert(spec_json_string(content) + ("}"@ + rest) =~= spec_json_string(content) + ("}"@
        + rest));
    lemma_strip_concat("}"@, rest);
}

/// Law: decoding a canonical optional template yields the original.
pub proof fn lemma_decode_opt_template(o: Option<Seq<char>>, rest: Seq<char>)
    ensures
        spec_decode_opt_template(spec_encode_opt_template(o) + rest) == Some((o, rest)),
{
    reveal_strlit("null");
    reveal_strlit("{\"content\":");
    match o {
        Option::None => {
            lemma_strip_concat("null"@, rest);
        },
        Option::Some(c) => {
            let t = spec_encode_chat_template(c) + rest;
            assert(t[0] == '{');
            lemma_strip_fail_at(t, "null"@, 0);
            lemma_decode_chat_template(c, rest);
        },
    }
}

/// Law: decoding canonical parameters yields the original.
pub proof fn lemma_decode_params(p: InferenceParameters, rest: Seq<char>)
    ensures
        spec_decode_params(spec_encode_params(p) + rest) == Some((p, rest)),
{
    reveal_strlit(",\"context_size\":");
    reveal_strlit(",\"max_tokens\":");
    reveal_strlit("}");
    let k1 = "{\"batch_n_tokens\":"@;
    let k2 = ",\"context_size\":"@;
    let k3 = ",\"max_tokens\":"@;
    let d1 = spec_u64_digits(p.batch_n_tokens as nat);
    let d2 = spec_u64_digits(p.context_size as nat);
    let d3 = spec_u64_digits(p.max_tokens as nat);
    let t = spec_encode_params(p) + rest;
    let r1 = d1 + (k2 + (d2 + (k3 + (d3 + ("}"@ + rest)))));
    assert(t =~= k1 + r1);
    lemma_strip_concat(k1, r1);
    lemma_decode_number(p.batch_n_tokens as nat, k2 + (d2 + (k3 + (d3 + ("}"@ + rest)))));
    lemma_strip_concat(k2, d2 + (k3 + (d3 + ("}"@ + rest))));
    lemma_decode_number(p.context_size as nat, k3 + (d3 + ("}"@ + rest)));
    lemma_strip_concat(k3, d3 + ("}"@ + rest));
    lemma_decode_number(p.max_tokens as nat, "}"@ + rest);
    lemma_strip_concat("}"@, rest);
}

/// Law: decoding a canonical model reference yields the original.
pub proof fn lemma_decode_model(m: AgentDesiredModelView, rest: Seq<char>)
    ensures
        spec_decode_model(spec_encode_model(m) + rest) == Some((m, rest)),
{
    reveal_strlit("\"Unmanaged\"");
    reveal_strlit("{\"HuggingFace\":{\"filename\":");
    reveal_strlit("{\"LocalToAgent\":");
    reveal_strlit(",\"repo_id\":");
    reveal_strlit("}}");
    reveal_strlit("}");
    let t = spec_encode_model(m) + rest;
    match m {
        AgentDesiredModelView::Unmanaged => {
            lemma_strip_concat("\"Unmanaged\""@, rest);
        },
        AgentDesiredModelView::HuggingFace(hf) => {
            assert(t[0] == '{');
            lemma_strip_fail_at(t, "\"Unmanaged\""@, 0);
            let k1 = "{\"HuggingFace\":{\"filename\":"@;
            let k2 = ",\"repo_id\":"@;
            let r1 = spec_json_string(hf.filename) + (k2 + (spec_json_string(hf.repo_id) + ("}}"@
                + rest)));
            assert(t =~= k1 + r1);
            lemma_strip_concat(k1, r1);
            lemma_decode_string(hf.filename, k2 + (spec_json_string(hf.repo_id) + ("}}"@ + rest)));
            lemma_strip_concat(k2, spec_json_string(hf.repo_id) + ("}}"@ + rest));
            lemma_decode_string(hf.repo_id, "}}"@ + rest);
            lemma_strip_concat("}}"@, rest);
        },
        AgentDesiredModelView::LocalToAgent(path) => {
            assert(t[0] == '{');
            lemma_strip_fail_at(t, "\"Unmanaged\""@, 0);
            let k1 = "{\"LocalToAgent\":"@;
            assert(t[2] == 'L');
            lemma_strip_fail_at(t, "{\"HuggingFace\":{\"filename\":"@, 2);
            let r1 = spec_json_string(path) + ("}"@ + rest);
            assert(t =~= k1 + r1);
            lemma_strip_concat(k1, r1);
            lemma_decode_string(path, "}"@ + rest);
            lemma_strip_concat("}"@, rest);
        },
    }
}

/// Law: decoding the canonical declared state yields the original, with
/// nothing left over.
#[verifier::rlimit(100)]
pub proof fn lemma_decode_state(v: BalancerDesiredStateView, rest: Seq<char>)
    ensures
        spec_decode_state(spec_encode_state(v) + rest) == Some((v, rest)),
{
    let k1 = "{\"chat_template_override\":"@;
    let k2 = ",\"inference_parameters\":"@;
    let k3 = ",\"model\":"@;
    let k4 = ",\"use_chat_template_override\":"@;
    let e1 = spec_encode_opt_template(v.chat_template_override);
    let e2 = spec_encode_params(v.inference_parameters);
    let e3 = spec_encode_model(v.model);
    let e4 = spec_json_bool(v.use_chat_template_override);
    let t = spec_encode_state(v) + rest;
    let r1 = e1 + (k2 + (e2 + (k3 + (e3 + (k4 + (e4 + ("}"@ + rest)))))));
    assert(t =~= k1 + r1);
    lemma_strip_concat(k1, r1);
    lemma_decode_opt_template(
        v.chat_template_override,
        k2 + (e2 + (k3 + (e3 + (k4 + (e4 + ("}"@ + rest)))))),
    );
    lemma_strip_concat(k2, e2 + (k3 + (e3 + (k4 + (e4 + ("}"@ + rest))))));
    lemma_decode_params(v.inference_parameters, k3 + (e3 + (k4 + (e4 + ("}"@ + rest)))));
    lemma_strip_concat(k3, e3 + (k4 + (e4 + ("}"@ + rest))));
    lemma_decode_model(v.model, k4 + (e4 + ("}"@ + rest)));
    lemma_strip_concat(k4, e4 + ("}"@ + rest));
    lemma_decode_bool(v.use_chat_template_override, "}"@ + rest);
    lemma_strip_concat("}"@, rest);
}


/// Append the canonical form of a chat template.
fn push_chat_template(out: &mut Vec<char>, t: &ChatTemplate)
    ensures
        final(out)@ == old(out)@ + spec_encode_chat_template(t@),
{
    push_lit(out, "{\"content\":");
    let content = chars_of(t.content.as_str());
    push_json_string(out, &content);
    push_lit(out, "}");
    proof {
        assert(out@ =~= old(out)@ + spec_encode_chat_template(t@));
    }
}

/// Append the canonical form of an optional chat template override.
pub(crate) fn push_opt_template(out: &mut Vec<char>, o: &Option<ChatTemplate>)
    ensures
        final(out)@ == old(out)@ + spec_encode_opt_template(
            match o {
                Option::Some(t) => Option::Some(t@),
                Option::None => Option::None,
            },
        ),
{
    match o {
        Option::Some(t) => push_chat_template(out, t),
        Option::None => push_lit(out, "null"),
    }
}

/// Append the canonical form of the inference parameters.
fn push_params(out: &mut Vec<char>, p: &InferenceParameters)
    ensures
        final(out)@ == old(out)@ + spec_encode_params(*p),
{
    push_lit(out, "{\"batch_n_tokens\":");
    push_u64(out, p.batch_n_tokens as u64);
    push_lit(out, ",\"context_size\":");
    push_u64(out, p.context_size as u64);
    push_lit(out, ",\"max_tokens\":");
    push_u64(out, p.max_tokens as u64);
    push_lit(out, "}");
    proof {
        assert(out@ =~= old(out)@ + spec_encode_params(*p));
    }
}

/// Append the canonical form of the desired model reference.
fn push_model(out: &mut Vec<char>, m: &AgentDesiredModel)
    ensures
        final(out)@ == old(out)@ + spec_encode_model(m@),
{
    match m {
        AgentDesiredModel::Unmanaged => {
            push_lit(out, "\"Unmanaged\"");
        },
        AgentDesiredModel::HuggingFace(hf) => {
            push_lit(out, "{\"HuggingFace\":{\"filename\":");
            let filename = chars_of(hf.filename.as_str());
            push_json_string(out, &filename);
            push_lit(out, ",\"repo_id\":");
            let repo_id = chars_of(hf.repo_id.as_str());
            push_json_string(out, &repo_id);
            push_lit(out, "}}");
        },
        AgentDesiredModel::LocalToAgent(path) => {
            push_lit(out, "{\"LocalToAgent\":");
            let path_chars = chars_of(path.as_str());
            push_json_string(out, &path_chars);
            push_lit(out, "}");
        },
    }
    proof {
        assert(out@ =~= old(out)@ + spec_encode_model(m@));
    }
}

/// Encode the declared state in its canonical single-line JSON form.
pub fn encode_balancer_desired_state(v: &BalancerDesiredState) -> (r: String)
    ensures
        r@ == spec_encode_state(v@),
{
    let mut out: Vec<char> = Vec::new();
    push_lit(&mut out, "{\"chat_template_override\":");
    push_opt_template(&mut out, &v.chat_template_override);
    push_lit(&mut out, ",\"inference_parameters\":");
    push_params(&mut out, &v.inference_parameters);
    push_lit(&mut out, ",\"model\":");
    push_model(&mut out, &v.model);
    push_lit(&mut out, ",\"use_chat_template_override\":");
    if v.use_chat_template_override {
        push_lit(&mut out, "true");
    } else {
        push_lit(&mut out, "false");
    }
    push_lit(&mut out, "}");
    proof {
        assert(out@ =~= spec_encode_state(v@));
    }
    string_of(&out)
}

/// Decode a chat template object at `from`.
fn dec_chat_template(t: &Vec<char>, from: usize) -> (r: Option<(ChatTemplate, usize)>)
    requires
        from <= t@.len(),
    ensures
        match r {
            Option::Some(p) => {
                &&& from <= p.1 <= t@.len()
                &&& spec_decode_chat_template(t@.skip(from as int)) == Some(
                    (p.0@, t@.skip(p.1 as int)),
                )
            },
            Option::None => spec_decode_chat_template(t@.skip(from as int)) is None,
        },
{
    let j1 = match strip_lit(t, from, "{\"content\":") {
        Option::Some(j) => j,
        Option::None => {
            return Option::None;
        },
    };
    let (content, j2) = match decode_string(t, j1) {
        Option::Some(p) => p,
        Option::None => {
            return Option::None;
        },
    };
    let j3 = match strip_lit(t, j2, "}") {
        Option::Some(j) => j,
        Option::None => {
            return Option::None;
        },
    };
    Option::Some((ChatTemplate { content: string_of(&content) }, j3))
}

/// Decode an optional chat template override at `from`.
pub(crate) fn dec_opt_template(t: &Vec<char>, from: usize) -> (r: Option<(Option<ChatTemplate>, usize)>)
    requires
        from <= t@.len(),
    ensures
        match r {
            Option::Some(p) => {
                &&& from <= p.1 <= t@.len()
                &&& spec_decode_opt_template(t@.skip(from as int)) == Some(
                    (
                        match p.0 {
                            Option::Some(ct) => Option::Some(ct@),
                            Option::None => Option::None,
                        },
                        t@.skip(p.1 as int),
                    ),
                )
            },
            Option::None => spec_decode_opt_template(t@.skip(from as int)) is None,
        },
{
    match strip_lit(t, from, "null") {
        Option::Some(j) => Option::Some((Option::None, j)),
        Option::None => match dec_chat_template(t, from) {
            Option::Some((ct, j)) => Option::Some((Option::Some(ct), j)),
            Option::None => Option::None,
        },
    }
}

/// Decode the inference parameters object at `from`.
fn dec_params(t: &Vec<char>, from: usize) -> (r: Option<(InferenceParameters, usize)>)
    requires
        from <= t@.len(),
    ensures
        match r {
            Option::Some(p) => {
                &&& from <= p.1 <= t@.len()
                &&& spec_decode_params(t@.skip(from as int)) == Some((p.0, t@.skip(p.1 as int)))
            },
            Option::None => spec_decode_params(t@.skip(from as int)) is None,
        },
{
    let j1 = match strip_lit(t, from, "{\"batch_n_tokens\":") {
        Option::Some(j) => j,
        Option::None => {
            return Option::None;
        },
    };
    let (v1, j2) = match decode_number(t, j1) {
        Option::Some(p) => p,
        Option::None => {
            return Option::None;
        },
    };
    if v1 > u32::MAX as u64 {
        return Option::None;
    }
    let j3 = match strip_lit(t, j2, ",\"context_size\":") {
        Option::Some(j) => j,
        Option::None => {
            return Option::None;
        },
    };
    let (v2, j4) = match decode_number(t, j3) {
        Option::Some(p) => p,
        Option::None => {
            return Option::None;
        },
    };
    if v2 > u32::MAX as u64 {
        return Option::None;
    }
    let j5 = match strip_lit(t, j4, ",\"max_tokens\":") {
        Option::Some(j) => j,
        Option::None => {
            return Option::None;
        },
    };
    let (v3, j6) = match decode_number(t, j5) {
        Option::Some(p) => p,
        Option::None => {
            return Option::None;
        },
    };
    if v3 > u32::MAX as u64 {
        return Option::None;
    }
    let j7 = match strip_lit(t, j6, "}") {
        Option::Some(j) => j,
        Option::None => {
            return Option::None;
        },
    };
    Option::Some(
        (
            InferenceParameters {
                batch_n_tokens: v1 as u32,
                context_size: v2 as u32,
                max_tokens: v3 as u32,
            },
            j7,
        ),
    )
}

/// Decode the desired model reference at `from`.
fn dec_model(t: &Vec<char>, from: usize) -> (r: Option<(AgentDesiredModel, usize)>)
    requires
        from <= t@.len(),
    ensures
        match r {
            Option::Some(p) => {
                &&& from <= p.1 <= t@.len()
                &&& spec_decode_model(t@.skip(from as int)) == Some((p.0@, t@.skip(p.1 as int)))
            },
            Option::None => spec_decode_model(t@.skip(from as int)) is None,
        },
{
    if let Option::Some(j) = strip_lit(t, from, "\"Unmanaged\"") {
        return Option::Some((AgentDesiredModel::Unmanaged, j));
    }
    if let Option::Some(j1) = strip_lit(t, from, "{\"HuggingFace\":{\"filename\":") {
        let (filename, j2) = match decode_string(t, j1) {
            Option::Some(p) => p,
            Option::None => {
                return Option::None;
            },
        };
        let j3 = match strip_lit(t, j2, ",\"repo_id\":") {
            Option::Some(j) => j,
            Option::None => {
                return Option::None;
            },
        };
        let (repo_id, j4) = match decode_string(t, j3) {
            Option::Some(p) => p,
            Option::None => {
                return Option::None;
            },
        };
        let j5 = match strip_lit(t, j4, "}}") {
            Option::Some(j) => j,
            Option::None => {
                return Option::None;
            },
        };
        return Option::Some(
            (
                AgentDesiredModel::HuggingFace(
                    HuggingFaceModelReference {
                        filename: string_of(&filename),
                        repo_id: string_of(&repo_id),
                    },
                ),
                j5,
            ),
        );
    }
    if let Option::Some(j1) = strip_lit(t, from, "{\"LocalToAgent\":") {
        let (path, j2) = match decode_string(t, j1) {
            Option::Some(p) => p,
            Option::None => {
                return Option::None;
            },
        };
        let j3 = match strip_lit(t, j2, "}") {
            Option::Some(j) => j,
            Option::None => {
                return Option::None;
            },
        };
        return Option::Some((AgentDesiredModel::LocalToAgent(string_of(&path)), j3));
    }
    Option::None
}

/// Decode the declared state object at `from`.
pub(crate) fn dec_state(t: &Vec<char>, from: usize) -> (r: Option<(BalancerDesiredState, usize)>)
    requires
        from <= t@.len(),
    ensures
        match r {
            Option::Some(p) => {
                &&& from <= p.1 <= t@.len()
                &&& spec_decode_state(t@.skip(from as int)) == Some((p.0@, t@.skip(p.1 as int)))
            },
            Option::None => spec_decode_state(t@.skip(from as int)) is None,
        },
{
    let j1 = match strip_lit(t, from, "{\"chat_template_override\":") {
        Option::Some(j) => j,
        Option::None => {
            return Option::None;
        },
    };
    let (cto, j2) = match dec_opt_template(t, j1) {
        Option::Some(p) => p,
        Option::None => {
            return Option::None;
        },
    };
    let j3 = match strip_lit(t, j2, ",\"inference_parameters\":") {
        Option::Some(j) => j,
        Option::None => {
            return Option::None;
        },
    };
    let (params, j4) = match dec_params(t, j3) {
        Option::Some(p) => p,
        Option::None => {
            return Option::None;
        },
    };
    let j5 = match strip_lit(t, j4, ",\"model\":") {
        Option::Some(j) => j,
        Option::None => {
            return Option::None;
        },
    };
    let (model, j6) = match dec_model(t, j5) {
        Option::Some(p) => p,
        Option::None => {
            return Option::None;
        },
    };
    let j7 = match strip_lit(t, j6, ",\"use_chat_template_override\":") {
        Option::Some(j) => j,
        Option::None => {
            return Option::None;
        },
    };
    let (use_cto, j8) = match decode_bool(t, j7) {
        Option::Some(p) => p,
        Option::None => {
            return Option::None;
        },
    };
    let j9 = match strip_lit(t, j8, "}") {
        Option::Some(j) => j,
        Option::None => {
            return Option::None;
        },
    };
    Option::Some(
        (
            BalancerDesiredState {
                chat_template_override: cto,
                inference_parameters: params,
                model,
                use_chat_template_override: use_cto,
            },
            j9,
        ),
    )
}

/// Decode a declared state document. Succeeds exactly on the canonical
/// form with nothing trailing; anything else, unknown fields included, is
/// rejected.
pub fn decode_balancer_desired_state(input: &str) -> (r: Result<BalancerDesiredState, Error>)
    ensures
        match r {
            Ok(v) => {
                &&& spec_decode_state(input@) matches Some(p)
                &&& spec_decode_state(input@) == Some((v@, Seq::<char>::empty()))
            },
            Err(_) => !(spec_decode_state(input@) matches Some(p) && p.1.len() == 0),
        },
{
    let t = chars_of(input);
    proof {
        assert(t@.skip(0) =~= input@);
    }
    match dec_state(&t, 0) {
        Option::Some((v, j)) => {
            if j == t.len() {
                proof {
                    assert(t@.skip(j as int) =~= Seq::<char>::empty());
                }
                Ok(v)
            } else {
                proof {
                    assert(t@.skip(j as int).len() > 0);
                }
                Err(Error::Json(input.to_owned()))
            }
        },
        Option::None => Err(Error::Json(input.to_owned())),
    }
}

/// Law: the codec round-trips. Encoding any declared state and decoding
/// the result yields the original state, and only it.
pub proof fn lemma_desired_state_round_trip(v: BalancerDesiredStateView)
    ensures
        spec_decode_state(spec_encode_state(v)) == Some((v, Seq::<char>::empty())),
{
    lemma_decode_state(v, Seq::<char>::empty());
    assert(spec_encode_state(v) + Seq::<char>::empty() =~= spec_encode_state(v));
}

} // verus!
