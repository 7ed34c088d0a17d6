//! The persisted state file: a single JSON document holding the declared
//! balancer state and a schema version.

use vstd::prelude::*;

use crate::codec::decode_string;
use crate::codec::lemma_decode_state;
use crate::codec::lemma_decode_string;
use crate::codec::lemma_strip_concat;
use crate::codec::push_json_string;
use crate::codec::push_lit;
use crate::codec::spec_decode_state;
use crate::codec::spec_decode_string;
use crate::codec::spec_encode_state;
use crate::codec::spec_json_string;
use crate::codec::spec_strip;
use crate::codec::strip_lit;
use crate::error::Error;
use crate::state::BalancerDesiredState;
use crate::state::BalancerDesiredStateView;
use crate::text::chars_of;
use crate::text::string_of;

verus! {

/// The version written when a persisted file carries none.
pub fn default_version() -> (r: String)
    ensures
        r@ == "1"@,
{
    "1".to_owned()
}

/// The contents of the persisted state file.
#[derive(Debug, PartialEq, Eq)]
pub struct Schema {
    pub balancer_desired_state: BalancerDesiredState,
    pub version: String,
}

/// The mathematical content of a [`Schema`].
pub struct SchemaView {
    pub balancer_desired_state: BalancerDesiredStateView,
    pub version: Seq<char>,
}

impl View for Schema {
    type V = SchemaView;

    open spec fn view(&self) -> SchemaView {
        SchemaView {
            balancer_desired_state: self.balancer_desired_state@,
            version: self.version@,
        }
    }
}

/// The canonical form of the persisted file; the version is always
/// written.
pub open spec fn spec_encode_schema(s: SchemaView) -> Seq<char> {
    "{\"balancer_desired_state\":"@ + spec_encode_state(s.balancer_desired_state)
        + ",\"version\":"@ + spec_json_string(s.version) + "}"@
}

/// Decode the persisted file. A file without the version field gets
/// version `1`.
pub open spec fn spec_decode_schema(t: Seq<char>) -> Option<(SchemaView, Seq<char>)> {
    match spec_strip(t, "{\"balancer_desired_state\":"@) {
        Option::Some(t1) => match spec_decode_state(t1) {
            Option::Some(p1) => match spec_strip(p1.1, ",\"version\":"@) {
                Option::Some(t2) => match spec_decode_string(t2) {
                    Option::Some(p2) => match spec_strip(p2.1, "}"@) {
                        Option::Some(t3) => Option::Some(
                            (
                                SchemaView {
                                    balancer_desired_state: p1.0,
                                    version: p2.0,
                                },
                                t3,
                            ),
                        ),
                        Option::None => Option::None,
                    },
                    Option::None => Option::None,
                },
                Option::None => match spec_strip(p1.1, "}"@) {
                    Option::Some(t2) => Option::Some(
                        (
                            SchemaView { balancer_desired_state: p1.0, version: "1"@ },
                            t2,
                        ),
                    ),
                    Option::None => Option::None,
                },
            },
            Option::None => Option::None,
        },
        Option::None => Option::None,
    }
}

/// Law: the persisted file round-trips: encoding a schema and decoding
/// the result yields the original, version included.
pub proof fn lemma_decode_schema(s: SchemaView, rest: Seq<char>)
    ensures
        spec_decode_schema(spec_encode_schema(s) + rest) == Some((s, rest)),
{
    reveal_strlit(",\"version\":");
    reveal_strlit("}");
    let k1 = "{\"balancer_desired_state\":"@;
    let k2 = ",\"version\":"@;
    let t = spec_encode_schema(s) + rest;
    let r1 = spec_encode_state(s.balancer_desired_state) + (k2 + (spec_json_string(s.version) + (
    "}"@ + rest)));
    assert(t =~= k1 + r1);
    lemma_strip_concat(k1, r1);
    lemma_decode_state(s.balancer_desired_state, k2 + (spec_json_string(s.version) + ("}"@
        + rest)));
    lemma_strip_concat(k2, spec_json_string(s.version) + ("}"@ + rest));
    lemma_decode_string(s.version, "}"@ + rest);
    lemma_strip_concat("}"@, rest);
}

impl Schema {
    /// Encode this file in its canonical single-line JSON form.
    pub fn encode(&self) -> (r: String)
        ensures
            r@ == spec_encode_schema(self@),
    {
        let mut out: Vec<char> = Vec::new();
        push_lit(&mut out, "{\"balancer_desired_state\":");
        let body = crate::codec::encode_balancer_desired_state(&self.balancer_desired_state);
        let body_chars = chars_of(body.as_str());
        crate::text::push_chars(&mut out, &body_chars);
        push_lit(&mut out, ",\"version\":");
        let version_chars = chars_of(self.version.as_str());
        push_json_string(&mut out, &version_chars);
        push_lit(&mut out, "}");
        proof {
            assert(out@ =~= spec_encode_schema(self@));
        }
        string_of(&out)
    }

    /// Decode a persisted file. Succeeds exactly on the canonical form
    /// with nothing trailing; a missing version defaults to `1`, and any
    /// unknown field is rejected.
    pub fn decode(input: &str) -> (r: Result<Schema, Error>)
        ensures
            match r {
                Ok(s) => {
                    &&& spec_decode_schema(input@) matches Some(p)
                    &&& spec_decode_schema(input@) == Some((s@, Seq::<char>::empty()))
                },
                Err(_) => !(spec_decode_schema(input@) matches Some(p) && p.1.len() == 0),
            },
    {
        let t = chars_of(input);
        proof {
            assert(t@.skip(0) =~= input@);
        }
        let j1 = match strip_lit(&t, 0, "{\"balancer_desired_state\":") {
            Option::Some(j) => j,
            Option::None => {
                return Err(Error::Json(input.to_owned()));
            },
        };
        let (state, j2) = match crate::codec::dec_state(&t, j1) {
            Option::Some(p) => p,
            Option::None => {
                return Err(Error::Json(input.to_owned()));
            },
        };
        let (version, j3) = match strip_lit(&t, j2, ",\"version\":") {
            Option::Some(jv) => {
                match decode_string(&t, jv) {
                    Option::Some((v, jn)) => (string_of(&v), jn),
                    Option::None => {
                        return Err(Error::Json(input.to_owned()));
                    },
                }
            },
            Option::None => (default_version(), j2),
        };
        let j4 = match strip_lit(&t, j3, "}") {
            Option::Some(j) => j,
            Option::None => {
                return Err(Error::Json(input.to_owned()));
            },
        };
        if j4 == t.len() {
            proof {
                assert(t@.skip(j4 as int) =~= Seq::<char>::empty());
            }
            Ok(Schema { balancer_desired_state: state, version })
        } else {
            proof {
                assert(t@.skip(j4 as int).len() > 0);
            }
            Err(Error::Json(input.to_owned()))
        }
    }
}

/// Law: a canonical persisted file decodes to its schema, with nothing
/// left over.
pub proof fn lemma_schema_round_trip(s: SchemaView)
    ensures
        spec_decode_schema(spec_encode_schema(s)) == Some((s, Seq::<char>::empty())),
{
    lemma_decode_schema(s, Seq::<char>::empty());
    assert(spec_encode_schema(s) + Seq::<char>::empty() =~= spec_encode_schema(s));
}

} // verus!
