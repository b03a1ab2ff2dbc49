//! The JSON wire codec of the protocol.
//!
//! A pose snapshot travels as one JSON object in a fixed canonical shape:
//! `{"body":{"x":…,"y":…,"z":…,"w":…},"front_left_leg":{"shoulder":…,
//! "arm":…,"wrist":…},…}`; a command envelope as
//! `{"kind":"pose","data":{"body":{…}}}`. The encoder emits exactly that
//! shape; the reader demands it, byte for byte, apart from the number
//! tokens, which it reads as [`crate::numbers::spec_parse_angle`] does.
//! Anything else — an unknown discriminant, a reordered field, trailing
//! bytes — is rejected whole: no partial value ever comes back.

use vstd::prelude::*;

use crate::model::CommandEnvelope;
use crate::model::JointTriplet;
use crate::model::Orientation;
use crate::model::PoseSnapshot;
use crate::numbers::push_angle;
use crate::numbers::parse_angle;
use crate::numbers::spec_angle_bytes;
use crate::numbers::spec_parse_angle;
use crate::numbers::is_digit;
use crate::numbers::lemma_parse_angle_of_encoding;
use crate::tokens::push_tok_arm;
use crate::tokens::push_tok_bll;
use crate::tokens::push_tok_body_open;
use crate::tokens::push_tok_brl;
use crate::tokens::push_tok_cmd_open;
use crate::tokens::push_tok_fll;
use crate::tokens::push_tok_frl;
use crate::tokens::push_tok_qw;
use crate::tokens::push_tok_qy;
use crate::tokens::push_tok_qz;
use crate::tokens::push_tok_quat_open;
use crate::tokens::push_tok_trip_open;
use crate::tokens::push_tok_wrist;
use crate::tokens::tok_arm;
use crate::tokens::tok_bll;
use crate::tokens::tok_body_open;
use crate::tokens::tok_brl;
use crate::tokens::tok_cmd_open;
use crate::tokens::tok_fll;
use crate::tokens::tok_frl;
use crate::tokens::tok_qw;
use crate::tokens::tok_qy;
use crate::tokens::tok_qz;
use crate::tokens::tok_quat_open;
use crate::tokens::tok_trip_open;
use crate::tokens::tok_wrist;

verus! {

/// `tok` stands in `s` at position `i`.
pub open spec fn matches_at(s: Seq<u8>, i: int, tok: Seq<u8>) -> bool {
    0 <= i && i + tok.len() <= s.len() && s.subrange(i, i + tok.len()) == tok
}

/// Check `tok` at position `i`, returning the index just past it.
pub fn expect_bytes(s: &Vec<u8>, i: usize, tok: &Vec<u8>) -> (r: Option<usize>)
    ensures
        match r {
            Some(j) => matches_at(s@, i as int, tok@) && j as int == i + tok@.len() && j <= s.len(),
            None => !matches_at(s@, i as int, tok@),
        },
{
    if s.len() < tok.len() || s.len() - tok.len() < i {
        return None;
    }
    let mut k: usize = 0;
    while k < tok.len()
        invariant
            i + tok@.len() <= s@.len(),
            s@.len() <= usize::MAX as int,
            0 <= k <= tok@.len(),
            forall|t: int| 0 <= t < k ==> s@[i + t] == tok@[t],
        decreases tok@.len() - k,
    {
        if s[i + k] != tok[k] {
            proof {
                assert(s@.subrange(i as int, i + tok@.len())[k as int] == s@[i + k]);
            }
            return None;
        }
        k = k + 1;
    }
    proof {
        assert(s@.subrange(i as int, i + tok@.len()) =~= tok@);
    }
    Some(i + tok.len())
}

/// A subrange equal to a concatenation splits into a subrange for each part.
pub proof fn lemma_peel(s: Seq<u8>, i: int, a: Seq<u8>, b: Seq<u8>)
    requires
        0 <= i,
        i + a.len() + b.len() <= s.len(),
        s.subrange(i, i + a.len() + b.len()) == a + b,
    ensures
        s.subrange(i, i + a.len()) == a,
        s.subrange(i + a.len(), i + a.len() + b.len()) == b,
{
    assert(s.subrange(i, i + a.len()) =~= a) by {
        assert forall|t: int| 0 <= t < a.len() implies s.subrange(i, i + a.len())[t] == a[t] by {
            assert(s.subrange(i, i + a.len() + b.len())[t] == (a + b)[t]);
        }
    }
    assert(s.subrange(i + a.len(), i + a.len() + b.len()) =~= b) by {
        assert forall|t: int| 0 <= t < b.len() implies s.subrange(
            i + a.len(),
            i + a.len() + b.len(),
        )[t] == b[t] by {
            assert(s.subrange(i, i + a.len() + b.len())[a.len() + t] == (a + b)[a.len() + t]);
            assert(s.subrange(i, i + a.len() + b.len())[a.len() + t] == s[i + a.len() + t]);
            assert(s.subrange(i + a.len(), i + a.len() + b.len())[t] == s[i + a.len() + t]);
            assert((a + b)[a.len() + t] == b[t]);
        }
    }
}

/// The canonical bytes of one orientation object.
#[verifier::opaque]
pub open spec fn spec_quat_bytes(q: Orientation) -> Seq<u8> {
    tok_quat_open() + (spec_angle_bytes(q.x as int) + (tok_qy() + (spec_angle_bytes(q.y as int) + (
    tok_qz() + (spec_angle_bytes(q.z as int) + (tok_qw() + (spec_angle_bytes(q.w as int)
        + seq![125u8])))))))
}

/// Parse one orientation object at `i`.
pub open spec fn spec_parse_quat(s: Seq<u8>, i: int) -> Option<(Orientation, int)> {
    if matches_at(s, i, tok_quat_open()) {
        match spec_parse_angle(s, i + tok_quat_open().len()) {
            Some((x, i1)) => if matches_at(s, i1, tok_qy()) {
                match spec_parse_angle(s, i1 + tok_qy().len()) {
                    Some((y, i2)) => if matches_at(s, i2, tok_qz()) {
                        match spec_parse_angle(s, i2 + tok_qz().len()) {
                            Some((z, i3)) => if matches_at(s, i3, tok_qw()) {
                                match spec_parse_angle(s, i3 + tok_qw().len()) {
                                    Some((w, i4)) => if i4 < s.len() && s[i4] == 125u8 {
                                        Some(
                                            (
                                                Orientation {
                                                    x: x as i64,
                                                    y: y as i64,
                                                    z: z as i64,
                                                    w: w as i64,
                                                },
                                                i4 + 1,
                                            ),
                                        )
                                    } else {
                                        None
                                    },
                                    None => None,
                                }
                            } else {
                                None
                            },
                            None => None,
                        }
                    } else {
                        None
                    },
                    None => None,
                }
            } else {
                None
            },
            None => None,
        }
    } else {
        None
    }
}

/// Append the canonical bytes of `q`.
#[verifier::rlimit(100)]
pub fn encode_quat_into(out: &mut Vec<u8>, q: &Orientation)
    requires
        q.wf(),
    ensures
        final(out)@ == old(out)@ + spec_quat_bytes(*q),
{
    proof {
        reveal(spec_quat_bytes);
    }
    push_tok_quat_open(out);
    push_angle(out, q.x);
    push_tok_qy(out);
    push_angle(out, q.y);
    push_tok_qz(out);
    push_angle(out, q.z);
    push_tok_qw(out);
    push_angle(out, q.w);
    out.push(125);
    assert(final(out)@ =~= old(out)@ + spec_quat_bytes(*q));
}

/// Parse one orientation object at `i`, as [`spec_parse_quat`] reads it.
pub fn parse_quat(s: &Vec<u8>, i: usize) -> (r: Option<(Orientation, usize)>)
    requires
        i <= s.len(),
    ensures
        match r {
            Some((q, j)) => spec_parse_quat(s@, i as int) == Some((q, j as int)) && i <= j
                <= s.len() && q.wf(),
            None => spec_parse_quat(s@, i as int) is None,
        },
{
    let mut tk: Vec<u8> = Vec::new();
    push_tok_quat_open(&mut tk);
    assert(tk@ =~= tok_quat_open());
    let i0 = match expect_bytes(s, i, &tk) {
        Some(j) => j,
        None => {
            return None;
        },
    };
    let (x, i1) = match parse_angle(s, i0) {
        Some(v) => v,
        None => {
            return None;
        },
    };
    let mut tky: Vec<u8> = Vec::new();
    push_tok_qy(&mut tky);
    assert(tky@ =~= tok_qy());
    let i1b = match expect_bytes(s, i1, &tky) {
        Some(j) => j,
        None => {
            return None;
        },
    };
    let (y, i2) = match parse_angle(s, i1b) {
        Some(v) => v,
        None => {
            return None;
        },
    };
    let mut tkz: Vec<u8> = Vec::new();
    push_tok_qz(&mut tkz);
    assert(tkz@ =~= tok_qz());
    let i2b = match expect_bytes(s, i2, &tkz) {
        Some(j) => j,
        None => {
            return None;
        },
    };
    let (z, i3) = match parse_angle(s, i2b) {
        Some(v) => v,
        None => {
            return None;
        },
    };
    let mut tkw: Vec<u8> = Vec::new();
    push_tok_qw(&mut tkw);
    assert(tkw@ =~= tok_qw());
    let i3b = match expect_bytes(s, i3, &tkw) {
        Some(j) => j,
        None => {
            return None;
        },
    };
    let (w, i4) = match parse_angle(s, i3b) {
        Some(v) => v,
        None => {
            return None;
        },
    };
    if i4 < s.len() && s[i4] == 125 {
        Some((Orientation { x, y, z, w }, i4 + 1))
    } else {
        None
    }
}

/// Parsing the canonical bytes of a representable orientation, embedded at
/// `i`, yields it back and stops right after them.
#[verifier::rlimit(100)]
pub proof fn lemma_parse_quat_of_encoding(s: Seq<u8>, i: int, q: Orientation)
    requires
        q.wf(),
        0 <= i,
        i + spec_quat_bytes(q).len() <= s.len(),
        s.subrange(i, i + spec_quat_bytes(q).len()) == spec_quat_bytes(q),
    ensures
        spec_parse_quat(s, i) == Some((q, i + spec_quat_bytes(q).len())),
{
    reveal(spec_quat_bytes);
    let ax = spec_angle_bytes(q.x as int);
    let ay = spec_angle_bytes(q.y as int);
    let az = spec_angle_bytes(q.z as int);
    let aw = spec_angle_bytes(q.w as int);
    let c9 = seq![125u8];
    let c8 = aw + c9;
    let c7 = tok_qw() + c8;
    let c6 = az + c7;
    let c5 = tok_qz() + c6;
    let c4 = ay + c5;
    let c3 = tok_qy() + c4;
    let c2 = ax + c3;
    let e = tok_quat_open() + c2;
    assert(spec_quat_bytes(q) == e);
    let i0 = i + tok_quat_open().len();
    lemma_peel(s, i, tok_quat_open(), c2);
    let i1 = i0 + ax.len();
    lemma_peel(s, i0, ax, c3);
    assert(s[i1] == c3[0]) by {
        assert(s.subrange(i1, i1 + c3.len())[0] == c3[0]);
    }
    assert(!is_digit(s[i1]));
    lemma_parse_angle_of_encoding(s, i0, q.x as int);
    let i1b = i1 + tok_qy().len();
    lemma_peel(s, i1, tok_qy(), c4);
    let i2 = i1b + ay.len();
    lemma_peel(s, i1b, ay, c5);
    assert(s[i2] == c5[0]) by {
        assert(s.subrange(i2, i2 + c5.len())[0] == c5[0]);
    }
    assert(!is_digit(s[i2]));
    lemma_parse_angle_of_encoding(s, i1b, q.y as int);
    let i2b = i2 + tok_qz().len();
    lemma_peel(s, i2, tok_qz(), c6);
    let i3 = i2b + az.len();
    lemma_peel(s, i2b, az, c7);
    assert(s[i3] == c7[0]) by {
        assert(s.subrange(i3, i3 + c7.len())[0] == c7[0]);
    }
    assert(!is_digit(s[i3]));
    lemma_parse_angle_of_encoding(s, i2b, q.z as int);
    let i3b = i3 + tok_qw().len();
    lemma_peel(s, i3, tok_qw(), c8);
    let i4 = i3b + aw.len();
    lemma_peel(s, i3b, aw, c9);
    assert(s[i4] == c9[0]) by {
        assert(s.subrange(i4, i4 + c9.len())[0] == c9[0]);
    }
    assert(!is_digit(s[i4]));
    lemma_parse_angle_of_encoding(s, i3b, q.w as int);
    assert(s[i4] == 125u8);
    assert(i4 + 1 == i + e.len());
}

/// The canonical bytes of one leg object.
#[verifier::opaque]
pub open spec fn spec_triplet_bytes(t: JointTriplet) -> Seq<u8> {
    tok_trip_open() + (spec_angle_bytes(t.shoulder as int) + (tok_arm() + (spec_angle_bytes(
        t.arm as int,
    ) + (tok_wrist() + (spec_angle_bytes(t.wrist as int) + seq![125u8])))))
}

/// Parse one leg object at `i`.
pub open spec fn spec_parse_triplet(s: Seq<u8>, i: int) -> Option<(JointTriplet, int)> {
    if matches_at(s, i, tok_trip_open()) {
        match spec_parse_angle(s, i + tok_trip_open().len()) {
            Some((sh, i1)) => if matches_at(s, i1, tok_arm()) {
                match spec_parse_angle(s, i1 + tok_arm().len()) {
                    Some((ar, i2)) => if matches_at(s, i2, tok_wrist()) {
                        match spec_parse_angle(s, i2 + tok_wrist().len()) {
                            Some((wr, i3)) => if i3 < s.len() && s[i3] == 125u8 {
                                Some(
                                    (
                                        JointTriplet {
                                            shoulder: sh as i64,
                                            arm: ar as i64,
                                            wrist: wr as i64,
                                        },
                                        i3 + 1,
                                    ),
                                )
                            } else {
                                None
                            },
                            None => None,
                        }
                    } else {
                        None
                    },
                    None => None,
                }
            } else {
                None
            },
            None => None,
        }
    } else {
        None
    }
}

/// Append the canonical bytes of `t`.
#[verifier::rlimit(100)]
pub fn encode_triplet_into(out: &mut Vec<u8>, t: &JointTriplet)
    requires
        t.wf(),
    ensures
        final(out)@ == old(out)@ + spec_triplet_bytes(*t),
{
    proof {
        reveal(spec_triplet_bytes);
    }
    push_tok_trip_open(out);
    push_angle(out, t.shoulder);
    push_tok_arm(out);
    push_angle(out, t.arm);
    push_tok_wrist(out);
    push_angle(out, t.wrist);
    out.push(125);
    assert(final(out)@ =~= old(out)@ + spec_triplet_bytes(*t));
}

/// Parse one leg object at `i`, as [`spec_parse_triplet`] reads it.
pub fn parse_triplet(s: &Vec<u8>, i: usize) -> (r: Option<(JointTriplet, usize)>)
    requires
        i <= s.len(),
    ensures
        match r {
            Some((t, j)) => spec_parse_triplet(s@, i as int) == Some((t, j as int)) && i <= j
                <= s.len() && t.wf(),
            None => spec_parse_triplet(s@, i as int) is None,
        },
{
    let mut tk: Vec<u8> = Vec::new();
    push_tok_trip_open(&mut tk);
    assert(tk@ =~= tok_trip_open());
    let i0 = match expect_bytes(s, i, &tk) {
        Some(j) => j,
        None => {
            return None;
        },
    };
    let (sh, i1) = match parse_angle(s, i0) {
        Some(v) => v,
        None => {
            return None;
        },
    };
    let mut tka: Vec<u8> = Vec::new();
    push_tok_arm(&mut tka);
    assert(tka@ =~= tok_arm());
    let i1b = match expect_bytes(s, i1, &tka) {
        Some(j) => j,
        None => {
            return None;
        },
    };
    let (ar, i2) = match parse_angle(s, i1b) {
        Some(v) => v,
        None => {
            return None;
        },
    };
    let mut tkw: Vec<u8> = Vec::new();
    push_tok_wrist(&mut tkw);
    assert(tkw@ =~= tok_wrist());
    let i2b = match expect_bytes(s, i2, &tkw) {
        Some(j) => j,
        None => {
            return None;
        },
    };
    let (wr, i3) = match parse_angle(s, i2b) {
        Some(v) => v,
        None => {
            return None;
        },
    };
    if i3 < s.len() && s[i3] == 125 {
        Some((JointTriplet { shoulder: sh, arm: ar, wrist: wr }, i3 + 1))
    } else {
        None
    }
}

/// Parsing the canonical bytes of a representable leg object, embedded at
/// `i`, yields it back and stops right after them.
#[verifier::rlimit(100)]
pub proof fn lemma_parse_triplet_of_encoding(s: Seq<u8>, i: int, t: JointTriplet)
    requires
        t.wf(),
        0 <= i,
        i + spec_triplet_bytes(t).len() <= s.len(),
        s.subrange(i, i + spec_triplet_bytes(t).len()) == spec_triplet_bytes(t),
    ensures
        spec_parse_triplet(s, i) == Some((t, i + spec_triplet_bytes(t).len())),
{
    reveal(spec_triplet_bytes);
    let ash = spec_angle_bytes(t.shoulder as int);
    let aar = spec_angle_bytes(t.arm as int);
    let awr = spec_angle_bytes(t.wrist as int);
    let c7 = seq![125u8];
    let c6 = awr + c7;
    let c5 = tok_wrist() + c6;
    let c4 = aar + c5;
    let c3 = tok_arm() + c4;
    let c2 = ash + c3;
    let e = tok_trip_open() + c2;
    assert(spec_triplet_bytes(t) == e);
    let i0 = i + tok_trip_open().len();
    lemma_peel(s, i, tok_trip_open(), c2);
    let i1 = i0 + ash.len();
    lemma_peel(s, i0, ash, c3);
    assert(s[i1] == c3[0]) by {
        assert(s.subrange(i1, i1 + c3.len())[0] == c3[0]);
    }
    assert(!is_digit(s[i1]));
    lemma_parse_angle_of_encoding(s, i0, t.shoulder as int);
    let i1b = i1 + tok_arm().len();
    lemma_peel(s, i1, tok_arm(), c4);
    let i2 = i1b + aar.len();
    lemma_peel(s, i1b, aar, c5);
    assert(s[i2] == c5[0]) by {
        assert(s.subrange(i2, i2 + c5.len())[0] == c5[0]);
    }
    assert(!is_digit(s[i2]));
    lemma_parse_angle_of_encoding(s, i1b, t.arm as int);
    let i2b = i2 + tok_wrist().len();
    lemma_peel(s, i2, tok_wrist(), c6);
    let i3 = i2b + awr.len();
    lemma_peel(s, i2b, awr, c7);
    assert(s[i3] == c7[0]) by {
        assert(s.subrange(i3, i3 + c7.len())[0] == c7[0]);
    }
    assert(!is_digit(s[i3]));
    lemma_parse_angle_of_encoding(s, i2b, t.wrist as int);
    assert(s[i3] == 125u8);
    assert(i3 + 1 == i + e.len());
}

/// The canonical bytes of one full snapshot.
#[verifier::opaque]
pub open spec fn spec_snapshot_bytes(p: PoseSnapshot) -> Seq<u8> {
    tok_body_open() + (spec_quat_bytes(p.body) + (tok_fll() + (spec_triplet_bytes(
        p.front_left_leg,
    ) + (tok_frl() + (spec_triplet_bytes(p.front_right_leg) + (tok_bll() + (spec_triplet_bytes(
        p.back_left_leg,
    ) + (tok_brl() + (spec_triplet_bytes(p.back_right_leg) + seq![125u8])))))))))
}

/// Parse one full snapshot object at `i`.
pub open spec fn spec_parse_snapshot(s: Seq<u8>, i: int) -> Option<(PoseSnapshot, int)> {
    if matches_at(s, i, tok_body_open()) {
        match spec_parse_quat(s, i + tok_body_open().len()) {
            Some((body, i1)) => if matches_at(s, i1, tok_fll()) {
                match spec_parse_triplet(s, i1 + tok_fll().len()) {
                    Some((fll, i2)) => if matches_at(s, i2, tok_frl()) {
                        match spec_parse_triplet(s, i2 + tok_frl().len()) {
                            Some((frl, i3)) => if matches_at(s, i3, tok_bll()) {
                                match spec_parse_triplet(s, i3 + tok_bll().len()) {
                                    Some((bll, i4)) => if matches_at(s, i4, tok_brl()) {
                                        match spec_parse_triplet(s, i4 + tok_brl().len()) {
                                            Some((brl, i5)) => if i5 < s.len() && s[i5] == 125u8 {
                                                Some(
                                                    (
                                                        PoseSnapshot {
                                                            body,
                                                            front_left_leg: fll,
                                                            front_right_leg: frl,
                                                            back_left_leg: bll,
                                                            back_right_leg: brl,
                                                        },
                                                        i5 + 1,
                                                    ),
                                                )
                                            } else {
                                                None
                                            },
                                            None => None,
                                        }
                                    } else {
                                        None
                                    },
                                    None => None,
                                }
                            } else {
                                None
                            },
                            None => None,
                        }
                    } else {
                        None
                    },
                    None => None,
                }
            } else {
                None
            },
            None => None,
        }
    } else {
        None
    }
}

/// Append the canonical bytes of `p`.
#[verifier::rlimit(100)]
pub fn encode_snapshot_into(out: &mut Vec<u8>, p: &PoseSnapshot)
    requires
        p.wf(),
    ensures
        final(out)@ == old(out)@ + spec_snapshot_bytes(*p),
{
    proof {
        reveal(spec_snapshot_bytes);
    }
    push_tok_body_open(out);
    encode_quat_into(out, &p.body);
    push_tok_fll(out);
    encode_triplet_into(out, &p.front_left_leg);
    push_tok_frl(out);
    encode_triplet_into(out, &p.front_right_leg);
    push_tok_bll(out);
    encode_triplet_into(out, &p.back_left_leg);
    push_tok_brl(out);
    encode_triplet_into(out, &p.back_right_leg);
    out.push(125);
    assert(final(out)@ =~= old(out)@ + spec_snapshot_bytes(*p));
}

/// Parse one full snapshot object at `i`, as [`spec_parse_snapshot`] reads
/// it.
pub fn parse_snapshot(s: &Vec<u8>, i: usize) -> (r: Option<(PoseSnapshot, usize)>)
    requires
        i <= s.len(),
    ensures
        match r {
            Some((p, j)) => spec_parse_snapshot(s@, i as int) == Some((p, j as int)) && i <= j
                <= s.len() && p.wf(),
            None => spec_parse_snapshot(s@, i as int) is None,
        },
{
    let mut tk: Vec<u8> = Vec::new();
    push_tok_body_open(&mut tk);
    assert(tk@ =~= tok_body_open());
    let i0 = match expect_bytes(s, i, &tk) {
        Some(j) => j,
        None => {
            return None;
        },
    };
    let (body, i1) = match parse_quat(s, i0) {
        Some(v) => v,
        None => {
            return None;
        },
    };
    let mut tk1: Vec<u8> = Vec::new();
    push_tok_fll(&mut tk1);
    assert(tk1@ =~= tok_fll());
    let i1b = match expect_bytes(s, i1, &tk1) {
        Some(j) => j,
        None => {
            return None;
        },
    };
    let (fll, i2) = match parse_triplet(s, i1b) {
        Some(v) => v,
        None => {
            return None;
        },
    };
    let mut tk2: Vec<u8> = Vec::new();
    push_tok_frl(&mut tk2);
    assert(tk2@ =~= tok_frl());
    let i2b = match expect_bytes(s, i2, &tk2) {
        Some(j) => j,
        None => {
            return None;
        },
    };
    let (frl, i3) = match parse_triplet(s, i2b) {
        Some(v) => v,
        None => {
            return None;
        },
    };
    let mut tk3: Vec<u8> = Vec::new();
    push_tok_bll(&mut tk3);
    assert(tk3@ =~= tok_bll());
    let i3b = match expect_bytes(s, i3, &tk3) {
        Some(j) => j,
        None => {
            return None;
        },
    };
    let (bll, i4) = match parse_triplet(s, i3b) {
        Some(v) => v,
        None => {
            return None;
        },
    };
    let mut tk4: Vec<u8> = Vec::new();
    push_tok_brl(&mut tk4);
    assert(tk4@ =~= tok_brl());
    let i4b = match expect_bytes(s, i4, &tk4) {
        Some(j) => j,
        None => {
            return None;
        },
    };
    let (brl, i5) = match parse_triplet(s, i4b) {
        Some(v) => v,
        None => {
            return None;
        },
    };
    if i5 < s.len() && s[i5] == 125 {
        Some(
            (
                PoseSnapshot {
                    body,
                    front_left_leg: fll,
                    front_right_leg: frl,
                    back_left_leg: bll,
                    back_right_leg: brl,
                },
                i5 + 1,
            ),
        )
    } else {
        None
    }
}

/// Parsing the canonical bytes of a representable snapshot, embedded at
/// `i`, yields it back and stops right after them.
#[verifier::rlimit(100)]
pub proof fn lemma_parse_snapshot_of_encoding(s: Seq<u8>, i: int, p: PoseSnapshot)
    requires
        p.wf(),
        0 <= i,
        i + spec_snapshot_bytes(p).len() <= s.len(),
        s.subrange(i, i + spec_snapshot_bytes(p).len()) == spec_snapshot_bytes(p),
    ensures
        spec_parse_snapshot(s, i) == Some((p, i + spec_snapshot_bytes(p).len())),
{
    reveal(spec_snapshot_bytes);
    let qb = spec_quat_bytes(p.body);
    let t1 = spec_triplet_bytes(p.front_left_leg);
    let t2 = spec_triplet_bytes(p.front_right_leg);
    let t3 = spec_triplet_bytes(p.back_left_leg);
    let t4 = spec_triplet_bytes(p.back_right_leg);
    let c11 = seq![125u8];
    let c10 = t4 + c11;
    let c9 = tok_brl() + c10;
    let c8 = t3 + c9;
    let c7 = tok_bll() + c8;
    let c6 = t2 + c7;
    let c5 = tok_frl() + c6;
    let c4 = t1 + c5;
    let c3 = tok_fll() + c4;
    let c2 = qb + c3;
    let e = tok_body_open() + c2;
    assert(spec_snapshot_bytes(p) == e);
    let i0 = i + tok_body_open().len();
    lemma_peel(s, i, tok_body_open(), c2);
    let i1 = i0 + qb.len();
    lemma_peel(s, i0, qb, c3);
    lemma_parse_quat_of_encoding(s, i0, p.body);
    let i1b = i1 + tok_fll().len();
    lemma_peel(s, i1, tok_fll(), c4);
    let i2 = i1b + t1.len();
    lemma_peel(s, i1b, t1, c5);
    lemma_parse_triplet_of_encoding(s, i1b, p.front_left_leg);
    let i2b = i2 + tok_frl().len();
    lemma_peel(s, i2, tok_frl(), c6);
    let i3 = i2b + t2.len();
    lemma_peel(s, i2b, t2, c7);
    lemma_parse_triplet_of_encoding(s, i2b, p.front_right_leg);
    let i3b = i3 + tok_bll().len();
    lemma_peel(s, i3, tok_bll(), c8);
    let i4 = i3b + t3.len();
    lemma_peel(s, i3b, t3, c9);
    lemma_parse_triplet_of_encoding(s, i3b, p.back_left_leg);
    let i4b = i4 + tok_brl().len();
    lemma_peel(s, i4, tok_brl(), c10);
    let i5 = i4b + t4.len();
    lemma_peel(s, i4b, t4, c11);
    lemma_parse_triplet_of_encoding(s, i4b, p.back_right_leg);
    assert(s[i5] == c11[0]) by {
        assert(s.subrange(i5, i5 + c11.len())[0] == c11[0]);
    }
    assert(s[i5] == 125u8);
    assert(i5 + 1 == i + e.len());
}

/// The canonical bytes of one command envelope.
#[verifier::opaque]
pub open spec fn spec_command_bytes(c: CommandEnvelope) -> Seq<u8> {
    match c {
        CommandEnvelope::Pose { body } => tok_cmd_open() + (tok_body_open() + (spec_quat_bytes(
            body,
        ) + seq![125u8, 125u8])),
    }
}

/// Parse one command envelope at `i`. A discriminant other than `pose` does
/// not match the `kind` token and is rejected here.
pub open spec fn spec_parse_command(s: Seq<u8>, i: int) -> Option<(CommandEnvelope, int)> {
    if matches_at(s, i, tok_cmd_open()) {
        let j = i + tok_cmd_open().len();
        if matches_at(s, j, tok_body_open()) {
            match spec_parse_quat(s, j + tok_body_open().len()) {
                Some((body, i1)) => if i1 + 2 <= s.len() && s[i1] == 125u8 && s[i1 + 1] == 125u8 {
                    Some((CommandEnvelope::Pose { body }, i1 + 2))
                } else {
                    None
                },
                None => None,
            }
        } else {
            None
        }
    } else {
        None
    }
}

/// Append the canonical bytes of `c`.
#[verifier::rlimit(100)]
pub fn encode_command_into(out: &mut Vec<u8>, c: &CommandEnvelope)
    requires
        c.wf(),
    ensures
        final(out)@ == old(out)@ + spec_command_bytes(*c),
{
    proof {
        reveal(spec_command_bytes);
    }
    match c {
        CommandEnvelope::Pose { body } => {
            push_tok_cmd_open(out);
            push_tok_body_open(out);
            encode_quat_into(out, body);
            out.push(125);
            out.push(125);
        },
    }
    assert(final(out)@ =~= old(out)@ + spec_command_bytes(*c));
}

/// Parse one command envelope at `i`, as [`spec_parse_command`] reads it.
pub fn parse_command(s: &Vec<u8>, i: usize) -> (r: Option<(CommandEnvelope, usize)>)
    requires
        i <= s.len(),
    ensures
        match r {
            Some((c, j)) => spec_parse_command(s@, i as int) == Some((c, j as int)) && i <= j
                <= s.len() && c.wf(),
            None => spec_parse_command(s@, i as int) is None,
        },
{
    let mut tk: Vec<u8> = Vec::new();
    push_tok_cmd_open(&mut tk);
    assert(tk@ =~= tok_cmd_open());
    let j = match expect_bytes(s, i, &tk) {
        Some(j) => j,
        None => {
            return None;
        },
    };
    let mut tkb: Vec<u8> = Vec::new();
    push_tok_body_open(&mut tkb);
    assert(tkb@ =~= tok_body_open());
    let j2 = match expect_bytes(s, j, &tkb) {
        Some(j2) => j2,
        None => {
            return None;
        },
    };
    let (body, i1) = match parse_quat(s, j2) {
        Some(v) => v,
        None => {
            return None;
        },
    };
    if s.len() - i1 >= 2 && s[i1] == 125 && s[i1 + 1] == 125 {
        Some((CommandEnvelope::Pose { body }, i1 + 2))
    } else {
        None
    }
}

/// Parsing the canonical bytes of a representable command envelope, embedded
/// at `i`, yields it back and stops right after them.
#[verifier::rlimit(100)]
pub proof fn lemma_parse_command_of_encoding(s: Seq<u8>, i: int, c: CommandEnvelope)
    requires
        c.wf(),
        0 <= i,
        i + spec_command_bytes(c).len() <= s.len(),
        s.subrange(i, i + spec_command_bytes(c).len()) == spec_command_bytes(c),
    ensures
        spec_parse_command(s, i) == Some((c, i + spec_command_bytes(c).len())),
{
    reveal(spec_command_bytes);
    let body = (match c {
        CommandEnvelope::Pose { body } => body,
    });
    let qb = spec_quat_bytes(body);
    let c4 = seq![125u8, 125u8];
    let c3 = qb + c4;
    let c2 = tok_body_open() + c3;
    let e = tok_cmd_open() + c2;
    assert(spec_command_bytes(c) == e);
    let j = i + tok_cmd_open().len();
    lemma_peel(s, i, tok_cmd_open(), c2);
    let j2 = j + tok_body_open().len();
    lemma_peel(s, j, tok_body_open(), c3);
    let i1 = j2 + qb.len();
    lemma_peel(s, j2, qb, c4);
    lemma_parse_quat_of_encoding(s, j2, body);
    assert(s[i1] == c4[0] && s[i1 + 1] == c4[1]) by {
        assert(s.subrange(i1, i1 + c4.len())[0] == c4[0]);
        assert(s.subrange(i1, i1 + c4.len())[1] == c4[1]);
    }
    assert(i1 + 2 == i + e.len());
}

/// Decode a whole message body as one snapshot: the canonical object with
/// nothing before or after it.
pub open spec fn spec_decode_snapshot(b: Seq<u8>) -> Option<PoseSnapshot> {
    match spec_parse_snapshot(b, 0) {
        Some((p, j)) => if j == b.len() {
            Some(p)
        } else {
            None
        },
        None => None,
    }
}

/// Decode a whole message body as one command envelope.
pub open spec fn spec_decode_command(b: Seq<u8>) -> Option<CommandEnvelope> {
    match spec_parse_command(b, 0) {
        Some((c, j)) => if j == b.len() {
            Some(c)
        } else {
            None
        },
        None => None,
    }
}

/// Encode one snapshot as a whole message body.
pub fn encode_snapshot(p: &PoseSnapshot) -> (out: Vec<u8>)
    requires
        p.wf(),
    ensures
        out@ == spec_snapshot_bytes(*p),
{
    let mut out: Vec<u8> = Vec::new();
    encode_snapshot_into(&mut out, p);
    assert(out@ =~= spec_snapshot_bytes(*p));
    out
}

/// Encode one command envelope as a whole message body.
pub fn encode_command(c: &CommandEnvelope) -> (out: Vec<u8>)
    requires
        c.wf(),
    ensures
        out@ == spec_command_bytes(*c),
{
    let mut out: Vec<u8> = Vec::new();
    encode_command_into(&mut out, c);
    assert(out@ =~= spec_command_bytes(*c));
    out
}

/// Decode a whole message body as one snapshot, exactly as
/// [`spec_decode_snapshot`] reads it; a decoded snapshot is representable.
pub fn decode_snapshot(b: &Vec<u8>) -> (r: Option<PoseSnapshot>)
    ensures
        r == spec_decode_snapshot(b@),
        r matches Some(p) ==> p.wf(),
{
    match parse_snapshot(b, 0) {
        Some((p, j)) => {
            if j == b.len() {
                Some(p)
            } else {
                None
            }
        },
        None => None,
    }
}

/// Decode a whole message body as one command envelope, exactly as
/// [`spec_decode_command`] reads it; a decoded envelope is representable.
pub fn decode_command(b: &Vec<u8>) -> (r: Option<CommandEnvelope>)
    ensures
        r == spec_decode_command(b@),
        r matches Some(c) ==> c.wf(),
{
    match parse_command(b, 0) {
        Some((c, j)) => {
            if j == b.len() {
                Some(c)
            } else {
                None
            }
        },
        None => None,
    }
}

/// Round trip: decoding the encoding of any representable snapshot yields
/// that snapshot, exactly.
pub proof fn lemma_snapshot_round_trip(p: PoseSnapshot)
    requires
        p.wf(),
    ensures
        spec_decode_snapshot(spec_snapshot_bytes(p)) == Some(p),
{
    let e = spec_snapshot_bytes(p);
    assert(e.subrange(0, e.len() as int) =~= e);
    lemma_parse_snapshot_of_encoding(e, 0, p);
}

/// Round trip: decoding the encoding of any representable command envelope
/// yields that envelope, exactly.
pub proof fn lemma_command_round_trip(c: CommandEnvelope)
    requires
        c.wf(),
    ensures
        spec_decode_command(spec_command_bytes(c)) == Some(c),
{
    let e = spec_command_bytes(c);
    assert(e.subrange(0, e.len() as int) =~= e);
    lemma_parse_command_of_encoding(e, 0, c);
}

} // verus!
