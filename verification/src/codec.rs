//! Persistence for an agent's behavior-relevant state: the timers, the
//! target, the recoil accumulators and the impact map, as a flat word
//! sequence the host can store however it likes. Decoding what encoding
//! produced gives the state back exactly, so a resumed agent ticks
//! identically.

use vstd::prelude::*;
use crate::angle::SmoothAngle;
use crate::context::{BehaviorState, Target};
use crate::impact::ImpactEntry;
use crate::vecmath::Vec3i;

verus! {

/// Words in the fixed part of the encoding.
pub const HEADER_WORDS: usize = 16;

/// Words per impact entry.
pub const ENTRY_WORDS: usize = 5;

pub open spec fn i64_word(x: i64) -> u64 {
    x as u64
}

pub open spec fn word_i64(w: u64) -> i64 {
    w as i64
}

pub proof fn lemma_word_round_trip(x: i64)
    ensures
        word_i64(i64_word(x)) == x,
{
    assert(((x as u64) as i64) == x) by (bit_vector);
}

fn i64_word_exec(x: i64) -> (r: u64)
    ensures
        r == i64_word(x),
{
    x as u64
}

fn word_i64_exec(w: u64) -> (r: i64)
    ensures
        r == word_i64(w),
{
    w as i64
}

/// The five words of one impact entry.
pub open spec fn encode_entry_spec(e: (u64, ImpactEntry)) -> Seq<u64> {
    seq![
        e.0,
        i64_word(e.1.axis.x),
        i64_word(e.1.axis.y),
        i64_word(e.1.axis.z),
        i64_word(e.1.k_milli),
    ]
}

pub open spec fn decode_entry_spec(ws: Seq<u64>) -> (u64, ImpactEntry) {
    (
        ws[0],
        ImpactEntry {
            axis: Vec3i { x: word_i64(ws[1]), y: word_i64(ws[2]), z: word_i64(ws[3]) },
            k_milli: word_i64(ws[4]),
        },
    )
}

pub open spec fn encode_impacts_spec(s: Seq<(u64, ImpactEntry)>) -> Seq<u64>
    decreases s.len(),
{
    if s.len() == 0 {
        Seq::empty()
    } else {
        encode_impacts_spec(s.drop_last()) + encode_entry_spec(s.last())
    }
}

pub open spec fn decode_impacts_spec(ws: Seq<u64>) -> Seq<(u64, ImpactEntry)>
    decreases ws.len(),
{
    if ws.len() < 5 {
        Seq::empty()
    } else {
        decode_impacts_spec(ws.take(ws.len() - 5)).push(
            decode_entry_spec(ws.skip(ws.len() - 5)),
        )
    }
}

pub proof fn lemma_encode_impacts_len(s: Seq<(u64, ImpactEntry)>)
    ensures
        encode_impacts_spec(s).len() == 5 * s.len(),
    decreases s.len(),
{
    if s.len() > 0 {
        lemma_encode_impacts_len(s.drop_last());
    }
}

proof fn lemma_entry_round_trip(e: (u64, ImpactEntry))
    ensures
        decode_entry_spec(encode_entry_spec(e)) == e,
{
    lemma_word_round_trip(e.1.axis.x);
    lemma_word_round_trip(e.1.axis.y);
    lemma_word_round_trip(e.1.axis.z);
    lemma_word_round_trip(e.1.k_milli);
}

proof fn lemma_impacts_round_trip(s: Seq<(u64, ImpactEntry)>)
    ensures
        decode_impacts_spec(encode_impacts_spec(s)) == s,
    decreases s.len(),
{
    lemma_encode_impacts_len(s);
    if s.len() == 0 {
        assert(decode_impacts_spec(encode_impacts_spec(s)) =~= s);
    } else {
        lemma_impacts_round_trip(s.drop_last());
        lemma_entry_round_trip(s.last());
        lemma_encode_impacts_len(s.drop_last());
        let ws = encode_impacts_spec(s);
        assert(ws.take(ws.len() - 5) =~= encode_impacts_spec(s.drop_last()));
        assert(ws.skip(ws.len() - 5) =~= encode_entry_spec(s.last()));
        assert(decode_impacts_spec(ws) =~= s);
    }
}

/// The fixed part: target, timers, threaten handshake, recoil accumulators
/// and the entry count.
pub open spec fn encode_header_spec(
    state: BehaviorState,
    restoration_time_ms: i64,
    n_impacts: u64,
) -> Seq<u64> {
    let (tag, th, tx, ty, tz): (u64, u64, u64, u64, u64) = match state.target {
        Some(t) => (
            1u64,
            t.handle,
            i64_word(t.position.x),
            i64_word(t.position.y),
            i64_word(t.position.z),
        ),
        None => (0u64, 0u64, 0u64, 0u64, 0u64),
    };
    seq![
        tag,
        th,
        tx,
        ty,
        tz,
        i64_word(state.threaten_timeout_ms),
        if state.threaten_in_progress {
            1u64
        } else {
            0u64
        },
        i64_word(state.fire_timer_ms),
        i64_word(state.v_recoil.angle),
        i64_word(state.v_recoil.target),
        i64_word(state.v_recoil.speed),
        i64_word(state.h_recoil.angle),
        i64_word(state.h_recoil.target),
        i64_word(state.h_recoil.speed),
        i64_word(restoration_time_ms),
        n_impacts,
    ]
}

pub open spec fn encode_spec(
    state: BehaviorState,
    restoration_time_ms: i64,
    impacts: Seq<(u64, ImpactEntry)>,
) -> Seq<u64> {
    encode_header_spec(state, restoration_time_ms, impacts.len() as u64) + encode_impacts_spec(
        impacts,
    )
}

/// What a word sequence decodes to, when it is well formed.
pub open spec fn decode_spec(ws: Seq<u64>) -> Option<(BehaviorState, i64, Seq<(u64, ImpactEntry)>)> {
    if ws.len() < 16 {
        None
    } else if ws[0] != 0 && ws[0] != 1 {
        None
    } else if ws[6] != 0 && ws[6] != 1 {
        None
    } else if ws.len() != 16 + 5 * (ws[15] as int) {
        None
    } else {
        let target = if ws[0] == 1 {
            Some(
                Target {
                    handle: ws[1],
                    position: Vec3i { x: word_i64(ws[2]), y: word_i64(ws[3]), z: word_i64(ws[4]) },
                },
            )
        } else {
            None
        };
        let state = BehaviorState {
            target,
            threaten_timeout_ms: word_i64(ws[5]),
            threaten_in_progress: ws[6] == 1,
            fire_timer_ms: word_i64(ws[7]),
            v_recoil: SmoothAngle {
                angle: word_i64(ws[8]),
                target: word_i64(ws[9]),
                speed: word_i64(ws[10]),
            },
            h_recoil: SmoothAngle {
                angle: word_i64(ws[11]),
                target: word_i64(ws[12]),
                speed: word_i64(ws[13]),
            },
        };
        Some((state, word_i64(ws[14]), decode_impacts_spec(ws.skip(16))))
    }
}

/// Law: decoding gives back exactly what was encoded — the timers, the
/// target, the threaten handshake, the recoil accumulators and the impact
/// map. A resumed agent therefore ticks exactly as the saved one would.
pub proof fn lemma_codec_round_trip(
    state: BehaviorState,
    restoration_time_ms: i64,
    impacts: Seq<(u64, ImpactEntry)>,
)
    requires
        impacts.len() < 0x1000_0000,
    ensures
        decode_spec(encode_spec(state, restoration_time_ms, impacts)) == Some(
            (state, restoration_time_ms, impacts),
        ),
{
    let hdr = encode_header_spec(state, restoration_time_ms, impacts.len() as u64);
    let ws = encode_spec(state, restoration_time_ms, impacts);
    lemma_encode_impacts_len(impacts);
    assert(ws.len() == 16 + 5 * impacts.len());
    lemma_word_round_trip(state.threaten_timeout_ms);
    lemma_word_round_trip(state.fire_timer_ms);
    lemma_word_round_trip(state.v_recoil.angle);
    lemma_word_round_trip(state.v_recoil.target);
    lemma_word_round_trip(state.v_recoil.speed);
    lemma_word_round_trip(state.h_recoil.angle);
    lemma_word_round_trip(state.h_recoil.target);
    lemma_word_round_trip(state.h_recoil.speed);
    lemma_word_round_trip(restoration_time_ms);
    match state.target {
        Some(t) => {
            lemma_word_round_trip(t.position.x);
            lemma_word_round_trip(t.position.y);
            lemma_word_round_trip(t.position.z);
        },
        None => {},
    }
    assert(ws.skip(16) =~= encode_impacts_spec(impacts));
    lemma_impacts_round_trip(impacts);
    let d = decode_spec(ws);
    assert(d is Some);
    assert(d->Some_0.0 == state);
    assert(d->Some_0.1 == restoration_time_ms);
    assert(d->Some_0.2 == impacts);
}

/// Encode an agent's persistent state into a flat word sequence.
pub fn encode_agent_state(
    state: &BehaviorState,
    restoration_time_ms: i64,
    impacts: &Vec<(u64, ImpactEntry)>,
) -> (r: Vec<u64>)
    ensures
        r@ == encode_spec(*state, restoration_time_ms, impacts@),
{
    let mut r: Vec<u64> = Vec::new();
    match state.target {
        Some(t) => {
            r.push(1);
            r.push(t.handle);
            r.push(i64_word_exec(t.position.x));
            r.push(i64_word_exec(t.position.y));
            r.push(i64_word_exec(t.position.z));
        },
        None => {
            r.push(0);
            r.push(0);
            r.push(0);
            r.push(0);
            r.push(0);
        },
    }
    r.push(i64_word_exec(state.threaten_timeout_ms));
    r.push(if state.threaten_in_progress {
        1
    } else {
        0
    });
    r.push(i64_word_exec(state.fire_timer_ms));
    r.push(i64_word_exec(state.v_recoil.angle));
    r.push(i64_word_exec(state.v_recoil.target));
    r.push(i64_word_exec(state.v_recoil.speed));
    r.push(i64_word_exec(state.h_recoil.angle));
    r.push(i64_word_exec(state.h_recoil.target));
    r.push(i64_word_exec(state.h_recoil.speed));
    r.push(i64_word_exec(restoration_time_ms));
    r.push(impacts.len() as u64);
    proof {
        assert(r@ =~= encode_header_spec(*state, restoration_time_ms, impacts@.len() as u64));
    }
    let n = impacts.len();
    let mut k: usize = 0;
    let ghost hdr = r@;
    while k < n
        invariant
            0 <= k <= n,
            n == impacts@.len(),
            hdr == encode_header_spec(*state, restoration_time_ms, impacts@.len() as u64),
            r@ == hdr + encode_impacts_spec(impacts@.take(k as int)),
        decreases n - k,
    {
        let (bone, e) = impacts[k];
        r.push(bone);
        r.push(i64_word_exec(e.axis.x));
        r.push(i64_word_exec(e.axis.y));
        r.push(i64_word_exec(e.axis.z));
        r.push(i64_word_exec(e.k_milli));
        proof {
            assert(impacts@.take(k as int + 1).drop_last() =~= impacts@.take(k as int));
            assert(impacts@.take(k as int + 1).last() == impacts@[k as int]);
            assert(r@ =~= hdr + encode_impacts_spec(impacts@.take(k as int + 1)));
        }
        k = k + 1;
    }
    proof {
        assert(impacts@.take(n as int) =~= impacts@);
    }
    r
}

/// Decode a word sequence back into an agent's persistent state; malformed
/// input (wrong length, an unknown tag) gives nothing.
pub fn decode_agent_state(ws: &Vec<u64>) -> (r: Option<
    (BehaviorState, i64, Vec<(u64, ImpactEntry)>),
>)
    ensures
        match decode_spec(ws@) {
            Some((state, restoration, impacts)) => {
                &&& r is Some
                &&& r->Some_0.0 == state
                &&& r->Some_0.1 == restoration
                &&& r->Some_0.2@ == impacts
            },
            None => r is None,
        },
{
    if ws.len() < HEADER_WORDS {
        return None;
    }
    if ws[0] != 0 && ws[0] != 1 {
        return None;
    }
    if ws[6] != 0 && ws[6] != 1 {
        return None;
    }
    let n_words = ws.len();
    let n_entries = ws[15];
    let tail_words: u64 = n_words as u64 - HEADER_WORDS as u64;
    if tail_words % (ENTRY_WORDS as u64) != 0 || n_entries != tail_words / (ENTRY_WORDS as u64) {
        return None;
    }
    let target: Option<Target> = if ws[0] == 1 {
        Some(
            Target {
                handle: ws[1],
                position: Vec3i {
                    x: word_i64_exec(ws[2]),
                    y: word_i64_exec(ws[3]),
                    z: word_i64_exec(ws[4]),
                },
            },
        )
    } else {
        None
    };
    let state = BehaviorState {
        target,
        threaten_timeout_ms: word_i64_exec(ws[5]),
        threaten_in_progress: ws[6] == 1,
        fire_timer_ms: word_i64_exec(ws[7]),
        v_recoil: SmoothAngle {
            angle: word_i64_exec(ws[8]),
            target: word_i64_exec(ws[9]),
            speed: word_i64_exec(ws[10]),
        },
        h_recoil: SmoothAngle {
            angle: word_i64_exec(ws[11]),
            target: word_i64_exec(ws[12]),
            speed: word_i64_exec(ws[13]),
        },
    };
    let restoration = word_i64_exec(ws[14]);
    let mut impacts: Vec<(u64, ImpactEntry)> = Vec::new();
    let n = n_entries as usize;
    let total: usize = ws.len();
    let mut k: usize = 0;
    proof {
        assert(ws@.skip(16).take(0int) =~= Seq::<u64>::empty());
    }
    while k < n
        invariant
            0 <= k <= n,
            total == ws@.len(),
            ws@.len() == 16 + 5 * n,
            impacts@ == decode_impacts_spec(ws@.skip(16).take(5 * k as int)),
        decreases n - k,
    {
        let base: usize = HEADER_WORDS + ENTRY_WORDS * k;
        let bone = ws[base];
        let e = ImpactEntry {
            axis: Vec3i {
                x: word_i64_exec(ws[base + 1]),
                y: word_i64_exec(ws[base + 2]),
                z: word_i64_exec(ws[base + 3]),
            },
            k_milli: word_i64_exec(ws[base + 4]),
        };
        impacts.push((bone, e));
        proof {
            let tail = ws@.skip(16);
            let cur = tail.take(5 * (k as int + 1));
            assert(cur.take(cur.len() - 5) =~= tail.take(5 * k as int));
            assert(cur.skip(cur.len() - 5) =~= seq![
                ws@[base as int],
                ws@[base as int + 1],
                ws@[base as int + 2],
                ws@[base as int + 3],
                ws@[base as int + 4],
            ]);
            assert(impacts@ =~= decode_impacts_spec(cur));
        }
        k = k + 1;
    }
    proof {
        assert(ws@.skip(16).take(5 * n as int) =~= ws@.skip(16));
    }
    Some((state, restoration, impacts))
}

} // verus!
