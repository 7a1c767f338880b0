//! Laws of the supervisor, proved once and for all.
//!
//! Each proof function here states, over the specification functions that the
//! executable contracts quote, a property the library promises of every
//! input: requests are served in arrival order, exchanges never interleave
//! their wire traffic, protocol noise never changes an exchange's outcome,
//! end of file kills the generation, encoded content survives the trip
//! through the wire escaping, and the health monitor's counter behaves
//! exactly as a bounded-retry ceiling demands.

use vstd::prelude::*;

use crate::codec::{
    hex_digit_char, hex_val, simple_escape, spec_escape_char, spec_hex4, spec_json_escape,
    spec_str_body,
};
use crate::engine::{
    spec_exchange_trace, spec_run_reads, EngineState, ReadOutcomeV, SessionErrorV,
};
use crate::health::{spec_attempts_restart, spec_counter_after, spec_counter_after_failures};
use crate::manager::spec_serve;

verus! {

// ---------------------------------------------------------------------------
// FIFO serving order
// ---------------------------------------------------------------------------

/// Responses are delivered for requests in the order the requests arrived:
/// the worker's result list carries exactly the queued tickets, in queue
/// order, whatever each exchange's outcome was.
pub proof fn lemma_serve_fifo(
    state: EngineState,
    id: Option<Seq<char>>,
    reqs: Seq<(u64, Seq<char>)>,
    scripts: Seq<Seq<ReadOutcomeV>>,
    max_t: nat,
)
    ensures
        spec_serve(state, id, reqs, scripts, max_t).results.len() == reqs.len(),
        forall|k: int|
            0 <= k < reqs.len() ==> #[trigger] spec_serve(
                state,
                id,
                reqs,
                scripts,
                max_t,
            ).results[k].0 == reqs[k].0,
    decreases reqs.len(),
{
    if reqs.len() > 0 {
        if state != EngineState::Ready {
            lemma_serve_fifo(state, id, reqs.drop_first(), scripts.drop_first(), max_t);
        } else {
            let end = spec_run_reads(None, id, scripts[0], max_t);
            let st2 = if end.dead {
                EngineState::Dead
            } else {
                EngineState::Ready
            };
            lemma_serve_fifo(st2, end.identity, reqs.drop_first(), scripts.drop_first(), max_t);
        }
    }
}

// ---------------------------------------------------------------------------
// Exclusive wire access
// ---------------------------------------------------------------------------

/// At most one exchange's wire traffic is ever in flight.  Two requests
/// served in order — an ordinary request and a compaction arriving at the
/// same instant are exactly such a pair — put their operations on the wire
/// as two whole blocks: the first exchange's write and all its reads come
/// before the second exchange's write, and if the first exchange kills the
/// generation the second never touches the wire at all.
pub proof fn lemma_exchanges_never_interleave(
    id: Option<Seq<char>>,
    r1: (u64, Seq<char>),
    r2: (u64, Seq<char>),
    s1: Seq<ReadOutcomeV>,
    s2: Seq<ReadOutcomeV>,
    max_t: nat,
)
    ensures
        ({
            let end1 = spec_run_reads(None, id, s1, max_t);
            let end2 = spec_run_reads(None, end1.identity, s2, max_t);
            let tr = spec_serve(
                EngineState::Ready,
                id,
                seq![r1, r2],
                seq![s1, s2],
                max_t,
            ).trace;
            &&& !end1.dead ==> tr == spec_exchange_trace(r1.1, s1, end1.consumed)
                + spec_exchange_trace(r2.1, s2, end2.consumed)
            &&& end1.dead ==> tr == spec_exchange_trace(r1.1, s1, end1.consumed)
        }),
{
    let reqs = seq![r1, r2];
    let scripts = seq![s1, s2];
    let end1 = spec_run_reads(None, id, s1, max_t);
    assert(reqs.drop_first() =~= seq![r2]);
    assert(scripts.drop_first() =~= seq![s2]);
    assert(seq![r2].drop_first() =~= Seq::<(u64, Seq<char>)>::empty());
    assert(seq![s2].drop_first() =~= Seq::<Seq<ReadOutcomeV>>::empty());
    assert(seq![r2][0] == r2);
    assert(seq![s2][0] == s2);
    assert(spec_serve(
        EngineState::Dead,
        end1.identity,
        Seq::<(u64, Seq<char>)>::empty(),
        Seq::<Seq<ReadOutcomeV>>::empty(),
        max_t,
    ).trace =~= Seq::<crate::engine::WireOpV>::empty());
    assert(spec_serve(
        EngineState::Ready,
        end1.identity,
        Seq::<(u64, Seq<char>)>::empty(),
        Seq::<Seq<ReadOutcomeV>>::empty(),
        max_t,
    ).trace =~= Seq::<crate::engine::WireOpV>::empty());
    let end2 = spec_run_reads(None, end1.identity, s2, max_t);
    assert(spec_serve(
        EngineState::Dead,
        end2.identity,
        Seq::<(u64, Seq<char>)>::empty(),
        Seq::<Seq<ReadOutcomeV>>::empty(),
        max_t,
    ).trace =~= Seq::<crate::engine::WireOpV>::empty());
    assert(spec_serve(
        EngineState::Ready,
        end2.identity,
        Seq::<(u64, Seq<char>)>::empty(),
        Seq::<Seq<ReadOutcomeV>>::empty(),
        max_t,
    ).trace =~= Seq::<crate::engine::WireOpV>::empty());
    if end1.dead {
        let tr = spec_serve(EngineState::Ready, id, reqs, scripts, max_t).trace;
        assert(spec_serve(
            EngineState::Dead,
            end1.identity,
            seq![r2],
            seq![s2],
            max_t,
        ).trace =~= Seq::<crate::engine::WireOpV>::empty());
        assert(tr =~= spec_exchange_trace(r1.1, s1, end1.consumed));
    } else {
        let end2 = spec_run_reads(None, end1.identity, s2, max_t);
        let tr = spec_serve(EngineState::Ready, id, reqs, scripts, max_t).trace;
        assert(spec_serve(
            EngineState::Ready,
            end1.identity,
            seq![r2],
            seq![s2],
            max_t,
        ).trace =~= spec_exchange_trace(r2.1, s2, end2.consumed) + Seq::<
            crate::engine::WireOpV,
        >::empty());
        assert(tr =~= spec_exchange_trace(r1.1, s1, end1.consumed) + spec_exchange_trace(
            r2.1,
            s2,
            end2.consumed,
        ));
    }
}

// ---------------------------------------------------------------------------
// Protocol noise is ignored
// ---------------------------------------------------------------------------

/// A line that decodes to nothing — not valid JSON, or an unrecognized
/// shape — and carries no identity has no effect on an exchange beyond being
/// read: the outcome, the recorded identity, and the generation's fate are
/// those of the same exchange without that line.
pub proof fn lemma_noise_ignored(
    la: Option<Seq<char>>,
    id: Option<Seq<char>>,
    l: Seq<char>,
    script: Seq<ReadOutcomeV>,
    max_t: nat,
)
    requires
        crate::codec::spec_decode_line(l) == (crate::codec::ParsedEventV::Other {
            identity: None,
        }),
    ensures
        ({
            let with = spec_run_reads(la, id, seq![ReadOutcomeV::Line(l)] + script, max_t);
            let without = spec_run_reads(la, id, script, max_t);
            &&& with.outcome == without.outcome
            &&& with.identity == without.identity
            &&& with.dead == without.dead
            &&& with.consumed == without.consumed + 1
        }),
{
    let s = seq![ReadOutcomeV::Line(l)] + script;
    assert(s[0] == ReadOutcomeV::Line(l));
    assert(s.drop_first() =~= script);
}

// ---------------------------------------------------------------------------
// End of file is fatal
// ---------------------------------------------------------------------------

/// End of file mid-exchange fails the exchange with a protocol I/O error and
/// kills the generation, whatever would have followed.
pub proof fn lemma_eof_is_fatal(
    la: Option<Seq<char>>,
    id: Option<Seq<char>>,
    rest: Seq<ReadOutcomeV>,
    max_t: nat,
)
    ensures
        ({
            let end = spec_run_reads(la, id, seq![ReadOutcomeV::Eof] + rest, max_t);
            &&& end.outcome == Err::<Seq<char>, SessionErrorV>(SessionErrorV::ProtocolIo)
            &&& end.dead
            &&& end.identity == id
        }),
{
    let s = seq![ReadOutcomeV::Eof] + rest;
    assert(s[0] == ReadOutcomeV::Eof);
}

// ---------------------------------------------------------------------------
// Splitting loses nothing
// ---------------------------------------------------------------------------

/// The concatenation of a sequence of chunks.
pub open spec fn spec_concat(chunks: Seq<Seq<char>>) -> Seq<char>
    decreases chunks.len(),
{
    if chunks.len() == 0 {
        Seq::empty()
    } else {
        chunks[0] + spec_concat(chunks.drop_first())
    }
}

/// The chunks the splitter produces from any position concatenate back to
/// exactly the text from that position: splitting drops and duplicates
/// nothing.
pub proof fn lemma_split_reassembles(s: Seq<char>, start: int, max_len: int, fa: bool)
    requires
        0 <= start <= s.len(),
        max_len >= 1,
    ensures
        spec_concat(crate::splitter::spec_split_from(s, start, max_len, fa)) == s.skip(start),
    decreases s.len() - start,
{
    let chunks = crate::splitter::spec_split_from(s, start, max_len, fa);
    assert(spec_concat(Seq::<Seq<char>>::empty()) == Seq::<char>::empty());
    if start >= s.len() {
        assert(s.skip(start) =~= Seq::<char>::empty());
    } else if s.len() - start <= max_len {
        assert(chunks =~= seq![s.subrange(start, s.len() as int)]);
        assert(chunks.drop_first() =~= Seq::<Seq<char>>::empty());
        assert(spec_concat(chunks) == chunks[0] + spec_concat(chunks.drop_first()));
        assert(s.subrange(start, s.len() as int) + Seq::<char>::empty() =~= s.skip(start));
    } else {
        let cut = crate::splitter::spec_safe_split(s, start, start + max_len, fa);
        if cut <= start || cut > s.len() {
            assert(chunks =~= seq![s.subrange(start, s.len() as int)]);
            assert(chunks.drop_first() =~= Seq::<Seq<char>>::empty());
            assert(spec_concat(chunks) == chunks[0] + spec_concat(chunks.drop_first()));
            assert(s.subrange(start, s.len() as int) + Seq::<char>::empty() =~= s.skip(start));
        } else {
            lemma_split_reassembles(s, cut, max_len, fa);
            let rest = crate::splitter::spec_split_from(s, cut, max_len, fa);
            assert(chunks.drop_first() =~= rest);
            assert(chunks[0] == s.subrange(start, cut));
            assert(spec_concat(chunks) == chunks[0] + spec_concat(chunks.drop_first()));
            assert(s.subrange(start, cut) + s.skip(cut) =~= s.skip(start));
        }
    }
}

/// Splitting a whole text loses nothing: the chunks concatenate back to the
/// text, in both the splitter's modes.
pub proof fn lemma_split_covers(s: Seq<char>, max_len: int, fa: bool)
    requires
        max_len >= 1,
    ensures
        spec_concat(crate::splitter::spec_split(s, max_len, fa)) == s,
{
    assert(spec_concat(Seq::<Seq<char>>::empty()) == Seq::<char>::empty());
    if s.len() <= max_len {
        assert(crate::splitter::spec_split(s, max_len, fa) =~= seq![s]);
        assert(seq![s].drop_first() =~= Seq::<Seq<char>>::empty());
        assert(spec_concat(seq![s]) == seq![s][0] + spec_concat(seq![s].drop_first()));
        assert(s + Seq::<char>::empty() =~= s);
    } else {
        lemma_split_reassembles(s, 0, max_len, fa);
        assert(s.skip(0) =~= s);
    }
}

// ---------------------------------------------------------------------------
// Health monitor counting
// ---------------------------------------------------------------------------

/// A positive liveness poll resets the counter unconditionally, whatever it
/// held.
pub proof fn lemma_success_resets(cf: u32)
    ensures
        spec_counter_after(cf, true) == 0,
{
}

/// Consecutive failures count exactly, and a restart is attempted on
/// precisely the ticks whose failure count is within the ceiling: with a
/// ceiling of `c`, failures number `1 ..= c` each trigger an attempt and
/// failure number `c + 1` does not.
pub proof fn lemma_failure_ceiling(n: nat, ceiling: u32)
    requires
        1 <= n <= u32::MAX,
    ensures
        spec_counter_after_failures(n) == n,
        spec_attempts_restart(
            spec_counter_after_failures((n - 1) as nat),
            false,
            ceiling,
        ) == (n <= ceiling),
    decreases n,
{
    if n > 1 {
        lemma_failure_ceiling((n - 1) as nat, ceiling);
    } else {
        assert(spec_counter_after_failures(0) == 0);
    }
}

// ---------------------------------------------------------------------------
// Escaped content survives the wire
// ---------------------------------------------------------------------------

/// Decoding a hexadecimal digit written by the encoder gives back its value.
proof fn lemma_hex_digit_char(v: u32)
    requires
        v < 16,
    ensures
        hex_val(hex_digit_char(v)) == Some(v),
{
    if v < 10 {
        let x: u32 = ('0' as u32 + v) as u32;
        assert((x as char) as u32 == x);
        assert(hex_digit_char(v) == x as char);
    } else {
        let x: u32 = ('a' as u32 + (v - 10)) as u32;
        assert((x as char) as u32 == x);
        assert(hex_digit_char(v) == x as char);
    }
}

/// Reading four hexadecimal digits is position-independent.
proof fn lemma_hex4_shift(pre: Seq<char>, s: Seq<char>, i: int)
    requires
        0 <= i,
    ensures
        spec_hex4(pre + s, pre.len() + i) == spec_hex4(s, i),
{
    let c = pre + s;
    if i + 4 <= s.len() {
        assert(c[pre.len() + i] == s[i]);
        assert(c[pre.len() + i + 1] == s[i + 1]);
        assert(c[pre.len() + i + 2] == s[i + 2]);
        assert(c[pre.len() + i + 3] == s[i + 3]);
    }
}

/// Parsing a string body is position-independent: parsing after a prefix
/// gives the same characters with every index shifted by the prefix length.
proof fn lemma_str_body_shift(pre: Seq<char>, s: Seq<char>, i: int)
    requires
        0 <= i,
    ensures
        spec_str_body(pre + s, pre.len() + i) == (match spec_str_body(s, i) {
            None => None::<(Seq<char>, int)>,
            Some((t, j)) => Some((t, pre.len() + j)),
        }),
    decreases s.len() - i,
{
    let c = pre + s;
    if i >= s.len() {
    } else {
        assert(c[pre.len() + i] == s[i]);
        if s[i] == '"' {
        } else if s[i] == '\\' {
            if i + 1 >= s.len() {
            } else {
                assert(c[pre.len() + i + 1] == s[i + 1]);
                if s[i + 1] == 'u' {
                    lemma_hex4_shift(pre, s, i + 2);
                    match spec_hex4(s, i + 2) {
                        None => {},
                        Some(u) => {
                            if 0xD800 <= u && u < 0xDC00 {
                                if s.len() - i >= 12 {
                                    assert(c[pre.len() + i + 6] == s[i + 6]);
                                    assert(c[pre.len() + i + 7] == s[i + 7]);
                                    if s[i + 6] == '\\' && s[i + 7] == 'u' {
                                        lemma_hex4_shift(pre, s, i + 8);
                                        lemma_str_body_shift(pre, s, i + 12);
                                    }
                                }
                            } else if 0xDC00 <= u && u < 0xE000 {
                            } else {
                                lemma_str_body_shift(pre, s, i + 6);
                            }
                        },
                    }
                } else {
                    lemma_str_body_shift(pre, s, i + 2);
                }
            }
        } else if (s[i] as u32) < 0x20 {
        } else {
            lemma_str_body_shift(pre, s, i + 1);
        }
    }
}

/// One escaped character at the front of a string body parses back to that
/// character.
#[verifier::spinoff_prover]
#[verifier::rlimit(100)]
proof fn lemma_escape_char_step(ch: char, srest: Seq<char>, t: Seq<char>, j: int)
    requires
        spec_str_body(srest, 0) == Some((t, j)),
    ensures
        spec_str_body(spec_escape_char(ch) + srest, 0) == Some(
            (seq![ch] + t, spec_escape_char(ch).len() + j),
        ),
{
    let ec = spec_escape_char(ch);
    let s = ec + srest;
    lemma_str_body_shift(ec, srest, 0);
    assert(spec_str_body(s, ec.len() as int) == Some((t, ec.len() + j)));
    assert(forall|k: int| 0 <= k < ec.len() ==> s[k] == ec[k]);
    if ch == '"' || ch == '\\' || ch == '\u{0008}' || ch == '\u{000C}' || ch == '\n' || ch
        == '\r' || ch == '\t' {
        assert(s[0] == '\\');
        assert(simple_escape(s[1]) == Some(ch));
        assert(spec_str_body(s, 0) == Some((seq![ch] + t, ec.len() + j)));
    } else if (ch as u32) < 0x20 {
        assert(s[0] == '\\' && s[1] == 'u' && s[2] == '0' && s[3] == '0');
        assert(s[4] == hex_digit_char((ch as u32) / 16));
        assert(s[5] == hex_digit_char((ch as u32) % 16));
        lemma_hex_digit_char((ch as u32) / 16);
        lemma_hex_digit_char((ch as u32) % 16);
        assert(spec_hex4(s, 2) == Some(
            (((ch as u32) / 16) * 0x10 + ((ch as u32) % 16)) as u32,
        ));
        assert(((ch as u32) / 16) * 0x10 + ((ch as u32) % 16) == ch as u32);
        vstd::utf8::char_u32_cast(ch, ch as u32);
        assert((ch as u32) < 0xD800);
        assert(spec_str_body(s, 0) == Some((seq![ch] + t, ec.len() + j)));
    } else {
        assert(s[0] == ch);
        assert(spec_str_body(s, 0) == Some((seq![ch] + t, ec.len() + j)));
    }
}

/// Round trip of the wire escaping: the escaped form of any text, followed
/// by the closing quote and anything after it, parses back to exactly that
/// text, consuming exactly the escaped form and the quote.  This is the
/// heart of the encode-then-decode guarantee: content put on the wire by the
/// encoder is recovered unchanged by the decoder.
#[verifier::spinoff_prover]
pub proof fn lemma_escape_round_trip(text: Seq<char>, tail: Seq<char>)
    ensures
        spec_str_body(spec_json_escape(text) + seq!['"'] + tail, 0) == Some(
            (text, spec_json_escape(text).len() as int + 1),
        ),
    decreases text.len(),
{
    let s = spec_json_escape(text) + seq!['"'] + tail;
    if text.len() == 0 {
        assert(spec_json_escape(text) =~= Seq::<char>::empty());
        assert(s =~= seq!['"'] + tail);
        assert(s[0] == '"');
        assert(spec_str_body(s, 0) == Some((Seq::<char>::empty(), 1int)));
        assert(text =~= Seq::<char>::empty());
    } else {
        let ch = text[0];
        let rest = text.drop_first();
        let ec = spec_escape_char(ch);
        let erest = spec_json_escape(rest);
        let srest = erest + seq!['"'] + tail;
        lemma_escape_round_trip(rest, tail);
        assert(spec_json_escape(text) == ec + erest);
        assert(s =~= ec + srest);
        lemma_escape_char_step(ch, srest, rest, erest.len() as int + 1);
        assert(seq![ch] + rest =~= text);
        assert(ec.len() + (erest.len() as int + 1) == spec_json_escape(text).len() as int + 1);
    }
}

} // verus!
