//! Worker-loop decisions: drain the request queue one request at a time
//! through the session engine.
//!
//! A single worker serves requests strictly in arrival order; each request's
//! exchange runs to its end before the next request touches the wire, so no
//! two exchanges ever interleave their wire traffic.  A compaction is an
//! ordinary request with a fixed maintenance command as its prompt: it takes
//! the same path and the same turn-taking as every other request.

use vstd::prelude::*;

use crate::engine::{
    res_view, spec_exchange_trace, spec_run_reads, trace_view, Engine, EngineState, ReadOutcome,
    ReadOutcomeV, SessionError, SessionErrorV, WireOp, WireOpV,
};
use crate::queue::RequestQueue;
use crate::text::{chars_to_string, str_to_chars};

verus! {

/// The fixed maintenance command the compactor sends, through the ordinary
/// exchange path, to bound the subprocess's accumulated context.
pub fn compact_command() -> (r: String)
    ensures
        r@ == "/compact"@,
{
    let c = str_to_chars("/compact");
    chars_to_string(&c)
}

/// End state of serving a request list.
pub struct ServeEndV {
    /// Ticket and outcome of each request, in arrival order.
    pub results: Seq<(u64, Result<Seq<char>, SessionErrorV>)>,
    /// Every wire operation performed, in order.
    pub trace: Seq<WireOpV>,
    /// The engine state after the last request.
    pub state: EngineState,
    /// The identity after the last request.
    pub identity: Option<Seq<char>>,
}

/// Serve requests in order: each request on a ready engine runs one whole
/// scripted exchange; on any other engine state it fails at once with a
/// protocol I/O error and touches the wire not at all.
pub open spec fn spec_serve(
    state: EngineState,
    id: Option<Seq<char>>,
    reqs: Seq<(u64, Seq<char>)>,
    scripts: Seq<Seq<ReadOutcomeV>>,
    max_t: nat,
) -> ServeEndV
    decreases reqs.len(),
{
    if reqs.len() == 0 {
        ServeEndV { results: Seq::empty(), trace: Seq::empty(), state, identity: id }
    } else if state != EngineState::Ready {
        let rest = spec_serve(state, id, reqs.drop_first(), scripts.drop_first(), max_t);
        ServeEndV {
            results: seq![
                (reqs[0].0, Err::<Seq<char>, SessionErrorV>(SessionErrorV::ProtocolIo)),
            ] + rest.results,
            trace: rest.trace,
            state: rest.state,
            identity: rest.identity,
        }
    } else {
        let end = spec_run_reads(None, id, scripts[0], max_t);
        let st2 = if end.dead {
            EngineState::Dead
        } else {
            EngineState::Ready
        };
        let rest = spec_serve(st2, end.identity, reqs.drop_first(), scripts.drop_first(), max_t);
        ServeEndV {
            results: seq![(reqs[0].0, end.outcome)] + rest.results,
            trace: spec_exchange_trace(reqs[0].1, scripts[0], end.consumed) + rest.trace,
            state: rest.state,
            identity: rest.identity,
        }
    }
}

/// The models of served results.
pub open spec fn results_view(rs: Seq<(u64, Result<String, SessionError>)>) -> Seq<
    (u64, Result<Seq<char>, SessionErrorV>),
> {
    rs.map(|k: int, p: (u64, Result<String, SessionError>)| (p.0, res_view(p.1)))
}

/// `results_view` maps over `push`.
proof fn lemma_results_view_push(rs: Seq<(u64, Result<String, SessionError>)>, p: (
    u64,
    Result<String, SessionError>,
))
    ensures
        results_view(rs.push(p)) == results_view(rs).push((p.0, res_view(p.1))),
{
    assert(results_view(rs.push(p)) =~= results_view(rs).push((p.0, res_view(p.1))));
}

/// Drain the queue through one engine, serving strictly in arrival order.
///
/// The result list pairs each ticket with its exchange's outcome, in the
/// order the requests arrived; the wire trace grows by exactly the
/// concatenation of the per-request exchange traces, in that same order.
#[verifier::rlimit(60)]
pub fn serve_all(
    engine: &mut Engine,
    queue: &mut RequestQueue,
    scripts: &Vec<Vec<ReadOutcome>>,
    max_timeouts: usize,
    trace: &mut Vec<WireOp>,
) -> (r: Vec<(u64, Result<String, SessionError>)>)
    requires
        old(queue).wf(),
        scripts@.len() == old(queue)@.len(),
    ensures
        final(queue)@.len() == 0,
        ({
            let end = spec_serve(
                old(engine).state,
                old(engine).identity.deep_view(),
                old(queue)@,
                scripts.deep_view(),
                max_timeouts as nat,
            );
            &&& results_view(r@) == end.results
            &&& trace_view(final(trace)@) == trace_view(old(trace)@) + end.trace
            &&& final(engine).state == end.state
            &&& final(engine).identity.deep_view() == end.identity
        }),
{
    let ghost reqs0: Seq<(u64, Seq<char>)> = queue@;
    let ghost sc: Seq<Seq<ReadOutcomeV>> = scripts.deep_view();
    let ghost end = spec_serve(
        old(engine).state,
        old(engine).identity.deep_view(),
        reqs0,
        sc,
        max_timeouts as nat,
    );
    let n = scripts.len();
    let mut out: Vec<(u64, Result<String, SessionError>)> = Vec::new();
    let mut k: usize = 0;
    proof {
        assert(reqs0.skip(0) =~= reqs0);
        assert(sc.skip(0) =~= sc);
        assert(results_view(out@) =~= Seq::<(u64, Result<Seq<char>, SessionErrorV>)>::empty());
        assert(trace_view(trace@) =~= trace_view(old(trace)@) + Seq::<WireOpV>::empty());
        assert(Seq::<(u64, Result<Seq<char>, SessionErrorV>)>::empty() + end.results
            =~= end.results);
    }
    while !queue.is_empty()
        invariant
            queue.wf(),
            end == spec_serve(
                old(engine).state,
                old(engine).identity.deep_view(),
                reqs0,
                sc,
                max_timeouts as nat,
            ),
            reqs0 == old(queue)@,
            sc == scripts.deep_view(),
            sc.len() == reqs0.len(),
            n == scripts@.len(),
            k <= reqs0.len(),
            queue@ == reqs0.skip(k as int),
            ({
                let rest = spec_serve(
                    engine.state,
                    engine.identity.deep_view(),
                    queue@,
                    sc.skip(k as int),
                    max_timeouts as nat,
                );
                &&& end.results == results_view(out@) + rest.results
                &&& trace_view(trace@) + rest.trace == trace_view(old(trace)@) + end.trace
                &&& end.state == rest.state
                &&& end.identity == rest.identity
            }),
        decreases queue@.len(),
    {
        proof {
            assert(queue@[0] == reqs0[k as int]);
            assert(queue@.drop_first() =~= reqs0.skip(k + 1));
            assert(sc.skip(k as int)[0] == sc[k as int]);
            assert(sc.skip(k as int).drop_first() =~= sc.skip(k + 1));
            assert(sc[k as int] == scripts@[k as int].deep_view());
        }
        let q = match queue.dequeue() {
            Some(q) => q,
            None => {
                // unreachable: the queue is not empty
                proof {
                    assert(false);
                }
                vstd::pervasive::unreached()
            },
        };
        let script = &scripts[k];
        let res = engine.send_and_await_scripted(
            q.prompt.as_str(),
            script,
            max_timeouts,
            trace,
        );
        proof {
            lemma_results_view_push(out@, (q.ticket, res));
        }
        let p = (q.ticket, res);
        out.push(p);
        k += 1;
        proof {
            let rest2 = spec_serve(
                engine.state,
                engine.identity.deep_view(),
                queue@,
                sc.skip(k as int),
                max_timeouts as nat,
            );
            assert(results_view(out@) + rest2.results =~= end.results);
            assert(trace_view(trace@) + rest2.trace =~= trace_view(old(trace)@) + end.trace);
        }
    }
    proof {
        assert(queue@ =~= Seq::<(u64, Seq<char>)>::empty());
        assert(results_view(out@) + Seq::<(u64, Result<Seq<char>, SessionErrorV>)>::empty()
            =~= results_view(out@));
        assert(trace_view(trace@) + Seq::<WireOpV>::empty() =~= trace_view(trace@));
    }
    out
}

} // verus!
