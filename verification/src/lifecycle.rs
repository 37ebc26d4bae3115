//! The pipeline lifecycle runner: the decision core of the supervision
//! loop. The engine adapter blocks on the event channel and hands each
//! event here; the verdicts say when to keep consuming, when to dump a
//! diagnostic snapshot, and when to tear the graph down — and every error,
//! synchronous or late-binding, is normalized into one error value.

use vstd::prelude::*;

verus! {

/// A state of the processing graph.
#[derive(Debug, Clone, Copy, PartialEq, Eq, Structural)]
pub enum PipelineState {
    Null,
    Ready,
    Paused,
    Playing,
}

/// One event from the graph's ordered control-and-error channel.
#[derive(Debug, Clone)]
pub enum PipelineEvent {
    /// End of stream.
    Eos,
    /// A fatal error, from a stage or from a late dynamic link.
    Error { src: String, error: String, debug: Option<String> },
    /// A state transition; `src_is_pipeline` marks the top-level graph's
    /// own transitions.
    StateChanged {
        src_is_pipeline: bool,
        old_state: PipelineState,
        current: PipelineState,
        pending: PipelineState,
    },
    /// Anything else on the channel; ignored.
    Other,
}

/// The normalized error value: originating stage path, message, and
/// optional debug detail.
#[derive(Debug, Clone)]
pub struct ErrorMessage {
    pub src: String,
    pub error: String,
    pub debug: Option<String>,
}

impl ErrorMessage {
    /// Render the error for logs: stage path, message, and the debug
    /// detail when there is one.
    pub fn to_message(&self) -> (r: String)
        ensures
            self.debug is None ==> r@ == "Received error from "@ + self.src@ + ": "@
                + self.error@,
            self.debug matches Some(d) ==> r@ == "Received error from "@ + self.src@ + ": "@
                + self.error@ + " (debug: "@ + d@ + ")"@,
    {
        let mut out = String::from_str("Received error from ");
        out.append(self.src.as_str());
        out.append(": ");
        out.append(self.error.as_str());
        match &self.debug {
            Some(d) => {
                out.append(" (debug: ");
                out.append(d.as_str());
                out.append(")");
            },
            None => {},
        }
        out
    }
}

/// What the supervision loop does after one event.
#[derive(Debug, Clone)]
pub enum RunnerAction {
    /// Keep consuming events.
    Continue,
    /// Keep consuming; first persist a diagnostic snapshot of the graph
    /// (a top-level state transition was observed).
    DumpGraph,
    /// Tear the graph down to Null and return: end of stream.
    StopEos,
    /// Tear the graph down to Null and return the normalized error.
    StopError(ErrorMessage),
}

/// Decide the supervision loop's next step for one event. End of stream
/// and errors both terminate; a top-level state change is logged with a
/// graph snapshot; everything else is consumed silently.
pub fn handle_event(ev: &PipelineEvent) -> (a: RunnerAction)
    ensures
        ev is Eos <==> a is StopEos,
        ev is Error <==> a is StopError,
        *ev matches PipelineEvent::Error { src, error, debug } ==> a matches
            RunnerAction::StopError(e) && e.src@ == src@ && e.error@ == error@ && (match debug {
            Some(d) => e.debug matches Some(d2) && d2@ == d@,
            None => e.debug is None,
        }),
        *ev matches PipelineEvent::StateChanged { src_is_pipeline, .. } ==> (if src_is_pipeline {
            a is DumpGraph
        } else {
            a is Continue
        }),
        ev is Other ==> a is Continue,
{
    match ev {
        PipelineEvent::Eos => RunnerAction::StopEos,
        PipelineEvent::Error { src, error, debug } => {
            let d: Option<String> = match debug {
                Some(d) => Some(d.clone()),
                None => None,
            };
            RunnerAction::StopError(
                ErrorMessage { src: src.clone(), error: error.clone(), debug: d },
            )
        },
        PipelineEvent::StateChanged { src_is_pipeline, .. } => {
            if *src_is_pipeline {
                RunnerAction::DumpGraph
            } else {
                RunnerAction::Continue
            }
        },
        PipelineEvent::Other => RunnerAction::Continue,
    }
}

/// Whether an event ends the supervision loop.
pub open spec fn is_terminal(ev: PipelineEvent) -> bool {
    ev is Eos || ev is Error
}

/// The first terminal event of a channel history, if any.
pub open spec fn first_terminal(evs: Seq<PipelineEvent>) -> Option<PipelineEvent>
    decreases evs.len(),
{
    if evs.len() == 0 {
        None
    } else if is_terminal(evs[0]) {
        Some(evs[0])
    } else {
        first_terminal(evs.drop_first())
    }
}

/// Drive the graph through one whole supervision run, given the channel
/// history: consume events in order until end of stream or a fatal error,
/// then stand torn down (Null). The result is `Ok` exactly when no error
/// preceded end of stream; an error comes back normalized.
pub fn run(events: &Vec<PipelineEvent>) -> (r: (Result<(), ErrorMessage>, PipelineState))
    ensures
        r.1 == PipelineState::Null,
        r.0 is Ok <==> !(first_terminal(events@) matches Some(t) && t is Error),
        r.0 matches Err(e) ==> first_terminal(events@) matches Some(t) && t matches
            PipelineEvent::Error { src, error, debug } && e.src@ == src@ && e.error@ == error@
            && (match debug {
            Some(d) => e.debug matches Some(d2) && d2@ == d@,
            None => e.debug is None,
        }),
{
    let len: usize = events.len();
    let mut k: usize = 0;
    proof {
        assert(events@.skip(0) =~= events@);
    }
    while k < len
        invariant
            k <= len,
            len == events@.len(),
            first_terminal(events@) == first_terminal(events@.skip(k as int)),
        decreases len - k,
    {
        let ghost suf = events@.skip(k as int);
        proof {
            assert(suf.len() > 0);
            assert(suf[0] == events@[k as int]);
            assert(suf.drop_first() =~= events@.skip(k as int + 1));
        }
        match handle_event(&events[k]) {
            RunnerAction::StopEos => {
                proof {
                    assert(is_terminal(events@[k as int]));
                    assert(first_terminal(suf) == Some(events@[k as int]));
                }
                return (Ok(()), PipelineState::Null);
            },
            RunnerAction::StopError(e) => {
                proof {
                    assert(is_terminal(events@[k as int]));
                    assert(first_terminal(suf) == Some(events@[k as int]));
                }
                return (Err(e), PipelineState::Null);
            },
            RunnerAction::DumpGraph => {},
            RunnerAction::Continue => {},
        }
        proof {
            assert(!is_terminal(events@[k as int]));
        }
        k = k + 1;
    }
    proof {
        assert(events@.skip(len as int) =~= Seq::<PipelineEvent>::empty());
        assert(first_terminal(events@) is None);
    }
    (Ok(()), PipelineState::Null)
}

} // verus!
