use vstd::prelude::*;

verus! {

/// What one bounce of the integrator learns from the scene about the current
/// ray.
#[derive(Clone, Copy, PartialEq, Eq, Structural, Debug)]
pub enum TraceEvent {
    /// The ray left the scene; the sample closes with the background color.
    Miss,
    /// The ray hit a surface that does not scatter; the sample closes with
    /// the surface's emission.
    Absorb,
    /// The ray hit a surface that scattered it into a new ray.
    Scatter,
}

/// The terminal states of one path sample.
#[derive(Clone, Copy, PartialEq, Eq, Structural, Debug)]
pub enum TraceEnd {
    Escaped,
    Absorbed,
    DepthExhausted,
}

/// The integrator's loop state: how many more scattering events the depth cap
/// allows.
#[derive(Clone, Copy, PartialEq, Eq, Structural, Debug)]
pub struct PathState {
    pub depth_left: u32,
}

/// What one bounce decides: keep tracing with the scattered ray, or stop.
#[derive(Clone, Copy, PartialEq, Eq, Structural, Debug)]
pub enum StepResult {
    Continue(PathState),
    Done(TraceEnd),
}

impl PathState {
    pub open spec fn spec_step(self, ev: TraceEvent) -> StepResult {
        match ev {
            TraceEvent::Miss => StepResult::Done(TraceEnd::Escaped),
            TraceEvent::Absorb => StepResult::Done(TraceEnd::Absorbed),
            TraceEvent::Scatter => if self.depth_left <= 1 {
                StepResult::Done(TraceEnd::DepthExhausted)
            } else {
                StepResult::Continue(PathState { depth_left: (self.depth_left - 1) as u32 })
            },
        }
    }

    /// One decision of the integrator loop. A miss or an absorbing surface
    /// ends the path; a scatter spends one unit of depth and ends the path
    /// when that was the last one. The depth strictly falls on every
    /// continuation, which is what bounds the loop.
    pub fn step(&self, ev: TraceEvent) -> (r: StepResult)
        ensures
            r == self.spec_step(ev),
            r matches StepResult::Continue(s) ==> s.depth_left < self.depth_left,
    {
        match ev {
            TraceEvent::Miss => StepResult::Done(TraceEnd::Escaped),
            TraceEvent::Absorb => StepResult::Done(TraceEnd::Absorbed),
            TraceEvent::Scatter => {
                if self.depth_left <= 1 {
                    StepResult::Done(TraceEnd::DepthExhausted)
                } else {
                    StepResult::Continue(PathState { depth_left: self.depth_left - 1 })
                }
            },
        }
    }
}

/// The end a path reaches when the scene answers its bounces with `events`,
/// read in order, together with how many events it consumed; `None` when the
/// events run out before the path ends.
pub open spec fn trace_result(events: Seq<TraceEvent>, s: PathState) -> Option<(TraceEnd, nat)>
    decreases events.len(),
{
    if events.len() == 0 {
        None
    } else {
        match s.spec_step(events.first()) {
            StepResult::Done(end) => Some((end, 1 as nat)),
            StepResult::Continue(s2) => match trace_result(events.drop_first(), s2) {
                None => None,
                Some(r) => Some((r.0, (r.1 + 1) as nat)),
            },
        }
    }
}

/// The integrator terminates: however the scene answers, a path under a
/// depth cap `d >= 1` ends within `d` bounces, so any event sequence of that
/// length is enough to close the sample — there is no endless loop even in a
/// scene that scatters forever.
pub proof fn lemma_trace_terminates(events: Seq<TraceEvent>, s: PathState)
    requires
        events.len() >= s.depth_left,
        events.len() >= 1,
    ensures
        trace_result(events, s) is Some,
        s.depth_left >= 1 ==> (trace_result(events, s) matches Some(r) && r.1 <= s.depth_left),
    decreases events.len(),
{
    match s.spec_step(events.first()) {
        StepResult::Done(end) => {},
        StepResult::Continue(s2) => {
            lemma_trace_terminates(events.drop_first(), s2);
        },
    }
}

/// Replays the integrator's decisions over a prerecorded bounce sequence:
/// the executable twin of `trace_result`, reporting the terminal state and
/// the number of bounces consumed.
pub fn run_path(events: &Vec<TraceEvent>, depth: u32) -> (r: Option<(TraceEnd, usize)>)
    ensures
        ({
            let m = trace_result(events@, PathState { depth_left: depth });
            match r {
                None => m is None,
                Some(p) => m == Some((p.0, p.1 as nat)),
            }
        }),
{
    let init = PathState { depth_left: depth };
    let mut s = init;
    let mut i: usize = 0;
    proof {
        assert(events@.skip(0) =~= events@);
    }
    while i < events.len()
        invariant
            i <= events@.len(),
            init == (PathState { depth_left: depth }),
            trace_result(events@, init) == (match trace_result(events@.skip(i as int), s) {
                None => None::<(TraceEnd, nat)>,
                Some(p) => Some((p.0, (p.1 + i) as nat)),
            }),
        decreases events@.len() - i,
    {
        let r = s.step(events[i]);
        proof {
            assert(events@.skip(i as int).first() == events@[i as int]);
            assert(events@.skip(i as int).drop_first() =~= events@.skip(i as int + 1));
        }
        match r {
            StepResult::Done(end) => {
                proof {
                    assert(trace_result(events@.skip(i as int), s) == Some((end, 1 as nat)));
                }
                return Some((end, i + 1));
            },
            StepResult::Continue(s2) => {
                s = s2;
            },
        }
        i += 1;
    }
    proof {
        assert(events@.skip(events@.len() as int).len() == 0);
    }
    None
}

} // verus!
