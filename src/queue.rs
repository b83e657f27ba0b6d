//! Requests whose answer waits for later debugger output, in arrival order.
use vstd::prelude::*;
use std::collections::VecDeque;

verus! {

/// A request parked until the debugger has answered the commands it caused.
#[derive(Clone, Debug, PartialEq, Eq)]
pub enum InFlightRequest {
    /// A `setBreakpoints` request: its number, the lines it asked for, how
    /// many command replies are still awaited, and whether one was an error.
    SetBreakpoint { seq: i64, lines: Vec<i64>, pending: u64, failed: bool },
}

/// First in, first out: the debugger answers commands in the order they
/// were sent, so the head of the queue is the request the next reply is for.
pub struct InFlightRequestQueue {
    vec: VecDeque<InFlightRequest>,
}

impl View for InFlightRequestQueue {
    type V = Seq<InFlightRequest>;

    closed spec fn view(&self) -> Seq<InFlightRequest> {
        self.vec@
    }
}

impl InFlightRequestQueue {
    /// An empty queue.
    pub fn new() -> (r: Self)
        ensures
            r@ == Seq::<InFlightRequest>::empty(),
    {
        InFlightRequestQueue { vec: VecDeque::new() }
    }

    /// Parks `request` behind all others.
    pub fn push(&mut self, request: InFlightRequest)
        ensures
            final(self)@ == old(self)@.push(request),
    {
        self.vec.push_back(request);
    }

    /// Takes the oldest request out, if there is one.
    pub fn pop(&mut self) -> (r: Option<InFlightRequest>)
        ensures
            old(self)@.len() == 0 ==> r is None && final(self)@ == old(self)@,
            old(self)@.len() > 0 ==> r == Some(old(self)@[0]) && final(self)@ == old(self)@.drop_first(),
    {
        self.vec.pop_front()
    }

    /// Puts a request taken by `pop` back at the head.
    pub fn restore_front(&mut self, request: InFlightRequest)
        ensures
            final(self)@ == seq![request] + old(self)@,
    {
        self.vec.push_front(request);
        assert(self@ =~= seq![request] + old(self)@);
    }

    /// Whether no request waits.
    pub fn is_empty(&self) -> (r: bool)
        ensures
            r == (self@.len() == 0),
    {
        self.vec.len() == 0
    }

    /// How many requests wait.
    pub fn len(&self) -> (r: usize)
        ensures
            r == self@.len(),
    {
        self.vec.len()
    }

    /// Drops every waiting request.
    pub fn clear(&mut self)
        ensures
            final(self)@ == Seq::<InFlightRequest>::empty(),
    {
        self.vec = VecDeque::new();
    }
}

/// Requests leave in the order they came: after pushing three requests on an
/// empty queue, two pops give the first and then the second; and on any
/// queue that is not empty, a push does not change which request leaves next.
pub proof fn lemma_fifo(
    q: Seq<InFlightRequest>,
    r1: InFlightRequest,
    r2: InFlightRequest,
    r3: InFlightRequest,
)
    ensures
        Seq::<InFlightRequest>::empty().push(r1).push(r2).push(r3)[0] == r1,
        Seq::<InFlightRequest>::empty().push(r1).push(r2).push(r3).drop_first()[0] == r2,
        Seq::<InFlightRequest>::empty().push(r1).push(r2).push(r3).drop_first().drop_first() == seq![r3],
        q.len() > 0 ==> q.push(r1)[0] == q[0] && q.push(r1).drop_first() == q.drop_first().push(r1),
{
    assert(Seq::<InFlightRequest>::empty().push(r1).push(r2).push(r3).drop_first().drop_first() =~= seq![r3]);
    if q.len() > 0 {
        assert(q.push(r1).drop_first() =~= q.drop_first().push(r1));
    }
}

} // verus!
