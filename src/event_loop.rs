use vstd::prelude::*;
use crate::game_event::GameEvent;

verus! {

/// The serialized contents of an event.
pub type Payload = Vec<u8>;

/// Something that reacts to delivered events.
pub trait Handler {
    fn handle(&mut self, event: &GameEvent, payload: &Payload);
}

/// A handler bound to the kind of event it receives.
pub struct Registration<H> {
    pub event: GameEvent,
    pub handler: H,
}

/// Positions, in increasing order, of the registrations among the first `n`
/// whose kind is `event`.
pub open spec fn matching_positions<H>(regs: Seq<Registration<H>>, event: GameEvent, n: nat) -> Seq<usize>
    decreases n,
{
    if n == 0 {
        seq![]
    } else {
        let before = matching_positions(regs, event, (n - 1) as nat);
        if regs[n - 1].event == event {
            before.push((n - 1) as usize)
        } else {
            before
        }
    }
}

/// The handlers for `event`, by position, in the order they were registered.
pub open spec fn handlers_for<H>(regs: Seq<Registration<H>>, event: GameEvent) -> Seq<usize> {
    matching_positions(regs, event, regs.len())
}

/// With no match among the first `n` registrations, none of them has the kind.
pub proof fn lemma_no_matching_positions<H>(regs: Seq<Registration<H>>, event: GameEvent, n: nat)
    requires
        n <= regs.len(),
        matching_positions(regs, event, n).len() == 0,
    ensures
        forall|i: int| 0 <= i < n ==> (#[trigger] regs[i]).event != event,
    decreases n,
{
    if n > 0 {
        lemma_no_matching_positions(regs, event, (n - 1) as nat);
    }
}

/// Registrations added later do not change the matches among the first `n`.
pub proof fn lemma_matching_positions_prefix<H>(
    regs: Seq<Registration<H>>,
    longer: Seq<Registration<H>>,
    event: GameEvent,
    n: nat,
)
    requires
        n <= regs.len(),
        regs.len() <= longer.len(),
        forall|i: int| 0 <= i < regs.len() ==> #[trigger] longer[i] == regs[i],
    ensures
        matching_positions(longer, event, n) == matching_positions(regs, event, n),
    decreases n,
{
    if n > 0 {
        lemma_matching_positions_prefix(regs, longer, event, (n - 1) as nat);
    }
}

/// Which handlers match depends only on the kinds registered.
pub proof fn lemma_matching_positions_kinds<H>(
    regs: Seq<Registration<H>>,
    other: Seq<Registration<H>>,
    event: GameEvent,
    n: nat,
)
    requires
        n <= regs.len(),
        regs.len() == other.len(),
        forall|i: int| 0 <= i < regs.len() ==> (#[trigger] other[i]).event == regs[i].event,
    ensures
        matching_positions(other, event, n) == matching_positions(regs, event, n),
    decreases n,
{
    if n > 0 {
        lemma_matching_positions_kinds(regs, other, event, (n - 1) as nat);
    }
}

/// The dispatcher: an ordered registry of handlers, each bound to one kind
/// of event. Several handlers may share a kind.
pub struct EventLoop<H> {
    pub registrations: Vec<Registration<H>>,
}

impl<H: Handler> EventLoop<H> {
    pub fn new() -> (l: EventLoop<H>)
        ensures
            l.registrations@.len() == 0,
    {
        EventLoop { registrations: Vec::new() }
    }

    /// Adds `handler` after those already registered.
    pub fn register_handler(&mut self, event: GameEvent, handler: H)
        ensures
            final(self).registrations@ == old(self).registrations@.push(Registration { event, handler }),
    {
        self.registrations.push(Registration { event, handler });
    }

    /// Whether some handler is registered for `event`.
    pub fn has_handlers(&self, event: &GameEvent) -> (r: bool)
        ensures
            r == (handlers_for(self.registrations@, *event).len() > 0),
    {
        self.handler_count(event) > 0
    }

    /// How many handlers are registered for `event`.
    pub fn handler_count(&self, event: &GameEvent) -> (r: usize)
        ensures
            r == handlers_for(self.registrations@, *event).len(),
    {
        let n = self.registrations.len();
        let mut count: usize = 0;
        let mut i: usize = 0;
        while i < n
            invariant
                i <= n,
                n == self.registrations@.len(),
                count == matching_positions(self.registrations@, *event, i as nat).len(),
                count <= i,
            decreases n - i,
        {
            if self.registrations[i].event == *event {
                count = count + 1;
            }
            i = i + 1;
        }
        count
    }

    /// Delivers one event: every handler registered for its kind runs, once
    /// each, in the order of registration. The positions of the handlers that
    /// ran are returned; the other handlers are left as they were, and every
    /// registration keeps its kind and place.
    pub fn handle_event(&mut self, event: &GameEvent, payload: &Payload) -> (invoked: Vec<usize>)
        ensures
            invoked@ == handlers_for(old(self).registrations@, *event),
            final(self).registrations@.len() == old(self).registrations@.len(),
            forall|i: int|
                0 <= i < old(self).registrations@.len() ==> (#[trigger] final(self).registrations@[i]).event
                    == old(self).registrations@[i].event,
            forall|i: int|
                0 <= i < old(self).registrations@.len() && old(self).registrations@[i].event != *event
                    ==> #[trigger] final(self).registrations@[i] == old(self).registrations@[i],
            handlers_for(old(self).registrations@, *event).len() == 0 ==> final(self).registrations@
                == old(self).registrations@,
    {
        let ghost before = self.registrations@;
        let n = self.registrations.len();
        let mut invoked: Vec<usize> = Vec::new();
        let mut i: usize = 0;
        while i < n
            invariant
                i <= n,
                n == before.len(),
                self.registrations@.len() == n,
                invoked@ == matching_positions(before, *event, i as nat),
                forall|j: int| 0 <= j < n ==> (#[trigger] self.registrations@[j]).event == before[j].event,
                forall|j: int|
                    0 <= j < n && (j >= i || before[j].event != *event) ==> #[trigger] self.registrations@[j]
                        == before[j],
            decreases n - i,
        {
            if self.registrations[i].event == *event {
                let registration = &mut self.registrations[i];
                registration.handler.handle(event, payload);
                invoked.push(i);
            }
            i = i + 1;
        }
        proof {
            if invoked@.len() == 0 {
                lemma_no_matching_positions(before, *event, n as nat);
                assert(self.registrations@ =~= before);
            }
        }
        invoked
    }

    /// Delivers events in the order given, each one's handlers finishing
    /// before the next event is looked at. Entry `k` of the result lists the
    /// handlers that ran for event `k`: each event is handled exactly once.
    pub fn handle_events(&mut self, events: &Vec<(GameEvent, Payload)>) -> (invoked: Vec<Vec<usize>>)
        ensures
            invoked@.len() == events@.len(),
            forall|k: int|
                0 <= k < events@.len() ==> (#[trigger] invoked@[k])@ == handlers_for(
                    old(self).registrations@,
                    events@[k].0,
                ),
            final(self).registrations@.len() == old(self).registrations@.len(),
            forall|i: int|
                0 <= i < old(self).registrations@.len() ==> (#[trigger] final(self).registrations@[i]).event
                    == old(self).registrations@[i].event,
    {
        let ghost before = self.registrations@;
        let mut invoked: Vec<Vec<usize>> = Vec::new();
        let mut k: usize = 0;
        while k < events.len()
            invariant
                k <= events@.len(),
                invoked@.len() == k,
                self.registrations@.len() == before.len(),
                forall|i: int| 0 <= i < before.len() ==> (#[trigger] self.registrations@[i]).event == before[i].event,
                forall|j: int| 0 <= j < k ==> (#[trigger] invoked@[j])@ == handlers_for(before, events@[j].0),
            decreases events@.len() - k,
        {
            let ghost current = self.registrations@;
            let ran = self.handle_event(&events[k].0, &events[k].1);
            proof {
                lemma_matching_positions_kinds(before, current, events@[k as int].0, before.len());
            }
            invoked.push(ran);
            k = k + 1;
        }
        invoked
    }
}

} // verus!
