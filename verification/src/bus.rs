//! Extension event bus: events posted by extensions and collected by
//! whoever hosts them.

use vstd::prelude::*;

verus! {

/// One event on the bus.
#[derive(Debug, PartialEq, Eq)]
pub struct Event {
    /// Namespace of the event, such as a subsystem name.
    pub ns: String,
    /// Name of the event within its namespace.
    pub name: String,
    /// Free-form payload.
    pub payload: String,
}

impl Clone for Event {
    fn clone(&self) -> (r: Self)
        ensures
            r == *self,
    {
        Event { ns: self.ns.clone(), name: self.name.clone(), payload: self.payload.clone() }
    }
}

impl Event {
    /// Build an event from its three parts.
    pub fn new(ns: &str, name: &str, payload: &str) -> (r: Event)
        ensures
            r.ns@ == ns@,
            r.name@ == name@,
            r.payload@ == payload@,
    {
        Event { ns: ns.to_owned(), name: name.to_owned(), payload: payload.to_owned() }
    }
}

/// A sink extensions post their events to; the host implements it.
pub trait HostMessenger {
    /// Deliver one event; an error is a free-form description.
    fn post(&mut self, evt: &Event) -> Result<(), String>;
}

/// In-memory bus: keeps every posted event in order.
#[derive(Debug)]
pub struct InMemoryBus {
    events: Vec<Event>,
}

impl InMemoryBus {
    /// The events posted so far, oldest first.
    pub closed spec fn log(&self) -> Seq<Event> {
        self.events@
    }

    /// An empty bus.
    pub fn new() -> (r: InMemoryBus)
        ensures
            r.log().len() == 0,
    {
        InMemoryBus { events: Vec::new() }
    }

    /// Number of events posted so far.
    pub fn len(&self) -> (r: usize)
        ensures
            r == self.log().len(),
    {
        self.events.len()
    }

    /// Copy of all posted events, oldest first.
    pub fn events(&self) -> (r: Vec<Event>)
        ensures
            r@ == self.log(),
    {
        let mut out: Vec<Event> = Vec::new();
        let n = self.events.len();
        for i in 0..n
            invariant
                n == self.events@.len(),
                out@ == self.events@.take(i as int),
        {
            out.push(self.events[i].clone());
            proof {
                assert(out@ =~= self.events@.take(i + 1));
            }
        }
        proof {
            assert(out@ =~= self.log());
        }
        out
    }
}

impl HostMessenger for InMemoryBus {
    /// Append the event to the log; never fails.
    fn post(&mut self, evt: &Event) -> (r: Result<(), String>)
        ensures
            r is Ok,
            final(self).log().len() == old(self).log().len() + 1,
            final(self).log().drop_last() == old(self).log(),
            final(self).log().last().ns@ == evt.ns@,
            final(self).log().last().name@ == evt.name@,
            final(self).log().last().payload@ == evt.payload@,
    {
        self.events.push(evt.clone());
        proof {
            assert(self.log().drop_last() =~= old(self).log());
        }
        Ok(())
    }
}

} // verus!
