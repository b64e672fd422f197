use vstd::prelude::*;

use crate::engine::decode_allows;
use crate::image::OutcomeModel;
use crate::rpc::serve_request;
use crate::wire::{framed, outcome_payload};

verus! {

/// Where the sandboxed child stands. It starts `Spawned`, may only become
/// `Serving` once its capability profile is active, and never leaves `Stopped`.
#[derive(Clone, Copy, PartialEq, Eq, Structural, Debug)]
pub enum ChildPhase {
    Spawned,
    Serving,
    Stopped,
}

/// What happened since the child's last action.
pub enum ChildEvent {
    /// The capability profile is now active for the whole process.
    Activated,
    /// The capability profile could not be confirmed active.
    ActivationFailed,
    /// A whole request body was read from the channel.
    Request(Vec<u8>),
    /// The parent closed its end of the channel.
    Closed,
    /// The channel broke or carried an unreadable message.
    Fault,
}

/// What the child does next.
pub enum ChildAction {
    /// Read the next request from the channel.
    ReadRequest,
    /// Write this response message, then read the next request.
    Reply(Vec<u8>),
    /// Leave the server loop.
    Exit,
}

/// The decisions of the sandboxed child: no byte of the channel is asked
/// for, and no request is decoded, before the profile is active.
pub struct ChildSession {
    phase: ChildPhase,
}

impl ChildSession {
    pub closed spec fn spec_phase(&self) -> ChildPhase {
        self.phase
    }

    /// A child that has just started and holds its channel endpoint.
    pub fn new() -> (r: ChildSession)
        ensures
            r.spec_phase() == ChildPhase::Spawned,
    {
        ChildSession { phase: ChildPhase::Spawned }
    }

    pub fn phase(&self) -> (r: ChildPhase)
        ensures
            r == self.spec_phase(),
    {
        self.phase
    }

    /// Whether the channel may be read now: only once the profile is active.
    pub fn may_read(&self) -> (r: bool)
        ensures
            r == (self.spec_phase() == ChildPhase::Serving),
    {
        self.phase == ChildPhase::Serving
    }

    /// Takes one event and decides the next action. Activation moves a
    /// spawned child to serving; a request while serving is decoded and
    /// answered; anything else, a closed channel included, stops the child.
    pub fn step(&mut self, ev: ChildEvent) -> (a: ChildAction)
        ensures
            old(self).spec_phase() == ChildPhase::Spawned && ev is Activated ==> {
                &&& final(self).spec_phase() == ChildPhase::Serving
                &&& a is ReadRequest
            },
            old(self).spec_phase() == ChildPhase::Serving && ev is Request ==> exists|
                o: OutcomeModel,
            |
                decode_allows(ev->Request_0@, o) && match a {
                    ChildAction::Reply(v) => final(self).spec_phase() == ChildPhase::Serving
                        && v@ == framed(outcome_payload(o)),
                    ChildAction::Exit => final(self).spec_phase() == ChildPhase::Stopped
                        && outcome_payload(o).len() > u32::MAX,
                    ChildAction::ReadRequest => false,
                },
            !(old(self).spec_phase() == ChildPhase::Spawned && ev is Activated)
                && !(old(self).spec_phase() == ChildPhase::Serving && ev is Request) ==> {
                &&& final(self).spec_phase() == ChildPhase::Stopped
                &&& a is Exit
            },
    {
        match (self.phase, ev) {
            (ChildPhase::Spawned, ChildEvent::Activated) => {
                self.phase = ChildPhase::Serving;
                ChildAction::ReadRequest
            },
            (ChildPhase::Serving, ChildEvent::Request(body)) => {
                match serve_request(body.as_slice()) {
                    Some(v) => ChildAction::Reply(v),
                    None => {
                        self.phase = ChildPhase::Stopped;
                        ChildAction::Exit
                    },
                }
            },
            _ => {
                self.phase = ChildPhase::Stopped;
                ChildAction::Exit
            },
        }
    }
}

} // verus!
