//! The decisions of a green system's control loop: its running state and
//! status, how it stops, and how it answers its controller's requests.
use vstd::prelude::*;
use crate::subsys::{Failure, NotReady, Status};
use crate::sysgreen::Control;

verus! {

/// Whether a system runs, and its status.
#[derive(Debug, Clone, Copy, PartialEq, Eq)]
pub struct SystemState {
    pub running: bool,
    pub status: Status,
}

/// What a stop does, in order: prepare (announce the stop), call the
/// system's own stop handler, then halt.
#[derive(Debug, Clone, Copy, PartialEq, Eq)]
pub struct StopPlan {
    pub prepare: bool,
    pub call_on_stop: bool,
    pub halt: bool,
}

/// How a system answers a stop request.
#[derive(Debug, Clone, Copy, PartialEq, Eq)]
pub enum StopRequestAction {
    /// Already stopping without halting, and no halt asked: answer success.
    AlreadyStopping,
    /// Stop, with this severity.
    Stop { halt: bool },
}

/// How a system handles an order of its controller.
#[derive(Debug, Clone, Copy, PartialEq, Eq)]
pub enum ControlAction {
    Resume,
    Stop { halt: bool },
    /// Orders that systems do not handle yet.
    Unsupported(Control),
}

/// How a resume request ends.
#[derive(Debug, Clone, Copy, PartialEq, Eq)]
pub enum ResumeAction {
    /// Not paused: answer success and go on.
    NotPaused,
    /// Paused: ask the system whether it is ready.
    AskSystem,
}

impl SystemState {
    /// A system that has just started: running, not ready yet.
    pub fn started() -> (r: Self)
        ensures
            r.running,
            r.status == Status::NotReady(NotReady::Normal),
    {
        SystemState { running: true, status: Status::NotReady(NotReady::Normal) }
    }

    /// Whether the system is stopping, and whether it halts.
    pub fn status_stop(&self) -> (r: Option<bool>)
        ensures
            match self.status {
                Status::NotReady(NotReady::Stop { halt }) => r == Some(halt),
                _ => r is None,
            },
    {
        match self.status {
            Status::NotReady(NotReady::Stop { halt }) => Some(halt),
            _ => None,
        }
    }

    pub fn is_not_ready(&self) -> (b: bool)
        ensures
            b == (self.status != Status::Ready),
    {
        !matches!(self.status, Status::Ready)
    }

    pub fn is_paused(&self) -> (b: bool)
        ensures
            b == (self.status == Status::NotReady(NotReady::Pause)),
    {
        matches!(self.status, Status::NotReady(NotReady::Pause))
    }

    pub fn status_not_ready(&self) -> (r: Option<NotReady>)
        ensures
            match self.status {
                Status::NotReady(v) => r == Some(v),
                Status::Ready => r is None,
            },
    {
        match self.status {
            Status::NotReady(v) => Some(v),
            Status::Ready => None,
        }
    }

    /// What stopping with `halt` does: nothing for a system that no longer
    /// runs; a system that is not stopping yet prepares and halts; the
    /// system's own handler runs for a halt unless it is halting already.
    pub fn stop_plan(&self, halt: bool) -> (r: StopPlan)
        ensures
            !self.running ==> r == (StopPlan { prepare: false, call_on_stop: false, halt: false }),
            self.running ==> r == (StopPlan {
                prepare: !(self.status is NotReady && self.status->NotReady_0 is Stop),
                call_on_stop: halt && !(self.status == Status::NotReady(NotReady::Stop { halt: true })),
                halt: !(self.status is NotReady && self.status->NotReady_0 is Stop),
            }),
    {
        if !self.running {
            return StopPlan { prepare: false, call_on_stop: false, halt: false };
        }
        let stopping = self.status_stop();
        let halting = match stopping {
            Some(h) => h,
            None => false,
        };
        StopPlan { prepare: stopping.is_none(), call_on_stop: halt && !halting, halt: stopping.is_none() }
    }

    /// Prepares a stop: the status becomes stopping with `halt`; a stop
    /// without halt is announced where the channel is open. Returns the
    /// status to announce.
    pub fn prepare_stop(&mut self, halt: bool, tx_closed: bool) -> (r: Option<Status>)
        ensures
            !old(self).running ==> *final(self) == *old(self) && r is None,
            old(self).running ==> final(self).running && final(self).status == Status::NotReady(NotReady::Stop { halt }),
            old(self).running ==> r == (if !tx_closed && !halt { Some(Status::NotReady(NotReady::Stop { halt })) } else { None::<Status> }),
    {
        if !self.running {
            return None;
        }
        self.status = Status::NotReady(NotReady::Stop { halt });
        if !tx_closed && !halt {
            Some(self.status)
        } else {
            None
        }
    }

    /// Halts: the status becomes a halting stop and the system no longer
    /// runs. Returns whether the receiving end must be closed.
    pub fn halt(&mut self, rx_closed: bool) -> (close_rx: bool)
        ensures
            !old(self).running ==> *final(self) == *old(self) && !close_rx,
            old(self).running ==> !final(self).running && final(self).status == Status::NotReady(NotReady::Stop { halt: true }),
            old(self).running ==> close_rx == !rx_closed,
    {
        if !self.running {
            return false;
        }
        self.status = Status::NotReady(NotReady::Stop { halt: true });
        self.running = false;
        !rx_closed
    }

    /// How a stop request with `halt` is answered.
    pub fn stop_request_action(&self, halt: bool) -> (r: StopRequestAction)
        ensures
            r == (if self.status == Status::NotReady(NotReady::Stop { halt: false }) && !halt {
                StopRequestAction::AlreadyStopping
            } else {
                StopRequestAction::Stop { halt }
            }),
    {
        match self.status {
            Status::NotReady(NotReady::Stop { halt: false }) if !halt => StopRequestAction::AlreadyStopping,
            _ => StopRequestAction::Stop { halt },
        }
    }

    /// How a resume request starts.
    pub fn resume_action(&self) -> (r: ResumeAction)
        ensures
            r == (if self.status == Status::NotReady(NotReady::Pause) {
                ResumeAction::AskSystem
            } else {
                ResumeAction::NotPaused
            }),
    {
        if self.is_paused() {
            ResumeAction::AskSystem
        } else {
            ResumeAction::NotPaused
        }
    }

    /// Ends a resume after the system said whether it is ready: ready
    /// systems become ready and the resume succeeds; others are not ready
    /// (normal) and the resume fails.
    pub fn resume_with(&mut self, ready: bool) -> (r: Result<(), Failure>)
        ensures
            final(self).running == old(self).running,
            ready ==> final(self).status == Status::Ready && r is Ok,
            !ready ==> final(self).status == Status::NotReady(NotReady::Normal) && r is Err,
    {
        if ready {
            self.status = Status::Ready;
            Ok(())
        } else {
            self.status = Status::NotReady(NotReady::Normal);
            Err(Failure)
        }
    }
}

/// How an order of the controller is handled.
pub fn control_action(control: Control) -> (r: ControlAction)
    ensures
        match control {
            Control::Resume => r == ControlAction::Resume,
            Control::Stop { halt } => r == (ControlAction::Stop { halt }),
            _ => r == ControlAction::Unsupported(control),
        },
{
    match control {
        Control::Resume => ControlAction::Resume,
        Control::Stop { halt } => ControlAction::Stop { halt },
        _ => ControlAction::Unsupported(control),
    }
}

} // verus!
