//! The host that runs the daemon as a service of the operating system.

use vstd::prelude::*;

verus! {

/// What the operating system asks of a service.
#[derive(Clone, Copy, Debug, PartialEq, Eq, Structural)]
pub enum ServiceControl {
    Stop,
    Shutdown,
    Interrogate,
    Other,
}

/// Whether the daemon is to be stopped, and whether the host knows what it was asked.
#[derive(Clone, Copy, Debug, PartialEq, Eq, Structural)]
pub struct ControlAnswer {
    pub stop: bool,
    pub known: bool,
}

/// What the host does when the operating system asks something of it.
pub fn event_handler(control: ServiceControl) -> (r: ControlAnswer)
    ensures
        r.stop == (control == ServiceControl::Stop || control == ServiceControl::Shutdown),
        r.known == (control != ServiceControl::Other),
{
    match control {
        ServiceControl::Stop => ControlAnswer { stop: true, known: true },
        ServiceControl::Shutdown => ControlAnswer { stop: true, known: true },
        ServiceControl::Interrogate => ControlAnswer { stop: false, known: true },
        ServiceControl::Other => ControlAnswer { stop: false, known: false },
    }
}

/// The state that a service tells the operating system.
#[derive(Clone, Copy, Debug, PartialEq, Eq, Structural)]
pub enum ServiceState {
    StartPending,
    Running,
    StopPending,
    Stopped,
}

/// What a service tells the operating system: its state, how long it may take to leave it, in
/// seconds, and whether it can be stopped now.
#[derive(Clone, Copy, Debug, PartialEq, Eq, Structural)]
pub struct ServiceStatus {
    pub state: ServiceState,
    pub wait_hint_seconds: u64,
    pub accepts_stop: bool,
}

/// What a service tells the operating system in a state.
pub open spec fn status_of(state: ServiceState) -> ServiceStatus {
    ServiceStatus {
        state,
        wait_hint_seconds: match state {
            ServiceState::StartPending => 20,
            ServiceState::StopPending => 10,
            _ => 0,
        },
        accepts_stop: state == ServiceState::Running,
    }
}

/// What a service tells the operating system in a state.
pub fn set_status(state: ServiceState) -> (r: ServiceStatus)
    ensures
        r == status_of(state),
{
    ServiceStatus {
        state,
        wait_hint_seconds: match state {
            ServiceState::StartPending => 20,
            ServiceState::StopPending => 10,
            ServiceState::Running => 0,
            ServiceState::Stopped => 0,
        },
        accepts_stop: state == ServiceState::Running,
    }
}

/// What comes of a second of watching the daemon.
#[derive(Clone, Copy, Debug, PartialEq, Eq, Structural)]
pub enum Watch {
    /// It was asked to stop.
    Stop,
    /// The daemon has ended by itself.
    Failed,
    Again,
}

/// What comes of a second of watching the daemon. To be asked to stop comes first.
pub fn supervise(stop_requested: bool, daemon_ended: bool) -> (r: Watch)
    ensures
        r == (if stop_requested {
            Watch::Stop
        } else if daemon_ended {
            Watch::Failed
        } else {
            Watch::Again
        }),
{
    if stop_requested {
        Watch::Stop
    } else if daemon_ended {
        Watch::Failed
    } else {
        Watch::Again
    }
}

/// How far the host has come.
#[derive(Clone, Copy, Debug, PartialEq, Eq, Structural)]
pub enum HostStage {
    Starting,
    Launching,
    Running,
    Watching,
    Stopping,
    Checking,
    Killing,
    Stopped,
    Done,
}

/// What has come back.
#[derive(Clone, Copy, Debug, PartialEq, Eq, Structural)]
pub enum HostSignal {
    /// Whether it worked.
    Worked(bool),
    /// What a second of watching has shown.
    Watched { stop_requested: bool, daemon_ended: bool },
    /// Whether the daemon has ended, where that could be found out.
    Ended(Option<bool>),
}

/// What is done next.
#[derive(Clone, Copy, Debug, PartialEq, Eq, Structural)]
pub enum HostRequest {
    Publish(ServiceState),
    Launch,
    Watch,
    Check,
    /// The daemon is stopped and waited for.
    Kill,
    Finish,
    Fail,
    /// What came back is not what was asked for.
    Unexpected,
}

/// What is done next, and how far the host is then. The daemon is started before the service says that
/// it runs, and it is gone before the service says that it has stopped.
pub open spec fn host_step(stage: HostStage, signal: HostSignal) -> (HostStage, HostRequest) {
    match (stage, signal) {
        (HostStage::Starting, HostSignal::Worked(true)) => (
            HostStage::Launching,
            HostRequest::Launch,
        ),
        (HostStage::Launching, HostSignal::Worked(true)) => (
            HostStage::Running,
            HostRequest::Publish(ServiceState::Running),
        ),
        (HostStage::Running, HostSignal::Worked(true)) => (HostStage::Watching, HostRequest::Watch),
        (HostStage::Watching, HostSignal::Watched { stop_requested, daemon_ended }) => {
            if stop_requested {
                (HostStage::Stopping, HostRequest::Publish(ServiceState::StopPending))
            } else if daemon_ended {
                (HostStage::Done, HostRequest::Fail)
            } else {
                (HostStage::Watching, HostRequest::Watch)
            }
        },
        (HostStage::Stopping, HostSignal::Worked(true)) => (HostStage::Checking, HostRequest::Check),
        (HostStage::Checking, HostSignal::Ended(Some(true))) => (
            HostStage::Stopped,
            HostRequest::Publish(ServiceState::Stopped),
        ),
        (HostStage::Checking, HostSignal::Ended(Some(false))) => (
            HostStage::Killing,
            HostRequest::Kill,
        ),
        (HostStage::Checking, HostSignal::Ended(None)) => (HostStage::Done, HostRequest::Fail),
        (HostStage::Killing, HostSignal::Worked(true)) => (
            HostStage::Stopped,
            HostRequest::Publish(ServiceState::Stopped),
        ),
        (HostStage::Stopped, HostSignal::Worked(true)) => (HostStage::Done, HostRequest::Finish),
        (HostStage::Watching, _) => (stage, HostRequest::Unexpected),
        (HostStage::Checking, _) => (stage, HostRequest::Unexpected),
        (HostStage::Done, _) => (stage, HostRequest::Unexpected),
        (_, HostSignal::Worked(false)) => (HostStage::Done, HostRequest::Fail),
        _ => (stage, HostRequest::Unexpected),
    }
}

/// The host that runs the daemon.
#[derive(Clone, Copy)]
pub struct ServiceHost {
    pub stage: HostStage,
}

impl ServiceHost {
    /// The host starts: it says that it does.
    pub fn run_service() -> (r: (ServiceHost, HostRequest))
        ensures
            r.0.stage == HostStage::Starting,
            r.1 == HostRequest::Publish(ServiceState::StartPending),
    {
        (
            ServiceHost { stage: HostStage::Starting },
            HostRequest::Publish(ServiceState::StartPending),
        )
    }

    fn go(&mut self, stage: HostStage, request: HostRequest) -> (r: HostRequest)
        ensures
            final(self).stage == stage,
            r == request,
    {
        self.stage = stage;
        request
    }

    /// Takes what has come back, and tells what is to be done next.
    pub fn next(&mut self, signal: HostSignal) -> (request: HostRequest)
        ensures
            (final(self).stage, request) == host_step(old(self).stage, signal),
    {
        match (self.stage, signal) {
            (HostStage::Watching, HostSignal::Watched { stop_requested, daemon_ended }) => {
                match supervise(stop_requested, daemon_ended) {
                    Watch::Stop => self.go(
                        HostStage::Stopping,
                        HostRequest::Publish(ServiceState::StopPending),
                    ),
                    Watch::Failed => self.go(HostStage::Done, HostRequest::Fail),
                    Watch::Again => self.go(HostStage::Watching, HostRequest::Watch),
                }
            },
            (HostStage::Watching, _) => HostRequest::Unexpected,
            (HostStage::Checking, HostSignal::Ended(ended)) => match ended {
                Some(true) => self.go(
                    HostStage::Stopped,
                    HostRequest::Publish(ServiceState::Stopped),
                ),
                Some(false) => self.go(HostStage::Killing, HostRequest::Kill),
                None => self.go(HostStage::Done, HostRequest::Fail),
            },
            (HostStage::Checking, _) => HostRequest::Unexpected,
            (HostStage::Done, _) => HostRequest::Unexpected,
            (_, HostSignal::Watched { .. }) => HostRequest::Unexpected,
            (_, HostSignal::Ended(_)) => HostRequest::Unexpected,
            (stage, HostSignal::Worked(worked)) => {
                if !worked {
                    return self.go(HostStage::Done, HostRequest::Fail);
                }
                match stage {
                    HostStage::Starting => self.go(HostStage::Launching, HostRequest::Launch),
                    HostStage::Launching => self.go(
                        HostStage::Running,
                        HostRequest::Publish(ServiceState::Running),
                    ),
                    HostStage::Running => self.go(HostStage::Watching, HostRequest::Watch),
                    HostStage::Stopping => self.go(HostStage::Checking, HostRequest::Check),
                    HostStage::Killing => self.go(
                        HostStage::Stopped,
                        HostRequest::Publish(ServiceState::Stopped),
                    ),
                    _ => self.go(HostStage::Done, HostRequest::Finish),
                }
            },
        }
    }
}

/// A service that says that it has stopped has found its daemon ended or has stopped it.
pub proof fn law_stopped_means_ended(stage: HostStage, signal: HostSignal)
    requires
        host_step(stage, signal).1 == HostRequest::Publish(ServiceState::Stopped),
    ensures
        (stage == HostStage::Checking && signal == HostSignal::Ended(Some(true))) || (stage
            == HostStage::Killing && signal == HostSignal::Worked(true)),
{
}

/// A host that is asked to stop says so, finds out whether the daemon has ended, and stops it where it has
/// not; it never says that it is finished before it has said that it is stopped; and a daemon that ends by
/// itself is a failure.
pub proof fn law_a_stop_is_carried_through(stage: HostStage, signal: HostSignal, daemon_ended: bool)
    ensures
        host_step(
            HostStage::Watching,
            HostSignal::Watched { stop_requested: true, daemon_ended },
        ) == (HostStage::Stopping, HostRequest::Publish(ServiceState::StopPending)),
        host_step(
            HostStage::Watching,
            HostSignal::Watched { stop_requested: false, daemon_ended: true },
        ) == (HostStage::Done, HostRequest::Fail),
        host_step(
            HostStage::Watching,
            HostSignal::Watched { stop_requested: false, daemon_ended: false },
        ) == (HostStage::Watching, HostRequest::Watch),
        host_step(HostStage::Stopping, HostSignal::Worked(true)).1 is Check,
        host_step(HostStage::Checking, HostSignal::Ended(Some(false))).1 is Kill,
        host_step(stage, signal).1 is Finish ==> stage == HostStage::Stopped,
        host_step(stage, signal).0 == HostStage::Stopped && stage != HostStage::Stopped ==> host_step(
            stage,
            signal,
        ).1 == HostRequest::Publish(ServiceState::Stopped),
        host_step(stage, signal).1 is Launch ==> stage == HostStage::Starting,
        stage == HostStage::Done ==> host_step(stage, signal) == (stage, HostRequest::Unexpected),
{
}

/// Only a service that runs can be asked to stop, and only one on its way says how long that may take.
pub proof fn law_a_running_service_can_be_stopped(state: ServiceState)
    ensures
        status_of(state).state == state,
        status_of(state).accepts_stop <==> state == ServiceState::Running,
        status_of(state).wait_hint_seconds > 0 <==> state == ServiceState::StartPending || state
            == ServiceState::StopPending,
{
}

} // verus!
