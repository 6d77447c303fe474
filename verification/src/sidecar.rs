//! Lifecycle of the OSINT sidecar process as the desktop application tracks
//! it: whether it runs, and its process id once spawned. Spawning, waiting
//! and killing are done by the caller, which reports back.
use vstd::prelude::*;

verus! {

/// What the application knows of the sidecar.
#[derive(Debug, Clone, Copy, PartialEq, Eq, Structural)]
pub struct SidecarState {
    pub running: bool,
    pub pid: Option<u32>,
}

/// What a start request asks the caller to do.
#[derive(Debug, Clone, Copy, PartialEq, Eq, Structural)]
pub enum StartAction {
    /// Reply "Sidecar already running".
    AlreadyRunning,
    /// Check the Python environment and spawn the sidecar.
    Launch,
}

impl SidecarState {
    /// Nothing started yet.
    pub fn new() -> (s: Self)
        ensures
            s == (SidecarState { running: false, pid: None }),
    {
        SidecarState { running: false, pid: None }
    }

    /// A start request: a sidecar that runs, or has a process id, is already
    /// running (and is marked so); otherwise it is launched.
    pub fn start(&mut self) -> (a: StartAction)
        ensures
            old(self).running ==> a == StartAction::AlreadyRunning && *final(self) == *old(self),
            !old(self).running && old(self).pid is Some ==> a == StartAction::AlreadyRunning
                && *final(self) == (SidecarState { running: true, pid: old(self).pid }),
            !old(self).running && old(self).pid is None ==> a == StartAction::Launch && *final(self)
                == *old(self),
    {
        if self.running {
            return StartAction::AlreadyRunning;
        }
        if self.pid.is_some() {
            self.running = true;
            return StartAction::AlreadyRunning;
        }
        StartAction::Launch
    }

    /// The sidecar process was spawned with `pid`.
    pub fn spawned(&mut self, pid: u32)
        ensures
            *final(self) == (SidecarState { running: true, pid: Some(pid) }),
    {
        self.pid = Some(pid);
        self.running = true;
    }

    /// The sidecar process exited.
    pub fn exited(&mut self)
        ensures
            *final(self) == (SidecarState { running: false, pid: None }),
    {
        self.running = false;
        self.pid = None;
    }

    /// Spawning the sidecar failed.
    pub fn spawn_failed(&mut self)
        ensures
            *final(self) == (SidecarState { running: false, pid: old(self).pid }),
    {
        self.running = false;
    }

    /// A stop request: the process id to terminate, if there is one, which
    /// is then forgotten; with none, nothing changes.
    pub fn stop(&mut self) -> (pid: Option<u32>)
        ensures
            pid == old(self).pid,
            old(self).pid is Some ==> *final(self) == (SidecarState { running: false, pid: None }),
            old(self).pid is None ==> *final(self) == *old(self),
    {
        match self.pid {
            Some(p) => {
                self.pid = None;
                self.running = false;
                Some(p)
            },
            None => None,
        }
    }
}

} // verus!
