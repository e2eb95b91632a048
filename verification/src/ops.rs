//! The run state of the long operations (purges, departures, wipes): whether
//! one is running, paused, or asked to stop.
use vstd::prelude::*;

verus! {

/// The flags of the current long operation.
#[derive(Debug, Clone, Copy, PartialEq, Eq, Structural)]
pub struct OperationStatus {
    pub is_running: bool,
    pub is_paused: bool,
    pub should_abort: bool,
}

/// A request the user makes of the running operation.
pub ghost enum UserCommand {
    Pause,
    Resume,
    Abort,
}

/// The flags after one request of the user.
pub open spec fn after_command(s: OperationStatus, c: UserCommand) -> OperationStatus {
    match c {
        UserCommand::Pause => OperationStatus { is_paused: true, ..s },
        UserCommand::Resume => OperationStatus { is_paused: false, ..s },
        UserCommand::Abort => OperationStatus { should_abort: true, ..s },
    }
}

/// The flags after a sequence of requests of the user, in order.
pub open spec fn after_commands(s: OperationStatus, cs: Seq<UserCommand>) -> OperationStatus
    decreases cs.len(),
{
    if cs.len() == 0 {
        s
    } else {
        after_command(after_commands(s, cs.drop_last()), cs.last())
    }
}

impl OperationStatus {
    /// No operation: nothing running, paused or stopping.
    pub fn idle() -> (r: OperationStatus)
        ensures
            !r.is_running && !r.is_paused && !r.should_abort,
    {
        OperationStatus { is_running: false, is_paused: false, should_abort: false }
    }

    /// Clears all three flags (the end of an operation).
    pub fn reset(&mut self)
        ensures
            !final(self).is_running && !final(self).is_paused && !final(self).should_abort,
    {
        self.is_running = false;
        self.is_paused = false;
        self.should_abort = false;
    }

    /// Clears the pause and abort requests left from before, keeping the running flag.
    pub fn prepare(&mut self)
        ensures
            final(self).is_running == old(self).is_running,
            !final(self).is_paused && !final(self).should_abort,
    {
        self.is_paused = false;
        self.should_abort = false;
    }

    /// Prepares and marks an operation as running (what each operation does first).
    pub fn start(&mut self)
        ensures
            final(self).is_running && !final(self).is_paused && !final(self).should_abort,
    {
        self.prepare();
        self.is_running = true;
    }

    /// The user pauses the operation.
    pub fn pause(&mut self)
        ensures
            *final(self) == after_command(*old(self), UserCommand::Pause),
    {
        self.is_paused = true;
    }

    /// The user resumes the operation.
    pub fn resume(&mut self)
        ensures
            *final(self) == after_command(*old(self), UserCommand::Resume),
    {
        self.is_paused = false;
    }

    /// The user asks the operation to stop.
    pub fn abort(&mut self)
        ensures
            *final(self) == after_command(*old(self), UserCommand::Abort),
    {
        self.should_abort = true;
    }

    /// Whether an operation that has waited out any pause goes on with its next step.
    pub fn may_continue(&self) -> (r: bool)
        ensures
            r == !self.should_abort,
    {
        !self.should_abort
    }
}

/// A stop request is never undone by the user: once the operation was
/// asked to stop (before, or by any request in the sequence), no sequence
/// of pauses and resumptions lets it go on, and pausing or resuming changes
/// nothing but the pause flag.
pub proof fn lemma_abort_is_sticky(s: OperationStatus, cs: Seq<UserCommand>)
    ensures
        (s.should_abort || cs.contains(UserCommand::Abort)) ==> after_commands(s, cs).should_abort,
        after_commands(s, cs).is_running == s.is_running,
        !cs.contains(UserCommand::Abort) ==> after_commands(s, cs).should_abort == s.should_abort,
    decreases cs.len(),
{
    if cs.len() > 0 {
        let init = cs.drop_last();
        lemma_abort_is_sticky(s, init);
        if cs.contains(UserCommand::Abort) && cs.last() != UserCommand::Abort {
            let k = choose|k: int| 0 <= k < cs.len() && cs[k] == UserCommand::Abort;
            assert(init[k] == UserCommand::Abort);
        }
        if !cs.contains(UserCommand::Abort) {
            assert forall|k: int| 0 <= k < init.len() implies init[k] != UserCommand::Abort by {
                assert(cs[k] == init[k]);
            }
            assert(cs[cs.len() - 1] == cs.last());
        }
    }
}

/// The operation that anonymizes the profile.
pub struct GhostProfileOperation;

impl GhostProfileOperation {
    /// Its registry id.
    pub fn id(&self) -> (r: &'static str)
        ensures
            r@ == "ghost_profile"@,
    {
        "ghost_profile"
    }

    /// Its display name.
    pub fn name(&self) -> (r: &'static str)
        ensures
            r@ == "Profile Anonymization"@,
    {
        "Profile Anonymization"
    }
}

} // verus!
