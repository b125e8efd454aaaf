//! The order in which a session comes up.
//!
//! Each stage is something only the outside world can do - a socket, a device, a
//! thread, a stream. [`Startup`] says which one is next, given how the last one
//! went, and whether the session counts as running meanwhile. A start that fails
//! halfway stops what it had started; one whose discovery responder cannot be had
//! carries on without it.
use vstd::prelude::*;

verus! {

#[derive(Debug, Clone, Copy, PartialEq, Eq, Structural)]
pub enum Role {
    Mixer,
    Microphone,
}

/// What kind of session is being started.
#[derive(Debug, Clone, Copy, PartialEq, Eq, Structural)]
pub struct Plan {
    pub role: Role,
    /// There are devices to choose from, as on a desktop.
    pub choose_device: bool,
    /// Probes are to be answered; only a mixer does that.
    pub discovery: bool,
}

#[derive(Debug, Clone, Copy, PartialEq, Eq, Structural)]
pub enum Stage {
    /// Bind the audio port, or connect to the mixer. Address first, device second:
    /// resolving a name is cheap and a typo in it is the common failure; opening a
    /// capture device is neither, and on some systems it raises a permission prompt.
    /// Nobody should be asked for the microphone only to be told the address was
    /// empty.
    Socket,
    /// Find the device and a config for it, so a start fails here, with a name to
    /// report, rather than later where it would only be logged.
    Device,
    /// Announce the microphone. Sent before the sender exists: the sequence number
    /// and the timestamp belong to the sender once it runs.
    Hello,
    /// Start the network or the sender thread.
    Thread,
    /// Start answering probes. Not fatal: anyone told the address by hand is
    /// unaffected.
    Discovery,
    /// Open the audio stream and wait for the first report.
    Stream,
    Up,
    Failed,
}

impl Plan {
    /// The stage after the device, or in its place where there is none to choose.
    pub open spec fn past_device(self) -> Stage {
        match self.role {
            Role::Microphone => Stage::Hello,
            Role::Mixer => Stage::Thread,
        }
    }

    /// The stage after one that went well.
    pub open spec fn next(self, stage: Stage) -> Stage {
        match stage {
            Stage::Socket => if self.choose_device {
                Stage::Device
            } else {
                self.past_device()
            },
            Stage::Device => self.past_device(),
            Stage::Hello => Stage::Thread,
            Stage::Thread => if self.discovery && self.role is Mixer {
                Stage::Discovery
            } else {
                Stage::Stream
            },
            Stage::Discovery => Stage::Stream,
            Stage::Stream => Stage::Up,
            Stage::Up => Stage::Up,
            Stage::Failed => Stage::Failed,
        }
    }

    /// The stage after one that ended as `ok` says. A HELLO that does not get
    /// through and a responder that cannot be had are no reason to stop.
    pub open spec fn after(self, stage: Stage, ok: bool) -> Stage {
        if ok || stage is Hello || stage is Discovery || stage is Up {
            self.next(stage)
        } else {
            Stage::Failed
        }
    }
}

/// A session on its way up.
#[derive(Debug, Clone, Copy, PartialEq, Eq, Structural)]
pub struct Startup {
    pub plan: Plan,
    pub stage: Stage,
}

impl Startup {
    pub fn new(plan: Plan) -> (r: Startup)
        ensures
            r == (Startup { plan, stage: Stage::Socket }),
    {
        Startup { plan, stage: Stage::Socket }
    }

    fn past_device(&self) -> (r: Stage)
        ensures
            r == self.plan.past_device(),
    {
        match self.plan.role {
            Role::Microphone => Stage::Hello,
            Role::Mixer => Stage::Thread,
        }
    }

    /// Moves on, given how the stage went.
    pub fn advance(&mut self, ok: bool)
        ensures
            *final(self) == (Startup {
                stage: old(self).plan.after(old(self).stage, ok),
                ..*old(self)
            }),
    {
        let carry_on = match self.stage {
            Stage::Hello | Stage::Discovery | Stage::Up => true,
            _ => ok,
        };
        if !carry_on {
            self.stage = Stage::Failed;
            return;
        }
        self.stage = match self.stage {
            Stage::Socket => if self.plan.choose_device {
                Stage::Device
            } else {
                self.past_device()
            },
            Stage::Device => self.past_device(),
            Stage::Hello => Stage::Thread,
            Stage::Thread => {
                let mixer = match self.plan.role {
                    Role::Mixer => true,
                    Role::Microphone => false,
                };
                if self.plan.discovery && mixer {
                    Stage::Discovery
                } else {
                    Stage::Stream
                }
            },
            Stage::Discovery => Stage::Stream,
            Stage::Stream => Stage::Up,
            Stage::Up => Stage::Up,
            Stage::Failed => Stage::Failed,
        };
    }

    /// Whether the session counts as running: its threads are to keep going.
    pub fn running(&self) -> (r: bool)
        ensures
            r == is_running(self.stage),
    {
        match self.stage {
            Stage::Thread | Stage::Discovery | Stage::Stream | Stage::Up => true,
            _ => false,
        }
    }
}

/// A session's threads keep going from the moment the first of them starts until it
/// is stopped, or fails to come up.
pub open spec fn is_running(stage: Stage) -> bool {
    stage is Thread || stage is Discovery || stage is Stream || stage is Up
}

/// Where a start has got to once its stages have gone as `outcomes` says.
pub open spec fn reached(plan: Plan, outcomes: Seq<bool>) -> Stage
    decreases outcomes.len(),
{
    if outcomes.len() == 0 {
        Stage::Socket
    } else {
        plan.after(reached(plan, outcomes.drop_last()), outcomes.last())
    }
}

/// A start whose address is no good fails before it touches anything else, and stays
/// failed.
pub proof fn law_address_comes_first(plan: Plan, outcomes: Seq<bool>)
    requires
        outcomes.len() > 0,
        !outcomes[0],
    ensures
        reached(plan, outcomes) is Failed,
    decreases outcomes.len(),
{
    if outcomes.len() == 1 {
        assert(reached(plan, outcomes.drop_last()) is Socket);
    } else {
        assert(outcomes.drop_last()[0] == outcomes[0]);
        law_address_comes_first(plan, outcomes.drop_last());
    }
}

/// A start is over within six stages: up, or failed.
pub proof fn law_a_start_ends(plan: Plan, outcomes: Seq<bool>)
    requires
        outcomes.len() >= 6,
    ensures
        reached(plan, outcomes) is Up || reached(plan, outcomes) is Failed,
    decreases outcomes.len(),
{
    lemma_progress(plan, outcomes);
}

/// How many stages are left at most.
spec fn stages_left(stage: Stage) -> int {
    match stage {
        Stage::Socket => 6,
        Stage::Device => 5,
        Stage::Hello => 4,
        Stage::Thread => 3,
        Stage::Discovery => 2,
        Stage::Stream => 1,
        Stage::Up => 0,
        Stage::Failed => 0,
    }
}

proof fn lemma_progress(plan: Plan, outcomes: Seq<bool>)
    ensures
        stages_left(reached(plan, outcomes)) <= if outcomes.len() < 6 {
            6 - outcomes.len()
        } else {
            0
        },
    decreases outcomes.len(),
{
    if outcomes.len() > 0 {
        lemma_progress(plan, outcomes.drop_last());
    }
}

/// Whether probes can be answered makes no difference to whether a mixer comes up.
pub proof fn law_discovery_is_not_fatal(plan: Plan, ok: bool)
    ensures
        plan.after(Stage::Discovery, ok) is Stream,
        is_running(plan.after(Stage::Discovery, ok)),
{
}

/// A start that failed leaves nothing running.
pub proof fn law_a_failed_start_is_not_running(plan: Plan, stage: Stage)
    requires
        stage is Socket || stage is Device || stage is Thread || stage is Stream,
    ensures
        plan.after(stage, false) is Failed,
        !is_running(plan.after(stage, false)),
{
}

/// The order in which a session comes up: the address, the device where there is one to
/// choose, a microphone's greeting, the network thread, a mixer's answers to probes where
/// they are wanted, and the stream last of all. Nothing is done twice, and what does not
/// belong to a role is left out.
pub proof fn law_the_order_of_a_start(plan: Plan)
    ensures
        plan.after(Stage::Socket, true) == if plan.choose_device {
            Stage::Device
        } else if plan.role is Microphone {
            Stage::Hello
        } else {
            Stage::Thread
        },
        plan.after(Stage::Device, true) == if plan.role is Microphone {
            Stage::Hello
        } else {
            Stage::Thread
        },
        plan.after(Stage::Hello, true) is Thread,
        plan.after(Stage::Hello, false) is Thread,
        plan.after(Stage::Thread, true) == if plan.role is Mixer && plan.discovery {
            Stage::Discovery
        } else {
            Stage::Stream
        },
        plan.after(Stage::Discovery, true) is Stream,
        plan.after(Stage::Discovery, false) is Stream,
        plan.after(Stage::Stream, true) is Up,
        plan.after(Stage::Up, true) is Up,
        plan.after(Stage::Up, false) is Up,
        plan.after(Stage::Failed, true) is Failed,
        plan.after(Stage::Failed, false) is Failed,
        is_running(Stage::Thread) && is_running(Stage::Discovery) && is_running(Stage::Stream)
            && is_running(Stage::Up),
        !is_running(Stage::Socket) && !is_running(Stage::Device) && !is_running(Stage::Hello)
            && !is_running(Stage::Failed),
{
}

} // verus!
