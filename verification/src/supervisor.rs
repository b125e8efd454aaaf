//! One owner for one audio stream, from open to close.
//!
//! Every backend can drop a stream underneath you when the route changes: a
//! headset is unplugged, a USB interface is pulled, the phone switches to
//! Bluetooth. Recovering from that means opening a replacement, and opening a
//! replacement while the old one is still live would put two producers on a
//! single-producer ring.
//!
//! So the rule is: **exactly one owner ever creates, starts or destroys an audio
//! stream.** [`Supervisor`] takes that owner's decisions: what to do on every
//! tick, and how long to wait before the next attempt. It never asks for a stream
//! to be opened while one is live.
use vstd::prelude::*;

verus! {

/// How often the supervisor wakes to refresh stats and notice a dead stream.
pub const SUPERVISOR_TICK_MS: u64 = 200;

/// Backoff ceiling for reopening a stream that will not come back.
pub const MAX_REOPEN_BACKOFF_MS: u64 = 3200;

/// What to do on a tick.
#[derive(Debug, Clone, Copy, PartialEq, Eq, Structural)]
pub enum Tick {
    /// The session is over: let go of the stream, if there is one, and leave.
    Stop { close: bool },
    /// In this order: publish the live stream's counters, let go of the stream,
    /// try to open another.
    Go { publish: bool, close: bool, open: bool },
}

/// The supervisor between ticks.
#[derive(Debug, Clone, Copy, PartialEq, Eq, Structural)]
pub struct Supervisor {
    /// A stream is open.
    pub live: bool,
    /// How long to wait after the next failed attempt.
    pub backoff_ms: u64,
}

impl Supervisor {
    /// The wait is between one tick and the ceiling.
    pub open spec fn wf(self) -> bool {
        SUPERVISOR_TICK_MS <= self.backoff_ms <= MAX_REOPEN_BACKOFF_MS
    }

    /// The wait after this one.
    pub open spec fn next_backoff(self) -> u64 {
        if 2 * self.backoff_ms < MAX_REOPEN_BACKOFF_MS {
            (2 * self.backoff_ms) as u64
        } else {
            MAX_REOPEN_BACKOFF_MS
        }
    }

    /// What to do on a tick.
    pub open spec fn decision(self, running: bool, restart_requested: bool) -> Tick {
        if !running {
            Tick::Stop { close: self.live }
        } else {
            Tick::Go {
                publish: self.live,
                close: self.live && restart_requested,
                open: !self.live || restart_requested,
            }
        }
    }

    /// The supervisor once it has decided on a tick: a stream outlives a tick that
    /// neither stops nor restarts.
    pub open spec fn after_tick(self, running: bool, restart_requested: bool) -> Supervisor {
        Supervisor { live: self.live && running && !restart_requested, ..self }
    }

    /// The supervisor once an attempt to open has ended.
    pub open spec fn after_open(self, ok: bool) -> Supervisor {
        if ok {
            Supervisor { live: true, backoff_ms: SUPERVISOR_TICK_MS }
        } else {
            Supervisor { live: false, backoff_ms: self.next_backoff() }
        }
    }

    /// Starts out on the result of the first open. `None` when that failed: a start
    /// that cannot open is the caller's to report, not something to retry behind
    /// their back.
    pub fn start(opened: bool) -> (r: Option<Supervisor>)
        ensures
            r == if opened {
                Some(Supervisor { live: true, backoff_ms: SUPERVISOR_TICK_MS })
            } else {
                None
            },
    {
        if opened {
            Some(Supervisor { live: true, backoff_ms: SUPERVISOR_TICK_MS })
        } else {
            None
        }
    }

    /// Decides what a tick does. Whatever is to be closed counts as closed from here
    /// on.
    pub fn tick(&mut self, running: bool, restart_requested: bool) -> (r: Tick)
        ensures
            r == old(self).decision(running, restart_requested),
            *final(self) == old(self).after_tick(running, restart_requested),
    {
        if !running {
            let close = self.live;
            self.live = false;
            return Tick::Stop { close };
        }
        let publish = self.live;
        let close = self.live && restart_requested;
        if restart_requested {
            // The backend has already stopped and closed it; letting our handle
            // go is all that is left before reopening.
            self.live = false;
        }
        Tick::Go { publish, close, open: !self.live }
    }

    /// Takes the result of an attempt to open. `Some` is how long to wait before the
    /// next tick, because this one failed: the device that took the route away is
    /// often still busy on the first try, and giving up once would leave a live
    /// session with dead audio.
    pub fn reopened(&mut self, ok: bool) -> (r: Option<u64>)
        requires
            old(self).wf(),
            !old(self).live,
        ensures
            final(self).wf(),
            *final(self) == old(self).after_open(ok),
            r == if ok {
                None
            } else {
                Some(old(self).backoff_ms)
            },
    {
        if ok {
            self.live = true;
            self.backoff_ms = SUPERVISOR_TICK_MS;
            None
        } else {
            let wait: u64 = self.backoff_ms;
            self.backoff_ms = if wait * 2 < MAX_REOPEN_BACKOFF_MS {
                wait * 2
            } else {
                MAX_REOPEN_BACKOFF_MS
            };
            Some(wait)
        }
    }
}

/// No tick asks for a stream to be opened while one is live: what was live is either
/// kept, and nothing is opened, or closed first.
pub proof fn law_two_streams_are_never_live(s: Supervisor, running: bool, restart_requested: bool)
    ensures
        s.decision(running, restart_requested) matches Tick::Go { publish, close, open } ==> {
            &&& s.live && open ==> close
            &&& close ==> s.live && open
            &&& !open ==> s.live && !close
        },
{
}

/// What a supervisor is seen to do.
pub enum Deed {
    /// An attempt to open that gave a stream.
    Opened,
    /// An attempt to open that did not.
    Failed,
    /// Whether the first attempt worked is reported.
    Reported(bool),
    /// The live stream's counters are published.
    Published,
    /// The stream is let go of.
    Closed,
}

/// What a supervisor meets on one tick: whether the session goes on, whether a
/// restart has been asked for, and whether an attempt to open would work.
pub struct Round {
    pub running: bool,
    pub restart_requested: bool,
    pub opens: bool,
}

/// `deeds`, and then `deed` if it is done.
pub open spec fn then_if(deeds: Seq<Deed>, done: bool, deed: Deed) -> Seq<Deed> {
    if done {
        deeds.push(deed)
    } else {
        deeds
    }
}

/// How an attempt to open shows.
pub open spec fn attempt(ok: bool) -> Deed {
    if ok {
        Deed::Opened
    } else {
        Deed::Failed
    }
}

/// The whole of a supervisor's life up to now: where it stands, `None` once it has
/// left, and all it has done, in order. The first attempt to open is reported, and
/// either ends it or sets it going; each tick then does what is decided for it.
pub open spec fn life(first: bool, rounds: Seq<Round>) -> (Option<Supervisor>, Seq<Deed>)
    decreases rounds.len(),
{
    if rounds.len() == 0 {
        let done = seq![attempt(first), Deed::Reported(first)];
        if first {
            (Some(Supervisor { live: true, backoff_ms: SUPERVISOR_TICK_MS }), done)
        } else {
            (None, done)
        }
    } else {
        let (state, done) = life(first, rounds.drop_last());
        let round = rounds.last();
        match state {
            None => (None, done),
            Some(s) => {
                let ticked = s.after_tick(round.running, round.restart_requested);
                match s.decision(round.running, round.restart_requested) {
                    Tick::Stop { close } => (None, then_if(done, close, Deed::Closed)),
                    Tick::Go { publish, close, open } => (
                        Some(
                            if open {
                                ticked.after_open(round.opens)
                            } else {
                                ticked
                            },
                        ),
                        then_if(
                            then_if(then_if(done, publish, Deed::Published), close, Deed::Closed),
                            open,
                            attempt(round.opens),
                        ),
                    ),
                }
            },
        }
    }
}

/// Streams opened and not yet let go of.
pub open spec fn streams_live(deeds: Seq<Deed>) -> int
    decreases deeds.len(),
{
    if deeds.len() == 0 {
        0
    } else {
        streams_live(deeds.drop_last()) + match deeds.last() {
            Deed::Opened => 1int,
            Deed::Closed => -1,
            _ => 0,
        }
    }
}

/// Attempts to open that were made.
pub open spec fn attempts(deeds: Seq<Deed>) -> int
    decreases deeds.len(),
{
    if deeds.len() == 0 {
        0
    } else {
        attempts(deeds.drop_last()) + match deeds.last() {
            Deed::Opened | Deed::Failed => 1int,
            _ => 0,
        }
    }
}

/// At every moment there was one stream at most.
spec fn one_at_most(deeds: Seq<Deed>) -> bool {
    forall|k: int| 0 <= k <= deeds.len() ==> 0 <= streams_live(#[trigger] deeds.take(k)) <= 1
}

/// One more deed adds one more moment.
proof fn lemma_one_more(deeds: Seq<Deed>, deed: Deed)
    ensures
        streams_live(deeds.push(deed)) == streams_live(deeds) + match deed {
            Deed::Opened => 1int,
            Deed::Closed => -1,
            _ => 0,
        },
        attempts(deeds.push(deed)) == attempts(deeds) + match deed {
            Deed::Opened | Deed::Failed => 1int,
            _ => 0,
        },
        one_at_most(deeds) && 0 <= streams_live(deeds.push(deed)) <= 1 ==> one_at_most(
            deeds.push(deed),
        ),
{
    let more = deeds.push(deed);
    assert(more.drop_last() =~= deeds);
    if one_at_most(deeds) && 0 <= streams_live(more) <= 1 {
        assert forall|k: int| 0 <= k <= more.len() implies 0 <= streams_live(
            #[trigger] more.take(k),
        ) <= 1 by {
            if k <= deeds.len() {
                assert(more.take(k) =~= deeds.take(k));
            } else {
                assert(more.take(k) =~= more);
            }
        }
    }
}

/// The streams that were opened and not let go of are the one that counts as live.
proof fn lemma_life(first: bool, rounds: Seq<Round>)
    ensures
        ({
            let (state, done) = life(first, rounds);
            &&& one_at_most(done)
            &&& state matches Some(s) ==> s.wf()
            &&& streams_live(done) == if state is Some && state->0.live {
                1int
            } else {
                0
            }
            &&& done.len() >= 2
            &&& done[0] == attempt(first)
            &&& done[1] == Deed::Reported(first)
            &&& forall|i: int| 2 <= i < done.len() ==> !(#[trigger] done[i] is Reported)
            &&& !first ==> state is None && done.len() == 2
        }),
    decreases rounds.len(),
{
    if rounds.len() == 0 {
        let nothing = Seq::<Deed>::empty();
        assert forall|k: int| 0 <= k <= nothing.len() implies 0 <= streams_live(
            #[trigger] nothing.take(k),
        ) <= 1 by {
            assert(nothing.take(k) =~= nothing);
        }
        lemma_one_more(nothing, attempt(first));
        lemma_one_more(nothing.push(attempt(first)), Deed::Reported(first));
        assert(life(first, rounds).1 =~= nothing.push(attempt(first)).push(Deed::Reported(first)));
    } else {
        lemma_life(first, rounds.drop_last());
        let (state, done) = life(first, rounds.drop_last());
        let round = rounds.last();
        if let Some(s) = state {
            lemma_one_more(done, Deed::Closed);
            if let Tick::Go { publish, close, open } = s.decision(
                round.running,
                round.restart_requested,
            ) {
                let published = then_if(done, publish, Deed::Published);
                let closed = then_if(published, close, Deed::Closed);
                lemma_one_more(done, Deed::Published);
                lemma_one_more(published, Deed::Closed);
                lemma_one_more(closed, attempt(round.opens));
            }
        }
    }
}

/// Two streams are never live at once, over a whole life: at every moment, also
/// between letting go of one stream and opening the next, no more than one stream
/// has been opened and not let go of.
pub proof fn law_one_stream_at_a_time(first: bool, rounds: Seq<Round>, moment: int)
    requires
        0 <= moment <= life(first, rounds).1.len(),
    ensures
        0 <= streams_live(life(first, rounds).1.take(moment)) <= 1,
{
    lemma_life(first, rounds);
}

/// The first attempt to open is reported once, right after it, and nothing is
/// reported of later ones. Where it failed there are no later ones.
pub proof fn law_the_first_open_is_reported_once(first: bool, rounds: Seq<Round>)
    ensures
        ({
            let (state, done) = life(first, rounds);
            &&& done.len() >= 2
            &&& done[0] == attempt(first)
            &&& forall|i: int|
                0 <= i < done.len() ==> (#[trigger] done[i] is Reported <==> i == 1)
            &&& done[1] == Deed::Reported(first)
            &&& !first ==> state is None && done.len() == 2
        }),
{
    lemma_life(first, rounds);
}

/// Every stream that was opened has been let go of by the time a supervisor leaves,
/// and it leaves on the first tick that finds the session over.
pub proof fn law_nothing_stays_open(first: bool, rounds: Seq<Round>)
    ensures
        life(first, rounds).0 is None ==> streams_live(life(first, rounds).1) == 0,
        rounds.len() > 0 && !rounds.last().running ==> life(first, rounds).0 is None,
{
    lemma_life(first, rounds);
}

/// While the session goes on, a tick that finds no stream - because the attempt
/// before it failed - makes exactly one attempt, a restart lets go of the stream and
/// makes exactly one, and any other tick makes none.
pub proof fn law_a_failed_reopen_is_tried_again(first: bool, rounds: Seq<Round>, round: Round)
    requires
        round.running,
        life(first, rounds).0 is Some,
    ensures
        ({
            let (state, done) = life(first, rounds);
            let (next, after) = life(first, rounds.push(round));
            let due = streams_live(done) == 0 || round.restart_requested;
            &&& next is Some
            &&& attempts(after) - attempts(done) == if due {
                1int
            } else {
                0
            }
            &&& due ==> after.last() == attempt(round.opens)
            &&& streams_live(after) == if due && !round.opens {
                0int
            } else {
                1
            }
        }),
{
    lemma_life(first, rounds);
    lemma_life(first, rounds.push(round));
    assert(rounds.push(round).drop_last() =~= rounds);
    let (state, done) = life(first, rounds);
    let s = state->0;
    if let Tick::Go { publish, close, open } = s.decision(round.running, round.restart_requested) {
        let published = then_if(done, publish, Deed::Published);
        let closed = then_if(published, close, Deed::Closed);
        lemma_one_more(done, Deed::Published);
        lemma_one_more(published, Deed::Closed);
        lemma_one_more(closed, attempt(round.opens));
    }
}

/// The supervisor after `n` attempts in a row have failed.
pub open spec fn after_failures(s: Supervisor, n: nat) -> Supervisor
    decreases n,
{
    if n == 0 {
        s
    } else {
        after_failures(s, (n - 1) as nat).after_open(false)
    }
}

/// However many attempts fail, the wait between them stays between a tick and the
/// ceiling, and it never shrinks until one succeeds, which resets it.
pub proof fn law_backoff_is_bounded(s: Supervisor, n: nat)
    requires
        s.wf(),
    ensures
        after_failures(s, n).wf(),
        s.backoff_ms <= after_failures(s, n).backoff_ms,
        after_failures(s, n).after_open(true).backoff_ms == SUPERVISOR_TICK_MS,
        n >= 4 ==> after_failures(s, n).backoff_ms == MAX_REOPEN_BACKOFF_MS,
    decreases n,
{
    if n > 0 {
        law_backoff_is_bounded(s, (n - 1) as nat);
    }
    if n >= 4 {
        reveal_with_fuel(after_failures, 5);
        law_backoff_is_bounded(s, (n - 4) as nat);
    }
}

/// A stream that is lost is asked for again after a fifth of a second, and after twice as
/// long each time it does not come back, up to 3.2 seconds. One that came back starts over.
pub proof fn law_the_wait_doubles(s: Supervisor)
    requires
        s.wf(),
    ensures
        200 <= s.backoff_ms <= 3200,
        s.after_open(true).backoff_ms == 200,
        s.after_open(true).live,
        !s.after_open(false).live,
        2 * s.backoff_ms <= 3200 ==> s.after_open(false).backoff_ms == 2 * s.backoff_ms,
        2 * s.backoff_ms > 3200 ==> s.after_open(false).backoff_ms == 3200,
{
}

/// A tick publishes what is live, reopens what was asked to be or is gone, and stops when
/// the session does; waiting to be reopened is no reason to stop.
pub proof fn law_what_a_tick_does(s: Supervisor, running: bool, restart_requested: bool)
    ensures
        s.decision(running, restart_requested) is Stop <==> !running,
        s.decision(running, restart_requested) matches Tick::Stop { close } ==> close == s.live,
        s.decision(running, restart_requested) matches Tick::Go { publish, close, open } ==> {
            &&& publish == s.live
            &&& close == (s.live && restart_requested)
            &&& open == (!s.live || restart_requested)
        },
        s.after_tick(running, restart_requested).live == (s.live && running && !restart_requested),
        s.after_tick(running, restart_requested).backoff_ms == s.backoff_ms,
{
}

} // verus!
