//! What holds of the source table over joins, departures, packets and blocks.
use vstd::prelude::*;

verus! {

use crate::jitter::{payload, JitterView, WriterView};
use crate::jitter_laws::{
    after_steps, laid, law_first_packet_after_a_reset, law_reset_drops_the_old_session_only, Step,
};
use crate::mixer::{
    clamped_gain, first_slot, is_in_order, SlotView, SourceSnapshot, TableView, MAX_CALLBACK_FRAMES, MAX_FEEDBACK_SHIFT_HZ,
    MAX_SOURCES,
};
use crate::ring::silence;

/// The first slot found meets the condition, and none before it does; where none is
/// found, none does.
pub proof fn law_first_slot(slots: Seq<SlotView>, p: spec_fn(SlotView) -> bool, from: int)
    requires
        0 <= from <= slots.len(),
    ensures
        match first_slot(slots, p, from) {
            Some(i) => {
                &&& from <= i < slots.len()
                &&& p(slots[i])
                &&& forall|k: int| from <= k < i ==> !p(#[trigger] slots[k])
            },
            None => forall|k: int| from <= k < slots.len() ==> !p(#[trigger] slots[k]),
        },
    decreases slots.len() - from,
{
    if from < slots.len() && !p(slots[from]) {
        law_first_slot(slots, p, from + 1);
    }
}

/// A source that has a seat keeps it: it holds that slot afterwards, and asking again
/// gives the same slot, with nobody else's disturbed.
pub proof fn law_same_source_same_slot(t: TableView, ssrc: u32, now_ms: int, later_ms: int)
    requires
        t.wf(),
        t.seat(ssrc) is Some,
    ensures
        ({
            let seat = t.seat(ssrc)->0;
            let after = t.after_acquire(ssrc, now_ms);
            &&& after.wf()
            &&& after.slots[seat].is(ssrc)
            &&& after.slots[seat].last_seen_ms == now_ms
            &&& after.slot_of(ssrc) == Some(seat)
            &&& after.seat(ssrc) == Some(seat)
            &&& after.after_acquire(ssrc, later_ms) == t.after_acquire(ssrc, later_ms)
            &&& forall|k: int|
                0 <= k < t.slots.len() && k != seat ==> #[trigger] after.slots[k] == t.slots[k]
        }),
{
    let holds = |s: SlotView| s.is(ssrc);
    let free = |s: SlotView| !s.active;
    law_first_slot(t.slots, holds, 0);
    law_first_slot(t.slots, free, 0);
    let seat = t.seat(ssrc)->0;
    let after = t.after_acquire(ssrc, now_ms);
    law_first_slot(after.slots, holds, 0);
    assert(after.slots[seat].is(ssrc));
    assert(after.one_slot_each()) by {
        assert forall|i: int, j: int|
            0 <= i < after.slots.len() && 0 <= j < after.slots.len() && (
            #[trigger] after.slots[i]).active && (#[trigger] after.slots[j]).active
                && after.slots[i].ssrc == after.slots[j].ssrc implies i == j by {
            assert(i != seat ==> after.slots[i] == t.slots[i]);
            assert(j != seat ==> after.slots[j] == t.slots[j]);
            if t.slot_of(ssrc) is None {
                assert(i != seat ==> !holds(t.slots[i]));
                assert(j != seat ==> !holds(t.slots[j]));
            } else {
                assert(t.slots[seat].is(ssrc));
            }
        }
    }
    let found = after.slot_of(ssrc);
    assert(found is Some) by {
        if found is None {
            assert(!holds(after.slots[seat]));
        }
    }
    assert(holds(after.slots[found->0]));
    assert(found->0 == seat);
    let again = after.after_acquire(ssrc, later_ms);
    assert(again.slots =~= t.after_acquire(ssrc, later_ms).slots);
}

/// A new source is seated whenever a slot is free, and only then: with all eight
/// taken it is refused and the table stays as it is.
pub proof fn law_a_ninth_source_is_refused(t: TableView, ssrc: u32, now_ms: int)
    requires
        t.wf(),
        forall|i: int| 0 <= i < t.slots.len() ==> !(#[trigger] t.slots[i]).is(ssrc),
    ensures
        t.seat(ssrc) is None <==> (forall|i: int|
            0 <= i < MAX_SOURCES ==> (#[trigger] t.slots[i]).active),
        t.seat(ssrc) is None ==> t.after_acquire(ssrc, now_ms) == t,
{
    let holds = |s: SlotView| s.is(ssrc);
    let free = |s: SlotView| !s.active;
    law_first_slot(t.slots, holds, 0);
    law_first_slot(t.slots, free, 0);
    if t.seat(ssrc) is None {
        assert forall|i: int| 0 <= i < MAX_SOURCES implies (#[trigger] t.slots[i]).active by {
            assert(!free(t.slots[i]));
        }
    } else {
        assert(!t.slots[t.seat(ssrc)->0].active);
    }
}

/// A source that retires holds no slot, and every other source keeps its own.
pub proof fn law_retiring_frees_one_slot(t: TableView, ssrc: u32)
    requires
        t.wf(),
    ensures
        t.after_retire(ssrc).wf(),
        t.after_retire(ssrc).slot_of(ssrc) is None,
        t.slot_of(ssrc) is Some ==> t.after_retire(ssrc).free_slot() is Some,
        forall|other: u32| #![auto]
            other != ssrc ==> t.after_retire(ssrc).slot_of(other) == t.slot_of(other),
{
    let after = t.after_retire(ssrc);
    let holds = |s: SlotView| s.is(ssrc);
    let free = |s: SlotView| !s.active;
    law_first_slot(t.slots, holds, 0);
    law_first_slot(after.slots, holds, 0);
    law_first_slot(after.slots, free, 0);
    if t.slot_of(ssrc) is Some && after.free_slot() is None {
        assert(!free(after.slots[t.slot_of(ssrc)->0]));
    }
    assert(after.one_slot_each()) by {
        assert forall|i: int, j: int|
            0 <= i < after.slots.len() && 0 <= j < after.slots.len() && (
            #[trigger] after.slots[i]).active && (#[trigger] after.slots[j]).active
                && after.slots[i].ssrc == after.slots[j].ssrc implies i == j by {
            assert(after.slots[i] == t.slots[i] && after.slots[j] == t.slots[j]);
        }
    }
    assert forall|other: u32| #![auto] other != ssrc implies after.slot_of(other) == t.slot_of(
        other,
    ) by {
        let theirs = |s: SlotView| s.is(other);
        law_first_slot(t.slots, theirs, 0);
        law_first_slot(after.slots, theirs, 0);
        assert forall|i: int| 0 <= i < t.slots.len() implies theirs(#[trigger] t.slots[i])
            == theirs(after.slots[i]) by {}
        match (t.slot_of(other), after.slot_of(other)) {
            (Some(a), Some(b)) => {
                assert(theirs(t.slots[a]) && theirs(t.slots[b]));
            },
            (Some(a), None) => {
                assert(theirs(after.slots[a]));
            },
            (None, Some(b)) => {
                assert(theirs(t.slots[b]));
            },
            (None, None) => {},
        }
    }
}

/// Reaping frees exactly the slots of sources quiet for longer than the timeout.
pub proof fn law_reaping_frees_exactly_the_quiet(t: TableView, now_ms: int, timeout_ms: int, i: int)
    requires
        t.wf(),
        0 <= i < t.slots.len(),
    ensures
        t.after_reap(now_ms, timeout_ms).wf(),
        t.after_reap(now_ms, timeout_ms).slots[i].active <==> (t.slots[i].active && now_ms
            - t.slots[i].last_seen_ms <= timeout_ms),
        t.after_reap(now_ms, timeout_ms).slots[i].jitter == t.slots[i].jitter,
{
    let after = t.after_reap(now_ms, timeout_ms);
    assert(after.one_slot_each()) by {
        assert forall|i: int, j: int|
            0 <= i < after.slots.len() && 0 <= j < after.slots.len() && (
            #[trigger] after.slots[i]).active && (#[trigger] after.slots[j]).active
                && after.slots[i].ssrc == after.slots[j].ssrc implies i == j by {
            assert(after.slots[i] == t.slots[i] && after.slots[j] == t.slots[j]);
        }
    }
}

/// One thing that happens to a table.
pub enum TableStep {
    /// A source says hello.
    Hello { ssrc: u32, now_ms: int },
    /// A packet of a source arrives.
    Packet {
        ssrc: u32,
        now_ms: int,
        seq: u32,
        timestamp: u32,
        pcm: Option<Seq<i16>>,
        frames: nat,
        muted: bool,
    },
    /// A source leaves.
    Retire(u32),
    /// The quiet are reaped.
    Reap { now_ms: int, timeout_ms: int },
    /// A block is read.
    Render(nat),
    /// A source is given a gain.
    Gain { ssrc: u32, gain_milli: u32 },
    /// A source is muted or unmuted.
    Mute { ssrc: u32, muted: bool },
}

/// The write halves once `ssrc` has been heard from.
pub open spec fn writers_acquired(t: TableView, writers: Seq<WriterView>, ssrc: u32) -> Seq<
    WriterView,
> {
    match t.slot_of(ssrc) {
        Some(_) => writers,
        None => match t.free_slot() {
            Some(i) => writers.update(i, WriterView::fresh(t.slots[i].jitter.written)),
            None => writers,
        },
    }
}

/// A table and its write halves after one thing has happened.
pub open spec fn after_table_step(
    t: TableView,
    writers: Seq<WriterView>,
    step: TableStep,
) -> (TableView, Seq<WriterView>) {
    match step {
        TableStep::Hello { ssrc, now_ms } => (
            t.after_acquire(ssrc, now_ms),
            writers_acquired(t, writers, ssrc),
        ),
        TableStep::Packet { ssrc, now_ms, seq, timestamp, pcm, frames, muted } => match t.seat(
            ssrc,
        ) {
            None => (t, writers),
            Some(i) => {
                let seated = t.after_acquire(ssrc, now_ms);
                let ready = writers_acquired(t, writers, ssrc);
                (
                    seated.after_packet(i, ready[i], seq, timestamp, pcm, frames, muted),
                    ready.update(
                        i,
                        seated.slots[i].jitter.writer_after(ready[i], seq, timestamp, frames),
                    ),
                )
            },
        },
        TableStep::Retire(ssrc) => (t.after_retire(ssrc), writers),
        TableStep::Reap { now_ms, timeout_ms } => (t.after_reap(now_ms, timeout_ms), writers),
        TableStep::Render(n) => (t.after_render(n), writers),
        TableStep::Gain { ssrc, gain_milli } => (t.after_source_gain(ssrc, gain_milli), writers),
        TableStep::Mute { ssrc, muted } => (t.after_source_muted(ssrc, muted), writers),
    }
}

/// A table and its write halves after `steps` in order.
pub open spec fn after_table_steps(
    t: TableView,
    writers: Seq<WriterView>,
    steps: Seq<TableStep>,
) -> (TableView, Seq<WriterView>)
    decreases steps.len(),
{
    if steps.len() == 0 {
        (t, writers)
    } else {
        let (t1, w1) = after_table_steps(t, writers, steps.drop_last());
        after_table_step(t1, w1, steps.last())
    }
}

/// What of `steps` reaches the buffer of one source: its own packets, and every read.
pub open spec fn reaching(ssrc: u32, steps: Seq<TableStep>) -> Seq<Step>
    decreases steps.len(),
{
    if steps.len() == 0 {
        Seq::empty()
    } else {
        let before = reaching(ssrc, steps.drop_last());
        match steps.last() {
            TableStep::Packet { ssrc: from, now_ms: _, seq, timestamp, pcm, frames, muted } => if from
                == ssrc {
                before.push(Step::Packet { seq, timestamp, pcm, frames, muted })
            } else {
                before
            },
            TableStep::Render(n) => before.push(Step::Read(n)),
            _ => before,
        }
    }
}

/// The source `ssrc` holds `slot` throughout.
pub open spec fn stays(
    t: TableView,
    writers: Seq<WriterView>,
    steps: Seq<TableStep>,
    slot: int,
    ssrc: u32,
) -> bool {
    forall|k: int|
        0 <= k <= steps.len() ==> (#[trigger] after_table_steps(
            t,
            writers,
            steps.take(k),
        )).0.slots[slot].is(ssrc)
}

/// One thing that happens to a table does to the buffer of a source that stays what
/// reaches it, and nothing else.
proof fn lemma_a_step_reaches_its_source(
    t: TableView,
    writers: Seq<WriterView>,
    step: TableStep,
    slot: int,
    ssrc: u32,
)
    requires
        t.slots.len() == MAX_SOURCES,
        writers.len() == MAX_SOURCES,
        t.one_slot_each(),
        0 <= slot < MAX_SOURCES,
        t.slots[slot].is(ssrc),
    ensures
        ({
            let (t1, w1) = after_table_step(t, writers, step);
            let v = t.slots[slot].jitter;
            let w = writers[slot];
            &&& t1.slots.len() == MAX_SOURCES
            &&& w1.len() == MAX_SOURCES
            &&& t1.one_slot_each()
            &&& match step {
                TableStep::Packet { ssrc: from, now_ms: _, seq, timestamp, pcm, frames, muted } => if from
                    == ssrc {
                    &&& t1.slots[slot].jitter == v.after_packet(
                        w,
                        seq,
                        timestamp,
                        pcm,
                        frames,
                        muted,
                    )
                    &&& w1[slot] == v.writer_after(w, seq, timestamp, frames)
                } else {
                    t1.slots[slot].jitter == v && w1[slot] == w
                },
                TableStep::Render(n) => t1.slots[slot].jitter == v.after_read(n) && w1[slot] == w,
                _ => t1.slots[slot].jitter == v && w1[slot] == w,
            }
        }),
{
    let (t1, _) = after_table_step(t, writers, step);
    if let Some(from) = match step {
        TableStep::Hello { ssrc: from, now_ms: _ } => Some(from),
        TableStep::Packet { ssrc: from, .. } => Some(from),
        _ => None,
    } {
        let holds = |s: SlotView| s.is(from);
        let free = |s: SlotView| !s.active;
        law_first_slot(t.slots, holds, 0);
        law_first_slot(t.slots, free, 0);
        if from == ssrc {
            if t.slot_of(from) is None {
                assert(!holds(t.slots[slot]));
            }
            assert(t.slot_of(from) == Some(slot));
        } else if t.seat(from) is Some {
            assert(t.seat(from)->0 != slot);
        }
        assert forall|i: int, j: int|
            0 <= i < t1.slots.len() && 0 <= j < t1.slots.len() && (#[trigger] t1.slots[i]).active
                && (#[trigger] t1.slots[j]).active && t1.slots[i].ssrc
                == t1.slots[j].ssrc implies i == j by {
            if t.seat(from) is Some {
                let seat = t.seat(from)->0;
                assert(i != seat ==> t1.slots[i] == t.slots[i]);
                assert(j != seat ==> t1.slots[j] == t.slots[j]);
                assert(t1.slots[seat].is(from));
                if t.slot_of(from) is None {
                    assert(i != seat ==> !holds(t.slots[i]));
                    assert(j != seat ==> !holds(t.slots[j]));
                } else {
                    assert(t.slots[seat].is(from));
                }
            }
        }
    } else {
        assert forall|i: int, j: int|
            0 <= i < t1.slots.len() && 0 <= j < t1.slots.len() && (#[trigger] t1.slots[i]).active
                && (#[trigger] t1.slots[j]).active && t1.slots[i].ssrc
                == t1.slots[j].ssrc implies i == j by {
            assert(t.slots[i].active && t.slots[j].active);
            assert(t.slots[i].ssrc == t.slots[j].ssrc);
        }
    }
}

/// Over any history in which a source keeps its slot, its buffer sees what reaches it.
proof fn lemma_a_history_reaches_its_source(
    t: TableView,
    writers: Seq<WriterView>,
    steps: Seq<TableStep>,
    slot: int,
    ssrc: u32,
)
    requires
        t.slots.len() == MAX_SOURCES,
        writers.len() == MAX_SOURCES,
        t.one_slot_each(),
        0 <= slot < MAX_SOURCES,
        stays(t, writers, steps, slot, ssrc),
    ensures
        ({
            let (t1, w1) = after_table_steps(t, writers, steps);
            let (v, w, _) = after_steps(
                t.slots[slot].jitter,
                writers[slot],
                reaching(ssrc, steps),
            );
            &&& t1.slots.len() == MAX_SOURCES
            &&& w1.len() == MAX_SOURCES
            &&& t1.one_slot_each()
            &&& t1.slots[slot].is(ssrc)
            &&& t1.slots[slot].jitter == v
            &&& w1[slot] == w
        }),
    decreases steps.len(),
{
    assert(steps.take(steps.len() as int) =~= steps);
    assert(after_table_steps(t, writers, steps.take(steps.len() as int)).0.slots[slot].is(ssrc));
    if steps.len() > 0 {
        let init = steps.drop_last();
        assert forall|k: int| 0 <= k <= init.len() implies (#[trigger] after_table_steps(
            t,
            writers,
            init.take(k),
        )).0.slots[slot].is(ssrc) by {
            assert(init.take(k) =~= steps.take(k));
            assert(after_table_steps(t, writers, steps.take(k)).0.slots[slot].is(ssrc));
        }
        lemma_a_history_reaches_its_source(t, writers, init, slot, ssrc);
        let (t1, w1) = after_table_steps(t, writers, init);
        lemma_a_step_reaches_its_source(t1, w1, steps.last(), slot, ssrc);
        let before = reaching(ssrc, init);
        let after = reaching(ssrc, steps);
        if after.len() > before.len() {
            assert(after.drop_last() =~= before);
        }
    }
}

/// A source that leaves and comes back never plays its previous session, over any
/// history: for as long as it keeps its slot, whatever else happens to the table, what
/// it contributes to a block is an unbroken piece of what its own packets have put in
/// since it came back, and then silence.
pub proof fn law_a_rejoining_source_starts_afresh(
    t: TableView,
    writers: Seq<WriterView>,
    ssrc: u32,
    now_ms: int,
    steps: Seq<TableStep>,
    n: nat,
)
    requires
        t.wf(),
        writers.len() == t.slots.len(),
        t.after_retire(ssrc).seat(ssrc) is Some,
        ({
            let left = t.after_retire(ssrc);
            stays(
                left.after_acquire(ssrc, now_ms),
                writers_acquired(left, writers, ssrc),
                steps,
                left.seat(ssrc)->0,
                ssrc,
            )
        }),
    ensures
        ({
            let left = t.after_retire(ssrc);
            let slot = left.seat(ssrc)->0;
            let later = after_table_steps(
                left.after_acquire(ssrc, now_ms),
                writers_acquired(left, writers, ssrc),
                steps,
            ).0.slots[slot];
            let v = t.slots[slot].jitter;
            let since = laid(
                v.after_reset(),
                WriterView::fresh(v.written),
                reaching(ssrc, steps),
            );
            let from = later.jitter.read + later.jitter.shed() - v.written;
            let found = later.jitter.found(n);
            &&& later.jitter.drop_before == v.written
            &&& 0 <= from
            &&& from + found <= since.len()
            &&& later.block(n) == Some(
                (
                    since.subrange(from, from + found) + silence((n - found) as nat),
                    later.effective_gain(),
                ),
            )
        }),
{
    let left = t.after_retire(ssrc);
    let slot = left.seat(ssrc)->0;
    law_retiring_frees_one_slot(t, ssrc);
    law_first_slot(left.slots, |s: SlotView| !s.active, 0);
    assert(left.slots[slot].jitter == t.slots[slot].jitter);
    law_same_source_same_slot(left, ssrc, now_ms, now_ms);
    lemma_a_history_reaches_its_source(
        left.after_acquire(ssrc, now_ms),
        writers_acquired(left, writers, ssrc),
        steps,
        slot,
        ssrc,
    );
    law_reset_drops_the_old_session_only(t.slots[slot].jitter, reaching(ssrc, steps), n);
}

/// The first packet of a source that leaves and comes back is heard behind a full
/// target of silence, whatever the slot held before, where there is room for it and the
/// buffer does not run too deep.
pub proof fn law_first_packet_of_a_rejoining_source(
    t: TableView,
    ssrc: u32,
    now_ms: int,
    seq: u32,
    timestamp: u32,
    pcm: Option<Seq<i16>>,
    frames: nat,
    muted: bool,
)
    requires
        t.wf(),
        t.after_retire(ssrc).seat(ssrc) is Some,
        0 < frames,
        ({
            let v = t.slots[t.after_retire(ssrc).seat(ssrc)->0].jitter;
            v.queue.len() + v.target + frames <= v.capacity && v.target + frames <= v.max_fill
        }),
    ensures
        ({
            let left = t.after_retire(ssrc);
            let slot = left.seat(ssrc)->0;
            let back = left.after_acquire(ssrc, now_ms);
            let v = t.slots[slot].jitter;
            let w = WriterView::fresh(v.written);
            let p = back.after_packet(slot, w, seq, timestamp, pcm, frames, muted);
            p.slots[slot].block(v.target + frames) == Some(
                (silence(v.target) + payload(pcm, frames, muted), 1000u32),
            )
        }),
{
    let left = t.after_retire(ssrc);
    let slot = left.seat(ssrc)->0;
    law_retiring_frees_one_slot(t, ssrc);
    law_first_slot(left.slots, |s: SlotView| !s.active, 0);
    assert(left.slots[slot].jitter == t.slots[slot].jitter);
    law_first_packet_after_a_reset(
        t.slots[slot].jitter,
        seq,
        timestamp,
        pcm,
        frames,
        muted,
    );
}

/// Muting a source takes it out of the mix and nothing else: its buffer is drained
/// as before, so no backlog plays out when it is unmuted.
pub proof fn law_a_muted_source_is_still_drained(t: TableView, ssrc: u32, i: int, n: nat)
    requires
        t.wf(),
        0 <= i < t.slots.len(),
    ensures
        ({
            let muted = t.after_source_muted(ssrc, true);
            &&& muted.after_render(n).slots[i].jitter == t.after_render(n).slots[i].jitter
            &&& t.slots[i].is(ssrc) ==> muted.slots[i].block(n) == Some(
                (t.slots[i].jitter.heard(n), 0u32),
            )
            &&& !t.slots[i].is(ssrc) ==> muted.slots[i] == t.slots[i]
        }),
{
}

/// A gain or a mute reaches the source it is meant for and no other: every other slot
/// stays as it is, and so does the whole table where nobody holds one.
pub proof fn law_settings_reach_their_source_only(
    t: TableView,
    ssrc: u32,
    gain_milli: u32,
    muted: bool,
    i: int,
)
    requires
        t.wf(),
        0 <= i < t.slots.len(),
    ensures
        t.slots[i].is(ssrc) ==> {
            &&& t.after_source_gain(ssrc, gain_milli).slots[i] == (SlotView {
                gain_milli: clamped_gain(gain_milli),
                ..t.slots[i]
            })
            &&& t.after_source_muted(ssrc, muted).slots[i] == (SlotView { muted, ..t.slots[i] })
        },
        !t.slots[i].is(ssrc) ==> {
            &&& t.after_source_gain(ssrc, gain_milli).slots[i] == t.slots[i]
            &&& t.after_source_muted(ssrc, muted).slots[i] == t.slots[i]
        },
        t.slot_of(ssrc) is None ==> {
            &&& t.after_source_gain(ssrc, gain_milli) == t
            &&& t.after_source_muted(ssrc, muted) == t
            &&& t.after_retire(ssrc) == t
        },
{
    if t.slot_of(ssrc) is None {
        law_first_slot(t.slots, |s: SlotView| s.is(ssrc), 0);
        assert forall|k: int| 0 <= k < t.slots.len() implies !(#[trigger] t.slots[k]).is(ssrc) by {
            let holds = |s: SlotView| s.is(ssrc);
            assert(!holds(t.slots[k]));
        }
        assert(t.after_source_gain(ssrc, gain_milli).slots =~= t.slots);
        assert(t.after_source_muted(ssrc, muted).slots =~= t.slots);
        assert(t.after_retire(ssrc).slots =~= t.slots);
    }
}

/// A fader does what it says: a gain of up to twice unity, in thousandths, is the gain
/// the source goes into every later block with, a larger one counts as twice unity, and
/// a muted source goes in at nothing without losing its gain. What is heard of a source,
/// and of every other, is the same at any gain.
#[verifier::spinoff_prover]
#[verifier::rlimit(40)]
pub proof fn law_a_source_is_mixed_at_its_gain(
    t: TableView,
    ssrc: u32,
    gain_milli: u32,
    muted: bool,
    i: int,
    n: nat,
)
    requires
        t.wf(),
        0 <= i < t.slots.len(),
        t.slots[i].active,
    ensures
        ({
            let set = t.after_source_gain(ssrc, gain_milli).slots[i];
            let hushed = t.after_source_muted(ssrc, muted).slots[i];
            let mine = t.slots[i].ssrc == ssrc;
            let (heard, at) = set.block(n)->0;
            let (still_heard, still_at) = hushed.block(n)->0;
            &&& set.block(n) is Some
            &&& heard == t.slots[i].jitter.heard(n)
            &&& mine && !t.slots[i].muted && gain_milli <= 2000 ==> at == gain_milli
            &&& mine && !t.slots[i].muted && gain_milli > 2000 ==> at == 2000
            &&& mine && gain_milli <= 2000 ==> set.gain_milli == gain_milli
            &&& t.slots[i].muted ==> at == 0
            &&& !mine ==> set == t.slots[i]
            &&& hushed.block(n) is Some
            &&& still_heard == t.slots[i].jitter.heard(n)
            &&& hushed.gain_milli == t.slots[i].gain_milli
            &&& mine ==> hushed.muted == muted
            &&& mine && muted ==> still_at == 0
            &&& mine && !muted ==> still_at == t.slots[i].gain_milli
            &&& !mine ==> hushed == t.slots[i]
        }),
{
}

/// A block is read from every source on the desk and from no other slot: each gives up
/// exactly what it is heard with, keeps its settings, and is counted.
pub proof fn law_a_block_is_read_from_every_source(t: TableView, i: int, n: nat)
    requires
        t.wf(),
        0 <= i < t.slots.len(),
    ensures
        ({
            let after = t.after_render(n);
            let was = t.slots[i];
            let now = after.slots[i];
            &&& after.slots.len() == t.slots.len()
            &&& (now.active, now.ssrc, now.last_seen_ms, now.peak_milli, now.gain_milli, now.muted)
                == (
                was.active,
                was.ssrc,
                was.last_seen_ms,
                was.peak_milli,
                was.gain_milli,
                was.muted,
            )
            &&& was.active ==> now.jitter == was.jitter.after_read(n)
            &&& was.active ==> was.block(n) == Some((was.jitter.heard(n), if was.muted {
                0u32
            } else {
                was.gain_milli
            }))
            &&& !was.active ==> now.jitter == was.jitter && was.block(n) is None
            &&& after.active_sources == t.slots.filter(|s: SlotView| s.active).len()
            &&& after.master_gain_milli == t.master_gain_milli
            &&& after.master_peak_milli == t.master_peak_milli
            &&& after.limiter_gain_milli == t.limiter_gain_milli
            &&& after.feedback_shift_milli_hz == t.feedback_shift_milli_hz
        }),
{
    lemma_filter_is_shorter(t.slots, |s: SlotView| s.active);
}

proof fn lemma_filter_is_shorter(slots: Seq<SlotView>, p: spec_fn(SlotView) -> bool)
    ensures
        slots.filter(p).len() <= slots.len(),
    decreases slots.len(),
{
    reveal(Seq::filter);
    if slots.len() > 0 {
        lemma_filter_is_shorter(slots.drop_last(), p);
    }
}

/// A desk starts out empty: eight free slots, everything at unity, the frequency shift
/// at five hertz, and a buffer of the asked-for depth in every slot.
pub proof fn law_a_desk_starts_empty(target: nat, i: int)
    requires
        0 <= i < 8,
    ensures
        ({
            let t = TableView::fresh(target);
            &&& t.slots.len() == 8
            &&& !t.slots[i].active
            &&& !t.slots[i].muted
            &&& t.slots[i].gain_milli == 1000
            &&& t.slots[i].peak_milli == 0
            &&& t.slots[i].jitter == JitterView::fresh(target)
            &&& t.master_gain_milli == 1000
            &&& t.master_peak_milli == 0
            &&& t.limiter_gain_milli == 1000
            &&& t.feedback_shift_milli_hz == 5000
            &&& t.active_sources == 0
        }),
        MAX_SOURCES == 8,
        MAX_FEEDBACK_SHIFT_HZ == 30,
        MAX_CALLBACK_FRAMES == 8192,
{
}

/// Any gain up to twice unity is taken as it is, and a larger one as twice unity.
pub proof fn law_gains_reach_twice_unity(gain_milli: u32)
    ensures
        gain_milli <= 2000 ==> clamped_gain(gain_milli) == gain_milli,
        gain_milli > 2000 ==> clamped_gain(gain_milli) == 2000,
{
}

/// Who is heard from gets the slot they hold, or else the lowest one that nobody holds.
/// A newcomer starts at unity, unmuted, with a silent meter and nothing of the last
/// occupant to be heard; one who is there already only shows that it is. Nobody else is
/// touched.
#[verifier::spinoff_prover]
#[verifier::rlimit(40)]
pub proof fn law_a_newcomer_starts_at_unity(t: TableView, ssrc: u32, now_ms: int, i: int)
    requires
        t.wf(),
        0 <= i < t.slots.len(),
    ensures
        ({
            let after = t.after_acquire(ssrc, now_ms);
            let was = t.slots[i];
            let now = after.slots[i];
            let held = was.active && was.ssrc == ssrc;
            let known = exists|k: int|
                0 <= k < t.slots.len() && (#[trigger] t.slots[k]).active && t.slots[k].ssrc == ssrc;
            let taken = !known && !was.active && forall|k: int|
                0 <= k < i ==> (#[trigger] t.slots[k]).active;
            &&& after.slots.len() == t.slots.len()
            &&& held ==> now == (SlotView { last_seen_ms: now_ms, ..was })
            &&& held ==> t.seat(ssrc) == Some(i)
            &&& taken ==> t.seat(ssrc) == Some(i)
            &&& taken ==> {
                &&& now.active
                &&& now.ssrc == ssrc
                &&& now.last_seen_ms == now_ms
                &&& now.gain_milli == 1000
                &&& !now.muted
                &&& now.peak_milli == 0
                &&& now.jitter.drop_before == was.jitter.written
                &&& now.jitter == was.jitter.after_reset()
            }
            &&& !held && !taken ==> now == was
            &&& after.master_gain_milli == t.master_gain_milli
            &&& after.master_peak_milli == t.master_peak_milli
            &&& after.limiter_gain_milli == t.limiter_gain_milli
            &&& after.feedback_shift_milli_hz == t.feedback_shift_milli_hz
            &&& after.active_sources == t.active_sources
        }),
{
    let holds = |s: SlotView| s.is(ssrc);
    let free = |s: SlotView| !s.active;
    law_first_slot(t.slots, holds, 0);
    law_first_slot(t.slots, free, 0);
    match t.slot_of(ssrc) {
        Some(k) => {
            assert(t.slots[k].active && t.slots[k].ssrc == ssrc);
        },
        None => {
            assert forall|k: int| 0 <= k < t.slots.len() implies !((#[trigger] t.slots[k]).active
                && t.slots[k].ssrc == ssrc) by {
                assert(!holds(t.slots[k]));
            }
            match t.free_slot() {
                Some(f) => {
                    assert(!t.slots[f].active);
                    assert forall|k: int| 0 <= k < f implies (#[trigger] t.slots[k]).active by {
                        assert(!free(t.slots[k]));
                    }
                },
                None => {
                    assert(!free(t.slots[i]));
                },
            }
        },
    }
}

/// Leaving, by word or by silence, gives up the slot and nothing else: the settings and
/// the audio stay where they are, and so does everybody else.
pub proof fn law_leaving_gives_up_the_slot_only(
    t: TableView,
    ssrc: u32,
    now_ms: int,
    timeout_ms: int,
    i: int,
)
    requires
        0 <= i < t.slots.len(),
    ensures
        ({
            let was = t.slots[i];
            let left = t.after_retire(ssrc);
            let reaped = t.after_reap(now_ms, timeout_ms);
            &&& left.slots.len() == t.slots.len()
            &&& reaped.slots.len() == t.slots.len()
            &&& left.slots[i] == if was.active && was.ssrc == ssrc {
                SlotView { active: false, ..was }
            } else {
                was
            }
            &&& reaped.slots[i] == if was.active && now_ms - was.last_seen_ms > timeout_ms {
                SlotView { active: false, ..was }
            } else {
                was
            }
            &&& left == (TableView { slots: left.slots, ..t })
            &&& reaped == (TableView { slots: reaped.slots, ..t })
        }),
{
}

/// A packet for a slot goes into the buffer of that slot and changes nothing else.
pub proof fn law_a_packet_reaches_its_slot_only(
    t: TableView,
    slot: int,
    w: WriterView,
    seq: u32,
    timestamp: u32,
    pcm: Option<Seq<i16>>,
    frames: nat,
    muted: bool,
    i: int,
)
    requires
        0 <= slot < t.slots.len(),
        0 <= i < t.slots.len(),
    ensures
        ({
            let after = t.after_packet(slot, w, seq, timestamp, pcm, frames, muted);
            &&& after == (TableView { slots: after.slots, ..t })
            &&& after.slots.len() == t.slots.len()
            &&& i != slot ==> after.slots[i] == t.slots[i]
            &&& after.slots[slot] == (SlotView {
                jitter: t.slots[slot].jitter.after_packet(w, seq, timestamp, pcm, frames, muted),
                ..t.slots[slot]
            })
        }),
{
}

/// What the desk shows of a source is what the source is: its settings as they were set,
/// its counts, its depth, and the milliseconds since it was last heard from.
pub proof fn law_a_strip_shows_the_source(s: SlotView, now_ms: int)
    requires
        s.jitter.wf(),
    ensures
        ({
            let shown = s.snapshot(now_ms);
            &&& shown.ssrc == s.ssrc
            &&& shown.gain_milli == s.gain_milli
            &&& shown.muted == s.muted
            &&& shown.peak_milli == s.peak_milli
            &&& shown.packets == s.jitter.counters.packets
            &&& shown.lost == s.jitter.counters.lost
            &&& shown.underruns == s.jitter.counters.underruns
            &&& shown.buffer_frames == s.jitter.depth() % 0x1_0000_0000
            &&& 0 <= now_ms - s.last_seen_ms <= 0xffff_ffff ==> shown.age_ms == now_ms
                - s.last_seen_ms
            &&& now_ms < s.last_seen_ms ==> shown.age_ms == 0
            &&& now_ms - s.last_seen_ms > 0xffff_ffff ==> shown.age_ms == 0xffff_ffff
        }),
{
}

/// Strips in order stand with the lower numbers first.
pub proof fn law_strips_in_order(sources: Seq<SourceSnapshot>, i: int, j: int)
    requires
        is_in_order(sources),
        0 <= i <= j < sources.len(),
    ensures
        sources[i].ssrc <= sources[j].ssrc,
{
}

} // verus!
