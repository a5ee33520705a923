//! What holds of the pipeline over any run of events.

use crate::runtime::{
    after_sending, batcher_state, batcher_step, fresh_state, is_stalled, next_of, type_completed,
    waiting_state, BatcherConfig, BatcherEvent, BatcherModel, BatcherNext, Checkpoint,
    ExtractionStatus, StateModel,
};
use crate::text::{a_piece_stands_between_the_rest, has_piece, push_opt};
use crate::types::{count_of, name_of_type, DataType};
use vstd::prelude::*;

verus! {

/// A batcher that has seen no record.
pub open spec fn new_batcher<T>(now: u64) -> BatcherModel<T> {
    BatcherModel {
        pending: Seq::empty(),
        last_flush: now,
        total_records: 0,
        total_batches: 0,
        last_state_save: 0,
    }
}

/// The batcher after a run of events.
pub open spec fn batcher_after<T>(
    batcher: BatcherModel<T>,
    config: BatcherConfig,
    events: Seq<BatcherEvent<T>>,
) -> BatcherModel<T>
    decreases events.len(),
{
    if events.len() == 0 {
        batcher
    } else {
        batcher_step(
            batcher_after(batcher, config, events.drop_last()),
            config,
            events.last(),
        ).2
    }
}

/// The batches that a run of events sends, in order.
pub open spec fn sent_batches<T>(
    batcher: BatcherModel<T>,
    config: BatcherConfig,
    events: Seq<BatcherEvent<T>>,
) -> Seq<Seq<T>>
    decreases events.len(),
{
    if events.len() == 0 {
        Seq::empty()
    } else {
        push_opt(
            sent_batches(batcher, config, events.drop_last()),
            batcher_step(
                batcher_after(batcher, config, events.drop_last()),
                config,
                events.last(),
            ).1,
        )
    }
}

/// The checkpoints that a run of events saves, in order.
pub open spec fn saved_checkpoints<T>(
    batcher: BatcherModel<T>,
    config: BatcherConfig,
    events: Seq<BatcherEvent<T>>,
) -> Seq<Checkpoint>
    decreases events.len(),
{
    if events.len() == 0 {
        Seq::empty()
    } else {
        push_opt(
            saved_checkpoints(batcher, config, events.drop_last()),
            batcher_step(
                batcher_after(batcher, config, events.drop_last()),
                config,
                events.last(),
            ).0,
        )
    }
}

/// The shared state after a run of events.
pub open spec fn state_after<T>(
    state: StateModel,
    config: BatcherConfig,
    events: Seq<BatcherEvent<T>>,
) -> StateModel
    decreases events.len(),
{
    if events.len() == 0 {
        state
    } else {
        batcher_state(state_after(state, config, events.drop_last()), config, events.last())
    }
}

/// The record that an event brings, if it brings one.
pub open spec fn message_of<T>(event: BatcherEvent<T>) -> Option<T> {
    match event {
        BatcherEvent::Message { message, now } => Some(message),
        _ => None,
    }
}

/// The records that a run of events brings, in order.
pub open spec fn messages_of<T>(events: Seq<BatcherEvent<T>>) -> Seq<T>
    decreases events.len(),
{
    if events.len() == 0 {
        Seq::empty()
    } else {
        push_opt(messages_of(events.drop_last()), message_of(events.last()))
    }
}

/// The members of a list of batches, one batch behind the other.
pub open spec fn concatenated<T>(batches: Seq<Seq<T>>) -> Seq<T>
    decreases batches.len(),
{
    if batches.len() == 0 {
        Seq::empty()
    } else {
        concatenated(batches.drop_last()) + batches.last()
    }
}

proof fn lemma_concatenated_push<T>(batches: Seq<Seq<T>>, batch: Seq<T>)
    ensures
        concatenated(batches.push(batch)) == concatenated(batches) + batch,
{
    assert(batches.push(batch).drop_last() =~= batches);
}

/// No record is lost, repeated or moved: the batches that were sent, and then what is still
/// pending, are the records that came in, in order.
pub proof fn batches_hold_every_record_in_order<T>(
    batcher: BatcherModel<T>,
    config: BatcherConfig,
    events: Seq<BatcherEvent<T>>,
)
    ensures
        concatenated(sent_batches(batcher, config, events)) + batcher_after(
            batcher,
            config,
            events,
        ).pending == batcher.pending + messages_of(events),
    decreases events.len(),
{
    if events.len() == 0 {
        assert(concatenated(sent_batches(batcher, config, events)) + batcher.pending
            =~= batcher.pending + messages_of(events));
    } else {
        let rest = events.drop_last();
        let before = batcher_after(batcher, config, rest);
        let sent = sent_batches(batcher, config, rest);
        let step = batcher_step(before, config, events.last());
        batches_hold_every_record_in_order(batcher, config, rest);
        if let Some(batch) = step.1 {
            lemma_concatenated_push(sent, batch);
        }
        match events.last() {
            BatcherEvent::Message { message, now } => {
                let grown = before.pending.push(message);
                assert(concatenated(sent) + grown =~= (concatenated(sent) + before.pending).push(
                    message,
                ));
                assert(batcher.pending + messages_of(events) =~= (batcher.pending + messages_of(
                    rest,
                )).push(message));
                if step.1 is Some {
                    assert(concatenated(sent) + grown + Seq::<T>::empty() =~= concatenated(sent)
                        + grown);
                }
            },
            _ => {
                if let Some(batch) = step.1 {
                    assert(concatenated(sent) + batch + Seq::<T>::empty() =~= concatenated(sent)
                        + batch);
                }
            },
        }
    }
}

/// When the records have ended, nothing is pending: every record was sent.
pub proof fn closing_sends_what_is_left<T>(
    config: BatcherConfig,
    events: Seq<BatcherEvent<T>>,
    now: u64,
)
    requires
        events.len() > 0,
        events.last() is Closed,
    ensures
        batcher_after(new_batcher::<T>(now), config, events).pending.len() == 0,
        concatenated(sent_batches(new_batcher::<T>(now), config, events)) == messages_of(events),
{
    let start = new_batcher::<T>(now);
    let pending = batcher_after(start, config, events).pending;
    batches_hold_every_record_in_order(start, config, events);
    assert(concatenated(sent_batches(start, config, events)) + pending =~= concatenated(
        sent_batches(start, config, events),
    ));
    assert(start.pending + messages_of(events) =~= messages_of(events));
}

/// The size that no batch exceeds.
pub open spec fn largest_batch(config: BatcherConfig) -> int {
    if config.batch_size == 0 {
        1
    } else {
        config.batch_size as int
    }
}

/// No batch is empty and none is larger than the configured size; between events fewer
/// records than that are pending.
pub proof fn batches_keep_to_their_size<T>(
    config: BatcherConfig,
    events: Seq<BatcherEvent<T>>,
    now: u64,
)
    ensures
        batcher_after(new_batcher::<T>(now), config, events).pending.len() < largest_batch(config),
        forall|i: int|
            0 <= i < sent_batches(new_batcher::<T>(now), config, events).len() ==> 0 < (
            #[trigger] sent_batches(new_batcher::<T>(now), config, events)[i]).len()
                <= largest_batch(config),
    decreases events.len(),
{
    if events.len() > 0 {
        let start = new_batcher::<T>(now);
        let before = sent_batches(start, config, events.drop_last());
        let sent = sent_batches(start, config, events);
        batches_keep_to_their_size(config, events.drop_last(), now);
        assert forall|i: int| 0 <= i < sent.len() implies 0 < (#[trigger] sent[i]).len()
            <= largest_batch(config) by {
            if i < before.len() {
                assert(sent[i] == before[i]);
            }
        }
    }
}

/// A full batch is sent at once: the record that fills it is the last that it waits for.
pub proof fn a_full_batch_is_sent_at_once<T>(
    batcher: BatcherModel<T>,
    config: BatcherConfig,
    message: T,
    now: u64,
)
    requires
        batcher.pending.len() + 1 >= config.batch_size,
    ensures
        batcher_step(batcher, config, BatcherEvent::Message { message, now }).1 == Some(
            batcher.pending.push(message),
        ),
{
}

/// Where the record counter does not overflow, it and the shared progress both count the
/// records that came in.
pub proof fn every_record_is_counted<T>(
    config: BatcherConfig,
    events: Seq<BatcherEvent<T>>,
    state: StateModel,
    now: u64,
)
    requires
        count_of(state.progress, config.data_type) + messages_of(events).len() <= u64::MAX,
    ensures
        batcher_after(new_batcher::<T>(now), config, events).total_records == messages_of(
            events,
        ).len(),
        count_of(state_after(state, config, events).progress, config.data_type) == count_of(
            state.progress,
            config.data_type,
        ) + messages_of(events).len(),
    decreases events.len(),
{
    if events.len() > 0 {
        every_record_is_counted(config, events.drop_last(), state, now);
    }
}

/// A batcher touches the count and the time of its own type, and nothing else of the shared
/// state.
pub proof fn a_batcher_keeps_to_its_type<T>(
    config: BatcherConfig,
    events: Seq<BatcherEvent<T>>,
    state: StateModel,
    other: DataType,
)
    requires
        other != config.data_type,
    ensures
        ({
            let after = state_after(state, config, events);
            &&& count_of(after.progress, other) == count_of(state.progress, other)
            &&& after.last_times.contains_key(other) == state.last_times.contains_key(other)
            &&& after.last_times[other] == state.last_times[other]
            &&& after.completed == state.completed
            &&& after.active == state.active
            &&& after.error_count == state.error_count
            &&& after.status == state.status
        }),
    decreases events.len(),
{
    if events.len() > 0 {
        a_batcher_keeps_to_its_type(config, events.drop_last(), state, other);
    }
}

/// A checkpoint is saved at every multiple of the interval and at no other record count, so
/// the n-th checkpoint holds n times the interval.
pub proof fn checkpoints_come_at_every_interval<T>(
    config: BatcherConfig,
    events: Seq<BatcherEvent<T>>,
    now: u64,
)
    requires
        config.state_save_interval > 0,
        messages_of(events).len() <= u64::MAX,
    ensures
        saved_checkpoints(new_batcher::<T>(now), config, events).len() == messages_of(events).len()
            / (config.state_save_interval as nat),
        forall|i: int|
            0 <= i < saved_checkpoints(new_batcher::<T>(now), config, events).len() ==> (
            #[trigger] saved_checkpoints(new_batcher::<T>(now), config, events)[i]).records == (i
                + 1) * config.state_save_interval,
        batcher_after(new_batcher::<T>(now), config, events).last_state_save
            == saved_checkpoints(new_batcher::<T>(now), config, events).len()
            * config.state_save_interval,
    decreases events.len(),
{
    let start = new_batcher::<T>(now);
    let interval = config.state_save_interval as int;
    let count = messages_of(events).len() as int;
    if events.len() == 0 {
        assert(0int / interval == 0) by (nonlinear_arith)
            requires
                interval > 0,
        ;
    } else {
        let rest = events.drop_last();
        checkpoints_come_at_every_interval(config, rest, now);
        every_record_is_counted(config, rest, fresh_state(ExtractionStatus::Idle), now);
        if events.last() is Message {
            let old_count = messages_of(rest).len() as int;
            let saved = saved_checkpoints(start, config, rest);
            assert(count == old_count + 1);
            vstd::arithmetic::div_mod::lemma_fundamental_div_mod(old_count, interval);
            vstd::arithmetic::div_mod::lemma_fundamental_div_mod(count, interval);
            let q = old_count / interval;
            let r = old_count % interval;
            if count % interval == 0 {
                assert(count / interval == q + 1) by (nonlinear_arith)
                    requires
                        count == old_count + 1,
                        old_count == interval * q + r,
                        0 <= r < interval,
                        count == interval * (count / interval) + count % interval,
                        count % interval == 0,
                        interval > 0,
                ;
                assert(count == (q + 1) * interval) by (nonlinear_arith)
                    requires
                        count == interval * (count / interval) + count % interval,
                        count % interval == 0,
                        count / interval == q + 1,
                ;
                assert(q * interval < count) by (nonlinear_arith)
                    requires
                        count == (q + 1) * interval,
                        interval > 0,
                ;
            } else {
                assert(count / interval == q) by (nonlinear_arith)
                    requires
                        count == old_count + 1,
                        old_count == interval * q + r,
                        0 <= r < interval,
                        count == interval * (count / interval) + count % interval,
                        0 < count % interval < interval,
                        interval > 0,
                ;
            }
        }
    }
}

/// Whether the last event of a run of events made the batcher send a batch, which is then to
/// be answered.
pub open spec fn awaits_sent<T>(
    batcher: BatcherModel<T>,
    config: BatcherConfig,
    events: Seq<BatcherEvent<T>>,
) -> bool {
    events.len() > 0 && batcher_step(
        batcher_after(batcher, config, events.drop_last()),
        config,
        events.last(),
    ).1 is Some
}

/// Whether the word that a batch was handed on comes right behind each batch that is sent, and
/// nowhere else.
pub open spec fn sent_in_turn<T>(
    batcher: BatcherModel<T>,
    config: BatcherConfig,
    events: Seq<BatcherEvent<T>>,
) -> bool
    decreases events.len(),
{
    if events.len() == 0 {
        true
    } else {
        &&& sent_in_turn(batcher, config, events.drop_last())
        &&& events.last() is Sent <==> awaits_sent(batcher, config, events.drop_last())
    }
}

/// The batches that a batcher counts are those that it sent, but for one whose word is still
/// to come: the last checkpoint of a file holds the number of its batches.
pub proof fn every_batch_is_counted<T>(
    config: BatcherConfig,
    events: Seq<BatcherEvent<T>>,
    now: u64,
)
    requires
        sent_in_turn(new_batcher::<T>(now), config, events),
        sent_batches(new_batcher::<T>(now), config, events).len() <= u64::MAX,
    ensures
        ({
            let start = new_batcher::<T>(now);
            let counted = batcher_after(start, config, events).total_batches;
            let sent = sent_batches(start, config, events).len();
            if awaits_sent(start, config, events) {
                counted + 1 == sent
            } else {
                counted == sent
            }
        }),
    decreases events.len(),
{
    if events.len() > 0 {
        every_batch_is_counted(config, events.drop_last(), now);
    }
}

/// A checkpoint that is saved at a record holds the number of the batches that were sent
/// before it.
pub proof fn a_checkpoint_counts_the_batches_before_it<T>(
    config: BatcherConfig,
    events: Seq<BatcherEvent<T>>,
    now: u64,
    last: BatcherEvent<T>,
)
    requires
        sent_in_turn(new_batcher::<T>(now), config, events.push(last)),
        sent_batches(new_batcher::<T>(now), config, events).len() <= u64::MAX,
    ensures
        batcher_step(batcher_after(new_batcher::<T>(now), config, events), config, last).0 matches Some(
            checkpoint,
        ) ==> checkpoint.batches == sent_batches(new_batcher::<T>(now), config, events).len(),
{
    assert(events.push(last).drop_last() =~= events);
    every_batch_is_counted(config, events, now);
}

/// One turn of a batcher: what happened, whether a batch can be handed on, and the time at
/// which it then was.
#[verifier::ext_equal]
pub struct Turn<T> {
    pub event: BatcherEvent<T>,
    pub can_hand_on: bool,
    pub now: u64,
}

/// Where a batcher stands: itself, the shared state, and what it does next.
#[verifier::ext_equal]
pub struct Batching<T> {
    pub batcher: BatcherModel<T>,
    pub state: StateModel,
    pub next: BatcherNext,
}

/// What came of the batch that a batcher sends on an event, if it sends one.
pub open spec fn handed_on<T>(
    batcher: BatcherModel<T>,
    config: BatcherConfig,
    turn: Turn<T>,
) -> Option<bool> {
    if batcher_step(batcher, config, turn.event).1 is Some {
        Some(turn.can_hand_on)
    } else {
        None
    }
}

/// Where a batcher stands after one more turn. One that has finished or stopped takes none.
pub open spec fn after_turn<T>(
    batching: Batching<T>,
    config: BatcherConfig,
    turn: Turn<T>,
) -> Batching<T> {
    if batching.next is Continue {
        let sent = handed_on(batching.batcher, config, turn);
        let batcher = after_sending(
            batcher_step(batching.batcher, config, turn.event).2,
            config,
            sent,
            turn.now,
        );
        Batching {
            batcher,
            state: batcher_state(batching.state, config, turn.event),
            next: next_of(batcher, sent, turn.event is Closed),
        }
    } else {
        batching
    }
}

/// Where a new batcher stands after a run of turns.
pub open spec fn batching_after<T>(
    config: BatcherConfig,
    state: StateModel,
    turns: Seq<Turn<T>>,
    now: u64,
) -> Batching<T>
    decreases turns.len(),
{
    if turns.len() == 0 {
        Batching { batcher: new_batcher(now), state, next: BatcherNext::Continue }
    } else {
        after_turn(
            batching_after(config, state, turns.drop_last(), now),
            config,
            turns.last(),
        )
    }
}

/// The events that a batcher takes over a run of turns, with the word behind each batch that
/// was handed on.
pub open spec fn events_taken<T>(
    config: BatcherConfig,
    state: StateModel,
    turns: Seq<Turn<T>>,
    now: u64,
) -> Seq<BatcherEvent<T>>
    decreases turns.len(),
{
    if turns.len() == 0 {
        Seq::empty()
    } else {
        let before = events_taken(config, state, turns.drop_last(), now);
        let batching = batching_after(config, state, turns.drop_last(), now);
        let turn = turns.last();
        if !(batching.next is Continue) {
            before
        } else if handed_on(batching.batcher, config, turn) == Some(true) {
            before.push(turn.event).push(BatcherEvent::Sent { now: turn.now })
        } else {
            before.push(turn.event)
        }
    }
}

/// Whether no turn brings the word that a batch was handed on: it comes of the turn itself.
pub open spec fn plain_turns<T>(turns: Seq<Turn<T>>) -> bool {
    forall|i: int| 0 <= i < turns.len() ==> !((#[trigger] turns[i]).event is Sent)
}

/// A batcher that has finished or stopped takes no further record.
pub proof fn nothing_follows_the_end_of_a_batcher<T>(
    config: BatcherConfig,
    state: StateModel,
    turns: Seq<Turn<T>>,
    now: u64,
    end: int,
)
    requires
        0 <= end <= turns.len(),
        !(batching_after(config, state, turns.take(end), now).next is Continue),
    ensures
        batching_after(config, state, turns, now) == batching_after(
            config,
            state,
            turns.take(end),
            now,
        ),
        events_taken(config, state, turns, now) == events_taken(
            config,
            state,
            turns.take(end),
            now,
        ),
    decreases turns.len(),
{
    if end == turns.len() {
        assert(turns.take(end) =~= turns);
    } else {
        assert(turns.drop_last().take(end) =~= turns.take(end));
        nothing_follows_the_end_of_a_batcher(config, state, turns.drop_last(), now, end);
    }
}

/// A batch that cannot be handed on ends the batcher with an error, whatever comes after it:
/// no further record is taken or counted, the batch is not counted, and there is no last
/// checkpoint.
pub proof fn a_batch_that_cannot_be_handed_on_stops_the_batcher<T>(
    config: BatcherConfig,
    state: StateModel,
    turns: Seq<Turn<T>>,
    now: u64,
    at: int,
)
    requires
        0 <= at < turns.len(),
        batching_after(config, state, turns.take(at), now).next is Continue,
        handed_on(
            batching_after(config, state, turns.take(at), now).batcher,
            config,
            turns[at],
        ) == Some(false),
    ensures
        ({
            let before = batching_after(config, state, turns.take(at), now);
            let end = batching_after(config, state, turns, now);
            &&& end.next == BatcherNext::Stop
            &&& end.batcher == batcher_step(before.batcher, config, turns[at].event).2
            &&& end.batcher.total_batches == before.batcher.total_batches
            &&& end.state == batcher_state(before.state, config, turns[at].event)
            &&& events_taken(config, state, turns, now) == events_taken(
                config,
                state,
                turns.take(at),
                now,
            ).push(turns[at].event)
        }),
{
    let taken = turns.take(at + 1);
    assert(taken.drop_last() =~= turns.take(at));
    assert(taken.last() == turns[at]);
    nothing_follows_the_end_of_a_batcher(config, state, turns, now, at + 1);
}

proof fn lemma_events_taken<T>(
    config: BatcherConfig,
    state: StateModel,
    turns: Seq<Turn<T>>,
    now: u64,
)
    requires
        plain_turns(turns),
    ensures
        ({
            let start = new_batcher::<T>(now);
            let events = events_taken(config, state, turns, now);
            let batching = batching_after(config, state, turns, now);
            &&& batching.batcher == batcher_after(start, config, events)
            &&& batching.state == state_after(state, config, events)
            &&& sent_in_turn(start, config, events)
            &&& !(batching.next is Stop) ==> !awaits_sent(start, config, events)
        }),
    decreases turns.len(),
{
    if turns.len() > 0 {
        let start = new_batcher::<T>(now);
        let rest = turns.drop_last();
        let turn = turns.last();
        assert forall|i: int| 0 <= i < rest.len() implies !((#[trigger] rest[i]).event is Sent) by {
            assert(rest[i] == turns[i]);
        }
        assert(!(turns[turns.len() - 1].event is Sent));
        lemma_events_taken(config, state, rest, now);
        let before = events_taken(config, state, rest, now);
        let batching = batching_after(config, state, rest, now);
        if batching.next is Continue {
            let one = before.push(turn.event);
            assert(one.drop_last() =~= before);
            assert(one.last() == turn.event);
            assert(sent_in_turn(start, config, one));
            assert(batcher_after(start, config, one) == batcher_step(
                batching.batcher,
                config,
                turn.event,
            ).2);
            assert(state_after(state, config, one) == batcher_state(
                batching.state,
                config,
                turn.event,
            ));
            if handed_on(batching.batcher, config, turn) == Some(true) {
                let word = BatcherEvent::<T>::Sent { now: turn.now };
                let two = one.push(word);
                assert(two.drop_last() =~= one);
                assert(two.last() == word);
                assert(awaits_sent(start, config, one));
                assert(sent_in_turn(start, config, two));
                assert(batcher_after(start, config, two) == batching_after(
                    config,
                    state,
                    turns,
                    now,
                ).batcher);
                assert(state_after(state, config, two) == state_after(state, config, one));
                assert(!awaits_sent(start, config, two));
                assert(events_taken(config, state, turns, now) == two);
            } else {
                assert(events_taken(config, state, turns, now) == one);
            }
        }
    }
}

proof fn lemma_finished<T>(
    config: BatcherConfig,
    state: StateModel,
    turns: Seq<Turn<T>>,
    now: u64,
)
    ensures
        ({
            let batching = batching_after(config, state, turns, now);
            batching.next matches BatcherNext::Finish(checkpoint) ==> {
                &&& batching.batcher.pending.len() == 0
                &&& checkpoint.records == batching.batcher.total_records
                &&& checkpoint.batches == batching.batcher.total_batches
            }
        }),
    decreases turns.len(),
{
    if turns.len() > 0 {
        lemma_finished(config, state, turns.drop_last(), now);
    }
}

/// A batcher finishes only where the records have ended and every batch was handed on: nothing
/// is pending, every record that it took was sent, in order, and the last checkpoint holds the
/// number of those records and of those batches.
pub proof fn the_last_checkpoint_is_accurate<T>(
    config: BatcherConfig,
    state: StateModel,
    turns: Seq<Turn<T>>,
    now: u64,
    checkpoint: Checkpoint,
)
    requires
        plain_turns(turns),
        batching_after(config, state, turns, now).next == BatcherNext::Finish(checkpoint),
        sent_batches(
            new_batcher::<T>(now),
            config,
            events_taken(config, state, turns, now),
        ).len() <= u64::MAX,
        count_of(state.progress, config.data_type) + messages_of(
            events_taken(config, state, turns, now),
        ).len() <= u64::MAX,
    ensures
        ({
            let events = events_taken(config, state, turns, now);
            let sent = sent_batches(new_batcher::<T>(now), config, events);
            &&& batching_after(config, state, turns, now).batcher.pending.len() == 0
            &&& concatenated(sent) == messages_of(events)
            &&& checkpoint.records == messages_of(events).len()
            &&& checkpoint.batches == sent.len()
        }),
{
    let start = new_batcher::<T>(now);
    let events = events_taken(config, state, turns, now);
    lemma_events_taken(config, state, turns, now);
    lemma_finished(config, state, turns, now);
    every_batch_is_counted(config, events, now);
    every_record_is_counted(config, events, state, now);
    batches_hold_every_record_in_order(start, config, events);
    let pending = batcher_after(start, config, events).pending;
    assert(concatenated(sent_batches(start, config, events)) + pending =~= concatenated(
        sent_batches(start, config, events),
    ));
    assert(start.pending + messages_of(events) =~= messages_of(events));
}

/// While the next check is waited for, a failed run stays visible and a completed one shows
/// as waiting.
pub proof fn a_failure_stays_visible(state: StateModel)
    ensures
        state.status == ExtractionStatus::Failed ==> waiting_state(state) == state,
        state.status == ExtractionStatus::Completed ==> waiting_state(state).status
            == ExtractionStatus::Waiting,
        waiting_state(state).status != ExtractionStatus::Completed,
        waiting_state(waiting_state(state)) == waiting_state(state),
{
}

// ── Single steps ────────────────────────────────────────────────────

/// A batch is sent when a record fills it, when the records end, and when a wait finds it more
/// than a second behind the last batch; it is all that is pending, and nothing stays behind.
/// Otherwise nothing is sent, and what is pending stays.
pub proof fn what_makes_a_batcher_send<T>(
    batcher: BatcherModel<T>,
    config: BatcherConfig,
    event: BatcherEvent<T>,
)
    ensures
        ({
            let sent = batcher_step(batcher, config, event).1;
            let after = batcher_step(batcher, config, event).2;
            let all = if event is Message {
                batcher.pending.push(event->message)
            } else {
                batcher.pending
            };
            &&& event is Message ==> (sent is Some <==> batcher.pending.len() + 1
                >= config.batch_size)
            &&& event is Closed ==> (sent is Some <==> batcher.pending.len() > 0)
            &&& event is Idle ==> (sent is Some <==> batcher.pending.len() > 0 && event->Idle_now
                > batcher.last_flush + 1_000_000_000)
            &&& event is Sent ==> sent is None
            &&& sent is Some ==> sent->0 == all && after.pending.len() == 0
            &&& sent is None ==> after.pending == all
        }),
{
}

/// A record raises the count of records by one and a batch that was handed on the count of
/// batches, together with the time of the last batch; nothing else changes them.
pub proof fn what_a_batcher_counts<T>(
    batcher: BatcherModel<T>,
    config: BatcherConfig,
    event: BatcherEvent<T>,
)
    requires
        batcher.total_records < u64::MAX,
        batcher.total_batches < u64::MAX,
    ensures
        ({
            let after = batcher_step(batcher, config, event).2;
            &&& after.total_records == batcher.total_records + if event is Message {
                1int
            } else {
                0
            }
            &&& after.total_batches == batcher.total_batches + if event is Sent {
                1int
            } else {
                0
            }
            &&& after.last_flush == if event is Sent {
                event->Sent_now
            } else {
                batcher.last_flush
            }
        }),
{
}

/// The progress is saved at a record whose number is a multiple of the interval and was not
/// saved before, with the counts as they are then; never where there is no interval.
pub proof fn what_makes_a_batcher_save<T>(
    batcher: BatcherModel<T>,
    config: BatcherConfig,
    event: BatcherEvent<T>,
)
    requires
        batcher.total_records < u64::MAX,
    ensures
        ({
            let saved = batcher_step(batcher, config, event).0;
            let after = batcher_step(batcher, config, event).2;
            let count = batcher.total_records + 1;
            &&& saved is Some <==> event is Message && config.state_save_interval > 0 && count
                % (config.state_save_interval as int) == 0 && count != batcher.last_state_save
            &&& saved is Some ==> saved->0.records == count && saved->0.batches
                == batcher.total_batches && after.last_state_save == count
            &&& saved is None ==> after.last_state_save == batcher.last_state_save
        }),
{
}

/// A record counts once for its type and sets the time of its type; no other event of a
/// batcher changes the shared state.
pub proof fn a_record_counts_for_its_type<T>(
    state: StateModel,
    config: BatcherConfig,
    event: BatcherEvent<T>,
)
    requires
        count_of(state.progress, config.data_type) < u64::MAX,
    ensures
        event is Message ==> count_of(
            batcher_state(state, config, event).progress,
            config.data_type,
        ) == count_of(state.progress, config.data_type) + 1 && batcher_state(
            state,
            config,
            event,
        ).last_times.contains_key(config.data_type) && batcher_state(
            state,
            config,
            event,
        ).last_times[config.data_type] == event->Message_now,
        !(event is Message) ==> batcher_state(state, config, event) == state,
{
}

/// A batch that was handed on is counted, with its time, and one that was not, or that was not
/// there, leaves the batcher as it is. The batcher stops exactly where a batch could not be
/// handed on, and else finishes exactly where the records have ended, with its counts.
pub proof fn what_follows_a_batch<T>(
    batcher: BatcherModel<T>,
    config: BatcherConfig,
    handed_on: Option<bool>,
    closed: bool,
    now: u64,
)
    requires
        batcher.total_batches < u64::MAX,
    ensures
        ({
            let after = after_sending(batcher, config, handed_on, now);
            let next = next_of(after, handed_on, closed);
            let counts = handed_on == Some(true);
            &&& after.pending == batcher.pending
            &&& after.total_records == batcher.total_records
            &&& after.last_state_save == batcher.last_state_save
            &&& counts ==> after.total_batches == batcher.total_batches + 1 && after.last_flush
                == now
            &&& !counts ==> after.total_batches == batcher.total_batches && after.last_flush
                == batcher.last_flush
            &&& next is Stop <==> handed_on == Some(false)
            &&& next is Finish <==> closed && handed_on != Some(false)
            &&& next is Finish ==> next->Finish_0.records == after.total_records
                && next->Finish_0.batches == after.total_batches
        }),
{
}

/// A type has stalled exactly where its last record is more than two minutes old and no
/// completed file has the name of the type within its own.
pub proof fn what_counts_as_stalled(state: StateModel, data_type: DataType, now: u64)
    ensures
        is_stalled(state, data_type, now) <==> {
            &&& state.last_times.contains_key(data_type)
            &&& now > state.last_times[data_type] + 120_000_000_000
            &&& forall|before: Seq<char>, after: Seq<char>|
                !state.completed.contains(
                    #[trigger] (before + name_of_type(data_type)@ + after),
                )
        },
{
    let piece = name_of_type(data_type)@;
    if type_completed(state.completed, data_type) {
        let name = choose|name: Seq<char>| #[trigger]
            state.completed.contains(name) && has_piece(name, piece);
        a_piece_stands_between_the_rest(Seq::empty(), piece, Seq::empty(), name);
        let (a, b) = choose|a: Seq<char>, b: Seq<char>| name == #[trigger] (a + piece + b);
        assert(state.completed.contains(a + piece + b));
    } else {
        assert forall|before: Seq<char>, after: Seq<char>|
            !state.completed.contains(#[trigger] (before + piece + after)) by {
            a_piece_stands_between_the_rest(before, piece, after, Seq::empty());
        }
    }
}

} // verus!
