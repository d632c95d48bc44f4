//! What a run of calls comes to.
//!
//! A run is told by its calls. `queues[i]` is the queue as the call `i` takes it, and once that
//! call is done it is as the next one takes it; the last one is the queue as it is left. The same
//! goes for `hints`.
use vstd::prelude::*;

use crate::error::Error;
use crate::hint::{HintStep, Hints, QueueDimension};
use crate::keyed::Keyed;
use crate::laws::{Event, History, Operation};
use crate::queue::{Announce, DirtyQueue, Push, Shift};

verus! {

/// How many of the operations are `op`.
pub open spec fn count(ops: Seq<Operation>, op: Operation) -> nat
    decreases ops.len(),
{
    if ops.len() == 0 {
        0
    } else if ops.last() == op {
        count(ops.drop_last(), op) + 1
    } else {
        count(ops.drop_last(), op)
    }
}

/// After any pushes and shifts, the tail is as many steps on as there were pushes and the head as
/// many as there were shifts.
pub proof fn law_a_run_counts<T: Keyed>(
    queues: Seq<&mut DirtyQueue>,
    ops: Seq<Operation>,
    levels: usize,
    objs: Seq<T>,
    pushes: Seq<Result<Push<T>, Error>>,
    shifts: Seq<Result<Shift, Error>>,
    k: int,
)
    requires
        queues.len() == ops.len() + 1,
        forall|i: int|
            #![trigger ops[i]]
            0 <= i < ops.len() ==> *final(queues[i]) == *queues[i + 1] && match ops[i] {
                Operation::Push => call_ensures(
                    DirtyQueue::push::<T>,
                    (queues[i], objs[i], levels),
                    pushes[i],
                ),
                Operation::Shift => call_ensures(
                    DirtyQueue::shift,
                    (queues[i], levels),
                    shifts[i],
                ),
            },
        0 <= k <= ops.len(),
    ensures
        queues[k]@.root == queues[0]@.root,
        queues[k]@.head == crate::counter::advanced(
            queues[0]@.head,
            count(ops.take(k), Operation::Shift),
        ),
        queues[k]@.tail == crate::counter::advanced(
            queues[0]@.tail,
            count(ops.take(k), Operation::Push),
        ),
    decreases k,
{
    if k > 0 {
        law_a_run_counts(queues, ops, levels, objs, pushes, shifts, k - 1);
        assert(ops.take(k).drop_last() =~= ops.take(k - 1));
        assert(ops.take(k).last() == ops[k - 1]);
    }
}

/// On a queue that starts empty, a shift reads the file that a push wrote just where it comes at
/// the same place among the shifts as the push does among the pushes.
pub proof fn law_the_nth_shift_reads_what_the_nth_push_wrote<T: Keyed>(
    queues: Seq<&mut DirtyQueue>,
    ops: Seq<Operation>,
    levels: usize,
    objs: Seq<T>,
    pushes: Seq<Result<Push<T>, Error>>,
    shifts: Seq<Result<Shift, Error>>,
    a: int,
    b: int,
)
    requires
        queues.len() == ops.len() + 1,
        forall|i: int|
            #![trigger ops[i]]
            0 <= i < ops.len() ==> *final(queues[i]) == *queues[i + 1] && match ops[i] {
                Operation::Push => call_ensures(
                    DirtyQueue::push::<T>,
                    (queues[i], objs[i], levels),
                    pushes[i],
                ),
                Operation::Shift => call_ensures(
                    DirtyQueue::shift,
                    (queues[i], levels),
                    shifts[i],
                ),
            },
        queues[0]@.head == queues[0]@.tail,
        0 <= a < ops.len(),
        0 <= b < ops.len(),
        ops[a] is Push,
        ops[b] is Shift,
        count(ops.take(a), Operation::Push) <= count(ops.take(b), Operation::Shift) + usize::MAX,
        count(ops.take(b), Operation::Shift) <= count(ops.take(a), Operation::Push) + usize::MAX,
    ensures
        pushes[a] is Ok,
        shifts[b] is Ok,
        shifts[b]->Ok_0.path@ == pushes[a]->Ok_0.path@ <==> count(ops.take(a), Operation::Push)
            == count(ops.take(b), Operation::Shift),
{
    law_a_run_counts(queues, ops, levels, objs, pushes, shifts, a);
    law_a_run_counts(queues, ops, levels, objs, pushes, shifts, b);
    let start = queues[0]@.tail;
    let i = count(ops.take(a), Operation::Push) + 1;
    let j = count(ops.take(b), Operation::Shift) + 1;
    assert(pushes[a]->Ok_0.key == crate::counter::advanced(start, i));
    assert(shifts[b]->Ok_0.key == crate::counter::advanced(start, j));
    if i != j {
        if i < j {
            crate::counter::law_advanced_does_not_repeat(start, i, j);
        } else {
            crate::counter::law_advanced_does_not_repeat(start, j, i);
        }
        crate::path::law_hash_path_tells_counts_apart(
            queues[0]@.root,
            pushes[a]->Ok_0.key,
            shifts[b]->Ok_0.key,
            levels,
        );
    }
}

/// No push writes over what an earlier one wrote, until the numbers have gone all the way round.
pub proof fn law_pushes_do_not_share_a_file<T: Keyed>(
    queues: Seq<&mut DirtyQueue>,
    ops: Seq<Operation>,
    levels: usize,
    objs: Seq<T>,
    pushes: Seq<Result<Push<T>, Error>>,
    shifts: Seq<Result<Shift, Error>>,
    a: int,
    b: int,
)
    requires
        queues.len() == ops.len() + 1,
        forall|i: int|
            #![trigger ops[i]]
            0 <= i < ops.len() ==> *final(queues[i]) == *queues[i + 1] && match ops[i] {
                Operation::Push => call_ensures(
                    DirtyQueue::push::<T>,
                    (queues[i], objs[i], levels),
                    pushes[i],
                ),
                Operation::Shift => call_ensures(
                    DirtyQueue::shift,
                    (queues[i], levels),
                    shifts[i],
                ),
            },
        0 <= a < b < ops.len(),
        ops[a] is Push,
        ops[b] is Push,
        b - a <= usize::MAX,
    ensures
        pushes[a] is Ok,
        pushes[b] is Ok,
        pushes[a]->Ok_0.path@ != pushes[b]->Ok_0.path@,
{
    law_a_run_counts(queues, ops, levels, objs, pushes, shifts, a);
    law_a_run_counts(queues, ops, levels, objs, pushes, shifts, b);
    let start = queues[0]@.tail;
    let i = count(ops.take(a), Operation::Push) + 1;
    let j = count(ops.take(b), Operation::Push) + 1;
    lemma_count_grows(ops, Operation::Push, a, b);
    assert(pushes[a]->Ok_0.key == crate::counter::advanced(start, i));
    assert(pushes[b]->Ok_0.key == crate::counter::advanced(start, j));
    crate::counter::law_advanced_does_not_repeat(start, i, j);
    crate::path::law_hash_path_tells_counts_apart(
        queues[0]@.root,
        pushes[a]->Ok_0.key,
        pushes[b]->Ok_0.key,
        levels,
    );
}

/// Between two places, an operation that stands at the first of them comes up at least once, and no
/// more often than there are places.
proof fn lemma_count_grows(ops: Seq<Operation>, op: Operation, a: int, b: int)
    requires
        0 <= a < b <= ops.len(),
        ops[a] == op,
    ensures
        count(ops.take(a), op) < count(ops.take(b), op) <= count(ops.take(a), op) + (b - a),
    decreases b,
{
    assert(ops.take(b).drop_last() =~= ops.take(b - 1));
    assert(ops.take(b).last() == ops[b - 1]);
    if a < b - 1 {
        lemma_count_grows(ops, op, a, b - 1);
    }
}

/// On a queue that starts empty, the size is the number of pushes less the number of shifts, as
/// long as there are at least as many pushes and no more are left than half of all numbers. If
/// there are more shifts, it is by how many, unless the head has started over ahead of the tail.
pub proof fn law_the_size_after_a_run<T: Keyed>(
    queues: Seq<&mut DirtyQueue>,
    ops: Seq<Operation>,
    levels: usize,
    objs: Seq<T>,
    pushes: Seq<Result<Push<T>, Error>>,
    shifts: Seq<Result<Shift, Error>>,
    k: int,
    r: Result<usize, Error>,
)
    requires
        queues.len() == ops.len() + 1,
        forall|i: int|
            #![trigger ops[i]]
            0 <= i < ops.len() ==> *final(queues[i]) == *queues[i + 1] && match ops[i] {
                Operation::Push => call_ensures(
                    DirtyQueue::push::<T>,
                    (queues[i], objs[i], levels),
                    pushes[i],
                ),
                Operation::Shift => call_ensures(
                    DirtyQueue::shift,
                    (queues[i], levels),
                    shifts[i],
                ),
            },
        queues[0]@.head == queues[0]@.tail,
        0 <= k <= ops.len(),
        call_ensures(DirtyQueue::queue_size, (&*queues[k],), r),
    ensures
        ({
            let put = count(ops.take(k), Operation::Push);
            let taken = count(ops.take(k), Operation::Shift);
            &&& 0 <= put - taken <= usize::MAX / 2 ==> r == Ok::<usize, Error>(
                (put - taken) as usize,
            )
            &&& 0 <= taken - put <= usize::MAX / 2 && queues[k]@.tail <= queues[k]@.head
                ==> r == Ok::<usize, Error>((taken - put) as usize)
        }),
{
    law_a_run_counts(queues, ops, levels, objs, pushes, shifts, k);
    let put = count(ops.take(k), Operation::Push);
    let taken = count(ops.take(k), Operation::Shift);
    let start = queues[0]@.tail;
    if 0 <= put - taken <= usize::MAX / 2 {
        crate::counter::law_advanced_splits(start, taken, (put - taken) as nat);
        crate::calls::law_queue_size_ahead_of_the_head(*queues[k], (put - taken) as nat, r);
    }
    if 0 <= taken - put <= usize::MAX / 2 && queues[k]@.tail <= queues[k]@.head {
        crate::counter::law_advanced_splits(start, put, (taken - put) as nat);
        crate::calls::law_queue_size_past_the_tail(*queues[k], (taken - put) as nat, r);
    }
}

/// What the hint file holds once the hints of these steps were written, having held `before`.
pub open spec fn last_written(before: Option<Seq<u8>>, steps: Seq<HintStep>) -> Option<Seq<u8>>
    decreases steps.len(),
{
    if steps.len() == 0 {
        before
    } else {
        match steps.last().write {
            Some(file) => Some(file.bytes@),
            None => last_written(before, steps.drop_last()),
        }
    }
}

/// The hints follow the queue through whatever pushes, shifts and flushes: they know the head and
/// the tail that it has, and what was written last tells them unless something is pending.
proof fn lemma_a_run_with_hints<T: Keyed>(
    queues: Seq<&mut DirtyQueue>,
    hints: Seq<&mut Hints>,
    events: Seq<Event>,
    levels: usize,
    objs: Seq<T>,
    pushes: Seq<Result<Push<T>, Error>>,
    written: Seq<Result<Announce<usize>, Error>>,
    shifts: Seq<Result<Shift, Error>>,
    read: Seq<Result<Announce<T>, Error>>,
    steps: Seq<HintStep>,
    before: Option<Seq<u8>>,
    k: int,
)
    requires
        queues.len() == events.len() + 1,
        hints.len() == events.len() + 1,
        steps.len() == events.len(),
        call_ensures(DirtyQueue::hints, (&*queues[0],), *hints[0]),
        forall|i: int|
            #![trigger events[i]]
            0 <= i < events.len() ==> *final(queues[i]) == *queues[i + 1] && *final(hints[i])
                == *hints[i + 1] && match events[i] {
                Event::Moved(Operation::Push, idle) => {
                    &&& call_ensures(
                        DirtyQueue::push::<T>,
                        (queues[i], objs[i], levels),
                        pushes[i],
                    )
                    &&& call_ensures(
                        Push::<T>::written,
                        (pushes[i]->Ok_0, Ok::<(), Error>(())),
                        written[i],
                    )
                    &&& call_ensures(
                        Hints::write_hints,
                        (hints[i], written[i]->Ok_0.dimension, idle),
                        steps[i],
                    )
                },
                Event::Moved(Operation::Shift, idle) => {
                    &&& call_ensures(DirtyQueue::shift, (queues[i], levels), shifts[i])
                    &&& call_ensures(
                        Shift::read::<T>,
                        (shifts[i]->Ok_0, Ok::<T, Error>(objs[i])),
                        read[i],
                    )
                    &&& call_ensures(
                        Hints::write_hints,
                        (hints[i], read[i]->Ok_0.dimension, idle),
                        steps[i],
                    )
                },
                Event::Flushed => {
                    &&& *final(queues[i]) == *queues[i]
                    &&& call_ensures(Hints::flush, (hints[i],), steps[i].write)
                },
            },
        0 <= k <= events.len(),
    ensures
        queues[k]@.root == queues[0]@.root,
        hints[k]@.head == queues[k]@.head,
        hints[k]@.tail == queues[k]@.tail,
        !hints[k]@.pending ==> {
            let last = last_written(before, steps.take(k));
            ||| last == Some(crate::cbor::cbor_numbers(seq![queues[k]@.head, queues[k]@.tail]))
            ||| last == before && queues[k]@ == queues[0]@
        },
        k > 0 && steps[k - 1].write is Some ==> !hints[k]@.pending
            && steps[k - 1].write->Some_0.bytes@ == crate::cbor::cbor_numbers(
            seq![queues[k]@.head, queues[k]@.tail],
        ),
    decreases k,
{
    if k > 0 {
        lemma_a_run_with_hints(
            queues,
            hints,
            events,
            levels,
            objs,
            pushes,
            written,
            shifts,
            read,
            steps,
            before,
            k - 1,
        );
        assert(steps.take(k).drop_last() =~= steps.take(k - 1));
        assert(steps.take(k).last() == steps[k - 1]);
        match events[k - 1] {
            Event::Moved(Operation::Push, idle) => {},
            Event::Moved(Operation::Shift, idle) => {},
            Event::Flushed => {},
        }
    }
}

/// The calls of a run come to what its history tells: the queue, the hints and what is written to
/// the hint file.
pub proof fn law_a_run_makes_its_history<T: Keyed>(
    queues: Seq<&mut DirtyQueue>,
    hints: Seq<&mut Hints>,
    events: Seq<Event>,
    levels: usize,
    objs: Seq<T>,
    pushes: Seq<Result<Push<T>, Error>>,
    written: Seq<Result<Announce<usize>, Error>>,
    shifts: Seq<Result<Shift, Error>>,
    read: Seq<Result<Announce<T>, Error>>,
    steps: Seq<HintStep>,
    before: Option<Seq<u8>>,
    k: int,
)
    requires
        queues.len() == events.len() + 1,
        hints.len() == events.len() + 1,
        steps.len() == events.len(),
        forall|i: int|
            #![trigger events[i]]
            0 <= i < events.len() ==> *final(queues[i]) == *queues[i + 1] && *final(hints[i])
                == *hints[i + 1] && match events[i] {
                Event::Moved(Operation::Push, idle) => {
                    &&& call_ensures(
                        DirtyQueue::push::<T>,
                        (queues[i], objs[i], levels),
                        pushes[i],
                    )
                    &&& call_ensures(
                        Push::<T>::written,
                        (pushes[i]->Ok_0, Ok::<(), Error>(())),
                        written[i],
                    )
                    &&& call_ensures(
                        Hints::write_hints,
                        (hints[i], written[i]->Ok_0.dimension, idle),
                        steps[i],
                    )
                },
                Event::Moved(Operation::Shift, idle) => {
                    &&& call_ensures(DirtyQueue::shift, (queues[i], levels), shifts[i])
                    &&& call_ensures(
                        Shift::read::<T>,
                        (shifts[i]->Ok_0, Ok::<T, Error>(objs[i])),
                        read[i],
                    )
                    &&& call_ensures(
                        Hints::write_hints,
                        (hints[i], read[i]->Ok_0.dimension, idle),
                        steps[i],
                    )
                },
                Event::Flushed => {
                    &&& *final(queues[i]) == *queues[i]
                    &&& call_ensures(Hints::flush, (hints[i],), steps[i].write)
                },
            },
        0 <= k <= events.len(),
    ensures
        ({
            let start = History { queue: queues[0]@, hints: hints[0]@, hint: before };
            let now = crate::laws::history_after(start, events.take(k));
            &&& now.queue == queues[k]@
            &&& now.hints == hints[k]@
            &&& now.hint == last_written(before, steps.take(k))
        }),
    decreases k,
{
    if k > 0 {
        law_a_run_makes_its_history(
            queues,
            hints,
            events,
            levels,
            objs,
            pushes,
            written,
            shifts,
            read,
            steps,
            before,
            k - 1,
        );
        assert(steps.take(k).drop_last() =~= steps.take(k - 1));
        assert(steps.take(k).last() == steps[k - 1]);
        assert(events.take(k).drop_last() =~= events.take(k - 1));
        assert(events.take(k).last() == events[k - 1]);
        match events[k - 1] {
            Event::Moved(Operation::Push, idle) => {},
            Event::Moved(Operation::Shift, idle) => {},
            Event::Flushed => {},
        }
    }
}

/// Whatever pushes, shifts and flushes a queue went through, a queue that is opened with what was
/// last written to the hint file, while nothing is pending, is in the state of the first one. Where
/// nothing was written, that is what the first one was opened with.
pub proof fn law_a_queue_opens_as_it_was_left<T: Keyed>(
    queues: Seq<&mut DirtyQueue>,
    hints: Seq<&mut Hints>,
    events: Seq<Event>,
    levels: usize,
    objs: Seq<T>,
    pushes: Seq<Result<Push<T>, Error>>,
    written: Seq<Result<Announce<usize>, Error>>,
    shifts: Seq<Result<Shift, Error>>,
    read: Seq<Result<Announce<T>, Error>>,
    steps: Seq<HintStep>,
    k: int,
    path: String,
    file: Option<Vec<u8>>,
    pending: bool,
    path_again: String,
    file_again: Option<Vec<u8>>,
    again: Result<Option<DirtyQueue>, Error>,
)
    requires
        queues.len() == events.len() + 1,
        hints.len() == events.len() + 1,
        steps.len() == events.len(),
        call_ensures(DirtyQueue::new, (path, file), Ok(Some(*queues[0]))),
        call_ensures(DirtyQueue::hints, (&*queues[0],), *hints[0]),
        forall|i: int|
            #![trigger events[i]]
            0 <= i < events.len() ==> *final(queues[i]) == *queues[i + 1] && *final(hints[i])
                == *hints[i + 1] && match events[i] {
                Event::Moved(Operation::Push, idle) => {
                    &&& call_ensures(
                        DirtyQueue::push::<T>,
                        (queues[i], objs[i], levels),
                        pushes[i],
                    )
                    &&& call_ensures(
                        Push::<T>::written,
                        (pushes[i]->Ok_0, Ok::<(), Error>(())),
                        written[i],
                    )
                    &&& call_ensures(
                        Hints::write_hints,
                        (hints[i], written[i]->Ok_0.dimension, idle),
                        steps[i],
                    )
                },
                Event::Moved(Operation::Shift, idle) => {
                    &&& call_ensures(DirtyQueue::shift, (queues[i], levels), shifts[i])
                    &&& call_ensures(
                        Shift::read::<T>,
                        (shifts[i]->Ok_0, Ok::<T, Error>(objs[i])),
                        read[i],
                    )
                    &&& call_ensures(
                        Hints::write_hints,
                        (hints[i], read[i]->Ok_0.dimension, idle),
                        steps[i],
                    )
                },
                Event::Flushed => {
                    &&& *final(queues[i]) == *queues[i]
                    &&& call_ensures(Hints::flush, (hints[i],), steps[i].write)
                },
            },
        0 <= k <= events.len(),
        call_ensures(Hints::is_pending, (&*hints[k],), pending),
        !pending,
        path_again@ == path@,
        crate::laws::contents(file_again) == last_written(
            crate::laws::contents(file),
            steps.take(k),
        ),
        call_ensures(DirtyQueue::new, (path_again, file_again), again),
    ensures
        again is Ok,
        again->Ok_0 is Some,
        again->Ok_0->Some_0@ == queues[k]@,
{
    let before = crate::laws::contents(file);
    lemma_a_run_with_hints(
        queues,
        hints,
        events,
        levels,
        objs,
        pushes,
        written,
        shifts,
        read,
        steps,
        before,
        k,
    );
    let last = last_written(before, steps.take(k));
    if last == Some(crate::cbor::cbor_numbers(seq![queues[k]@.head, queues[k]@.tail])) {
        lemma_opens_with(path_again, file_again->Some_0, again, queues[k]@.head, queues[k]@.tail);
    } else {
        assert(crate::laws::contents(file_again) == crate::laws::contents(file));
    }
}

/// A file that holds a head and a tail as they are written opens a queue with that head and that
/// tail.
proof fn lemma_opens_with(
    path: String,
    bytes: Vec<u8>,
    r: Result<Option<DirtyQueue>, Error>,
    head: usize,
    tail: usize,
)
    requires
        call_ensures(DirtyQueue::new, (path, Some(bytes)), r),
        crate::cbor::cbor_numbers(seq![head, tail]).is_prefix_of(bytes@),
    ensures
        r is Ok,
        r->Ok_0 is Some,
        r->Ok_0->Some_0@ == (crate::queue::QueueView { root: path@, head, tail }),
{
    let state = crate::hint::HintsView { root: path@, head, tail, pending: false };
    assert(state.bytes().is_prefix_of(bytes@));
}

/// Whatever pushes, shifts and flushes a queue went through, a queue that is opened with one of the
/// hints that were written is in the state in which the first one was when that was written.
pub proof fn law_a_hint_keeps_the_state<T: Keyed>(
    queues: Seq<&mut DirtyQueue>,
    hints: Seq<&mut Hints>,
    events: Seq<Event>,
    levels: usize,
    objs: Seq<T>,
    pushes: Seq<Result<Push<T>, Error>>,
    written: Seq<Result<Announce<usize>, Error>>,
    shifts: Seq<Result<Shift, Error>>,
    read: Seq<Result<Announce<T>, Error>>,
    steps: Seq<HintStep>,
    k: int,
    path: String,
    bytes: Vec<u8>,
    again: Result<Option<DirtyQueue>, Error>,
)
    requires
        queues.len() == events.len() + 1,
        hints.len() == events.len() + 1,
        steps.len() == events.len(),
        call_ensures(DirtyQueue::hints, (&*queues[0],), *hints[0]),
        forall|i: int|
            #![trigger events[i]]
            0 <= i < events.len() ==> *final(queues[i]) == *queues[i + 1] && *final(hints[i])
                == *hints[i + 1] && match events[i] {
                Event::Moved(Operation::Push, idle) => {
                    &&& call_ensures(
                        DirtyQueue::push::<T>,
                        (queues[i], objs[i], levels),
                        pushes[i],
                    )
                    &&& call_ensures(
                        Push::<T>::written,
                        (pushes[i]->Ok_0, Ok::<(), Error>(())),
                        written[i],
                    )
                    &&& call_ensures(
                        Hints::write_hints,
                        (hints[i], written[i]->Ok_0.dimension, idle),
                        steps[i],
                    )
                },
                Event::Moved(Operation::Shift, idle) => {
                    &&& call_ensures(DirtyQueue::shift, (queues[i], levels), shifts[i])
                    &&& call_ensures(
                        Shift::read::<T>,
                        (shifts[i]->Ok_0, Ok::<T, Error>(objs[i])),
                        read[i],
                    )
                    &&& call_ensures(
                        Hints::write_hints,
                        (hints[i], read[i]->Ok_0.dimension, idle),
                        steps[i],
                    )
                },
                Event::Flushed => {
                    &&& *final(queues[i]) == *queues[i]
                    &&& call_ensures(Hints::flush, (hints[i],), steps[i].write)
                },
            },
        0 <= k < events.len(),
        steps[k].write is Some,
        steps[k].write->Some_0.bytes@.is_prefix_of(bytes@),
        path@ == queues[0]@.root,
        call_ensures(DirtyQueue::new, (path, Some(bytes)), again),
    ensures
        again is Ok,
        again->Ok_0 is Some,
        again->Ok_0->Some_0@ == queues[k + 1]@,
{
    lemma_a_run_with_hints(
        queues,
        hints,
        events,
        levels,
        objs,
        pushes,
        written,
        shifts,
        read,
        steps,
        None,
        k + 1,
    );
    lemma_opens_with(path, bytes, again, queues[k + 1]@.head, queues[k + 1]@.tail);
}

/// Whatever pushes, shifts and flushes a queue went through, closing it writes a hint, and a queue
/// that is opened with that hint is in the state in which the first one was closed.
pub proof fn law_a_queue_opens_as_it_was_closed<T: Keyed>(
    queues: Seq<&mut DirtyQueue>,
    hints: Seq<&mut Hints>,
    events: Seq<Event>,
    levels: usize,
    objs: Seq<T>,
    pushes: Seq<Result<Push<T>, Error>>,
    written: Seq<Result<Announce<usize>, Error>>,
    shifts: Seq<Result<Shift, Error>>,
    read: Seq<Result<Announce<T>, Error>>,
    steps: Seq<HintStep>,
    idle: u128,
    closing: HintStep,
    path: String,
    bytes: Vec<u8>,
    again: Result<Option<DirtyQueue>, Error>,
)
    requires
        queues.len() == events.len() + 1,
        hints.len() == events.len() + 1,
        steps.len() == events.len(),
        call_ensures(DirtyQueue::hints, (&*queues[0],), *hints[0]),
        forall|i: int|
            #![trigger events[i]]
            0 <= i < events.len() ==> *final(queues[i]) == *queues[i + 1] && *final(hints[i])
                == *hints[i + 1] && match events[i] {
                Event::Moved(Operation::Push, idle) => {
                    &&& call_ensures(
                        DirtyQueue::push::<T>,
                        (queues[i], objs[i], levels),
                        pushes[i],
                    )
                    &&& call_ensures(
                        Push::<T>::written,
                        (pushes[i]->Ok_0, Ok::<(), Error>(())),
                        written[i],
                    )
                    &&& call_ensures(
                        Hints::write_hints,
                        (hints[i], written[i]->Ok_0.dimension, idle),
                        steps[i],
                    )
                },
                Event::Moved(Operation::Shift, idle) => {
                    &&& call_ensures(DirtyQueue::shift, (queues[i], levels), shifts[i])
                    &&& call_ensures(
                        Shift::read::<T>,
                        (shifts[i]->Ok_0, Ok::<T, Error>(objs[i])),
                        read[i],
                    )
                    &&& call_ensures(
                        Hints::write_hints,
                        (hints[i], read[i]->Ok_0.dimension, idle),
                        steps[i],
                    )
                },
                Event::Flushed => {
                    &&& *final(queues[i]) == *queues[i]
                    &&& call_ensures(Hints::flush, (hints[i],), steps[i].write)
                },
            },
        call_ensures(
            Hints::write_hints,
            (hints[events.len() as int], QueueDimension::Closing, idle),
            closing,
        ),
        closing.write matches Some(file) ==> file.bytes@.is_prefix_of(bytes@),
        path@ == queues[0]@.root,
        call_ensures(DirtyQueue::new, (path, Some(bytes)), again),
    ensures
        closing.closing,
        closing.write is Some,
        again is Ok,
        again->Ok_0 is Some,
        again->Ok_0->Some_0@ == queues[events.len() as int]@,
{
    let n = events.len() as int;
    lemma_a_run_with_hints(
        queues,
        hints,
        events,
        levels,
        objs,
        pushes,
        written,
        shifts,
        read,
        steps,
        None,
        n,
    );
    lemma_opens_with(path, bytes, again, queues[n]@.head, queues[n]@.tail);
}

/// The hints know the head and the tail that were announced last, and those that they started with
/// if there was no such announcement.
proof fn lemma_the_last_announcements_count(
    hints: Seq<&mut Hints>,
    said: Seq<Option<QueueDimension>>,
    idles: Seq<u128>,
    steps: Seq<HintStep>,
    k: int,
    of_head: int,
    of_tail: int,
)
    requires
        hints.len() == said.len() + 1,
        forall|i: int|
            #![trigger said[i]]
            0 <= i < said.len() ==> *final(hints[i]) == *hints[i + 1] && match said[i] {
                Some(qd) => call_ensures(Hints::write_hints, (hints[i], qd, idles[i]), steps[i]),
                None => call_ensures(Hints::flush, (hints[i],), steps[i].write),
            },
        0 <= k <= said.len(),
        -1 <= of_head < k,
        of_head >= 0 ==> said[of_head] is Some && said[of_head]->Some_0 is Head,
        forall|i: int|
            of_head < i < k ==> !(#[trigger] said[i] is Some && said[i]->Some_0 is Head),
        -1 <= of_tail < k,
        of_tail >= 0 ==> said[of_tail] is Some && said[of_tail]->Some_0 is Tail,
        forall|i: int|
            of_tail < i < k ==> !(#[trigger] said[i] is Some && said[i]->Some_0 is Tail),
    ensures
        hints[k]@.head == if of_head >= 0 {
            said[of_head]->Some_0->Head_0
        } else {
            hints[0]@.head
        },
        hints[k]@.tail == if of_tail >= 0 {
            said[of_tail]->Some_0->Tail_0
        } else {
            hints[0]@.tail
        },
    decreases k,
{
    if k > 0 {
        let last = said[k - 1];
        let head_before = if of_head < k - 1 {
            of_head
        } else {
            lemma_the_last_one(said, k - 1, true)
        };
        let tail_before = if of_tail < k - 1 {
            of_tail
        } else {
            lemma_the_last_one(said, k - 1, false)
        };
        lemma_the_last_announcements_count(
            hints,
            said,
            idles,
            steps,
            k - 1,
            head_before,
            tail_before,
        );
        match last {
            Some(qd) => {},
            None => {},
        }
    }
}

/// Finds the last announcement of the head, or of the tail, among the first `k`.
proof fn lemma_the_last_one(said: Seq<Option<QueueDimension>>, k: int, head: bool) -> (at: int)
    requires
        0 <= k <= said.len(),
    ensures
        -1 <= at < k,
        head && at >= 0 ==> said[at] is Some && said[at]->Some_0 is Head,
        !head && at >= 0 ==> said[at] is Some && said[at]->Some_0 is Tail,
        head ==> forall|i: int|
            at < i < k ==> !(#[trigger] said[i] is Some && said[i]->Some_0 is Head),
        !head ==> forall|i: int|
            at < i < k ==> !(#[trigger] said[i] is Some && said[i]->Some_0 is Tail),
    decreases k,
{
    if k == 0 {
        -1
    } else if said[k - 1] is Some && (head && said[k - 1]->Some_0 is Head || !head && said[k
        - 1]->Some_0 is Tail) {
        k - 1
    } else {
        lemma_the_last_one(said, k - 1, head)
    }
}

/// After any announcements and flushes, a queue that is opened with a hint that was written,
/// whatever comes behind it in the file, shows the head and the tail that had been announced last
/// by then, and those that the hints started with if there was no such announcement.
pub proof fn law_a_hint_tells_what_was_announced_last(
    hints: Seq<&mut Hints>,
    said: Seq<Option<QueueDimension>>,
    idles: Seq<u128>,
    steps: Seq<HintStep>,
    k: int,
    of_head: int,
    of_tail: int,
    path: String,
    bytes: Vec<u8>,
    again: Result<Option<DirtyQueue>, Error>,
    head: Result<usize, Error>,
    tail: Result<usize, Error>,
)
    requires
        hints.len() == said.len() + 1,
        forall|i: int|
            #![trigger said[i]]
            0 <= i < said.len() ==> *final(hints[i]) == *hints[i + 1] && match said[i] {
                Some(qd) => call_ensures(Hints::write_hints, (hints[i], qd, idles[i]), steps[i]),
                None => call_ensures(Hints::flush, (hints[i],), steps[i].write),
            },
        0 <= k < said.len(),
        -1 <= of_head <= k,
        of_head >= 0 ==> said[of_head] is Some && said[of_head]->Some_0 is Head,
        forall|i: int|
            of_head < i <= k ==> !(#[trigger] said[i] is Some && said[i]->Some_0 is Head),
        -1 <= of_tail <= k,
        of_tail >= 0 ==> said[of_tail] is Some && said[of_tail]->Some_0 is Tail,
        forall|i: int|
            of_tail < i <= k ==> !(#[trigger] said[i] is Some && said[i]->Some_0 is Tail),
        steps[k].write is Some,
        steps[k].write->Some_0.bytes@.is_prefix_of(bytes@),
        call_ensures(DirtyQueue::new, (path, Some(bytes)), again),
        again matches Ok(Some(queue)) ==> call_ensures(DirtyQueue::head, (&queue,), head),
        again matches Ok(Some(queue)) ==> call_ensures(DirtyQueue::tail, (&queue,), tail),
    ensures
        again is Ok,
        again->Ok_0 is Some,
        again->Ok_0->Some_0@.root == path@,
        head == Ok::<usize, Error>(
            if of_head >= 0 {
                said[of_head]->Some_0->Head_0
            } else {
                hints[0]@.head
            },
        ),
        tail == Ok::<usize, Error>(
            if of_tail >= 0 {
                said[of_tail]->Some_0->Tail_0
            } else {
                hints[0]@.tail
            },
        ),
{
    lemma_the_last_announcements_count(hints, said, idles, steps, k + 1, of_head, of_tail);
    assert(steps[k].write->Some_0.bytes@ == crate::cbor::cbor_numbers(
        seq![hints[k + 1]@.head, hints[k + 1]@.tail],
    )) by {
        match said[k] {
            Some(qd) => {},
            None => {},
        }
    }
    lemma_opens_with(path, bytes, again, hints[k + 1]@.head, hints[k + 1]@.tail);
}

} // verus!
