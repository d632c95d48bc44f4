//! What holds of a queue, its files and its hints taken together.
//!
//! The files are a map from paths to the objects that were written there: a push adds the object
//! at the path that it was told, a shift looks up the path that it was told, and finishing an
//! object drops the path that it was told.
use vstd::prelude::*;

use crate::error::Error;
use crate::hint::Hints;
use crate::queue::DirtyQueue;

verus! {

/// Whether the object that the `n`th shift from now looks for is `item`.
pub open spec fn finds<T>(
    queue: crate::queue::QueueView,
    levels: usize,
    files: Map<Seq<char>, T>,
    n: nat,
    item: T,
) -> bool {
    let path = queue.path(crate::counter::advanced(queue.head, n), levels);
    files.contains_key(path) && files[path] == item
}

/// Whether the files hold `items`, the first of them next to be taken out: as many files as lie
/// between the head and the tail, each where the queue looks for it.
pub open spec fn holds<T>(
    queue: crate::queue::QueueView,
    levels: usize,
    files: Map<Seq<char>, T>,
    items: Seq<T>,
) -> bool {
    &&& items.len() == crate::counter::distance(queue.head, queue.tail)
    &&& forall|i: int|
        #![trigger items[i]]
        0 <= i < items.len() ==> finds(queue, levels, files, (i + 1) as nat, items[i])
}

/// A queue whose head and tail are the same holds nothing, whatever files there are.
pub proof fn law_equal_head_and_tail_hold_nothing<T>(
    queue: crate::queue::QueueView,
    levels: usize,
    files: Map<Seq<char>, T>,
)
    requires
        queue.head == queue.tail,
    ensures
        holds(queue, levels, files, Seq::<T>::empty()),
{
}

/// A push puts its object behind those that the queue holds and disturbs none of them. There is
/// room for `usize::MAX` objects.
pub proof fn law_push_appends<T>(
    queue: crate::queue::QueueView,
    levels: usize,
    files: Map<Seq<char>, T>,
    items: Seq<T>,
    obj: T,
)
    requires
        holds(queue, levels, files, items),
        items.len() < usize::MAX,
    ensures
        holds(
            queue.pushed(),
            levels,
            files.insert(queue.path(queue.pushed().tail, levels), obj),
            items.push(obj),
        ),
{
    let after = queue.pushed();
    let path = queue.path(after.tail, levels);
    let written = files.insert(path, obj);
    let all = items.push(obj);
    let n = items.len();
    crate::counter::law_distance_leads_there(queue.head, queue.tail);
    assert(crate::counter::advanced(queue.head, n + 1) == after.tail);
    crate::counter::law_advanced_adds_up(queue.head, n + 1);
    assert(crate::counter::distance(after.head, after.tail) == n + 1);
    assert forall|i: int| #![trigger all[i]] 0 <= i < all.len() implies finds(
        after,
        levels,
        written,
        (i + 1) as nat,
        all[i],
    ) by {
        if i < n {
            let key = crate::counter::advanced(queue.head, (i + 1) as nat);
            crate::counter::law_advanced_does_not_repeat(queue.head, (i + 1) as nat, n + 1);
            crate::path::law_hash_path_tells_counts_apart(queue.root, key, after.tail, levels);
            assert(all[i] == items[i]);
        }
    }
}

/// A shift finds the object that was put in first of those that the queue holds, and leaves the
/// others where the next shifts find them.
pub proof fn law_shift_takes_the_first<T>(
    queue: crate::queue::QueueView,
    levels: usize,
    files: Map<Seq<char>, T>,
    items: Seq<T>,
)
    requires
        holds(queue, levels, files, items),
        items.len() > 0,
    ensures
        files.contains_key(queue.path(queue.shifted().head, levels)),
        files[queue.path(queue.shifted().head, levels)] == items[0],
        holds(queue.shifted(), levels, files, items.drop_first()),
{
    let after = queue.shifted();
    let rest = items.drop_first();
    assert(crate::counter::advanced(queue.head, 0) == queue.head);
    assert(crate::counter::advanced(queue.head, 1) == after.head);
    assert(finds(queue, levels, files, 1, items[0]));
    assert(crate::counter::distance(after.head, after.tail) == rest.len());
    assert forall|i: int| #![trigger rest[i]] 0 <= i < rest.len() implies finds(
        after,
        levels,
        files,
        (i + 1) as nat,
        rest[i],
    ) by {
        crate::counter::law_advanced_splits(queue.head, 1, (i + 1) as nat);
        assert(rest[i] == items[i + 1]);
    }
}

/// Finishing an object that the queue no longer holds disturbs none that it does.
pub proof fn law_finished_spares_the_rest<T>(
    queue: crate::queue::QueueView,
    levels: usize,
    files: Map<Seq<char>, T>,
    items: Seq<T>,
    key: usize,
)
    requires
        holds(queue, levels, files, items),
        forall|i: nat| 0 < i <= items.len() ==> key != #[trigger] crate::counter::advanced(
            queue.head,
            i,
        ),
    ensures
        holds(queue, levels, files.remove(queue.path(key, levels)), items),
{
    let left = files.remove(queue.path(key, levels));
    assert forall|i: int| #![trigger items[i]] 0 <= i < items.len() implies finds(
        queue,
        levels,
        left,
        (i + 1) as nat,
        items[i],
    ) by {
        let other = crate::counter::advanced(queue.head, (i + 1) as nat);
        crate::path::law_hash_path_tells_counts_apart(queue.root, key, other, levels);
    }
}

/// The object that was taken out last is one that the queue no longer holds, so it can be
/// finished at once: the file that was just read is removed and every other one stays.
pub proof fn law_shift_then_finished<T>(
    queue: crate::queue::QueueView,
    levels: usize,
    files: Map<Seq<char>, T>,
    items: Seq<T>,
)
    requires
        holds(queue, levels, files, items),
        items.len() > 0,
    ensures
        ({
            let after = queue.shifted();
            holds(
                after,
                levels,
                files.remove(after.path(after.head, levels)),
                items.drop_first(),
            )
        }),
{
    let after = queue.shifted();
    law_shift_takes_the_first(queue, levels, files, items);
    crate::counter::law_distance_leads_there(after.head, after.tail);
    assert forall|i: nat| 0 < i <= items.drop_first().len() implies after.head
        != #[trigger] crate::counter::advanced(after.head, i) by {
        crate::counter::law_advanced_does_not_repeat(after.head, 0, i);
    }
    law_finished_spares_the_rest(after, levels, files, items.drop_first(), after.head);
}

/// The queue after `n` pushes.
pub open spec fn pushed_times(queue: crate::queue::QueueView, n: nat) -> crate::queue::QueueView {
    crate::queue::QueueView { tail: crate::counter::advanced(queue.tail, n), ..queue }
}

/// The queue after `n` shifts.
pub open spec fn shifted_times(queue: crate::queue::QueueView, n: nat) -> crate::queue::QueueView {
    crate::queue::QueueView { head: crate::counter::advanced(queue.head, n), ..queue }
}

/// The files after `objs` were pushed one after the other.
pub open spec fn files_after<T>(
    queue: crate::queue::QueueView,
    levels: usize,
    files: Map<Seq<char>, T>,
    objs: Seq<T>,
) -> Map<Seq<char>, T>
    decreases objs.len(),
{
    if objs.len() == 0 {
        files
    } else {
        files_after(queue, levels, files, objs.drop_last()).insert(
            queue.path(pushed_times(queue, objs.len()).tail, levels),
            objs.last(),
        )
    }
}

/// Pushing several objects puts them behind those that the queue holds, in the order in which
/// they were pushed.
pub proof fn law_pushes_append<T>(
    queue: crate::queue::QueueView,
    levels: usize,
    files: Map<Seq<char>, T>,
    items: Seq<T>,
    objs: Seq<T>,
)
    requires
        holds(queue, levels, files, items),
        items.len() + objs.len() <= usize::MAX,
    ensures
        holds(
            pushed_times(queue, objs.len()),
            levels,
            files_after(queue, levels, files, objs),
            items + objs,
        ),
    decreases objs.len(),
{
    if objs.len() == 0 {
        assert(items + objs =~= items);
        assert(pushed_times(queue, 0) == queue);
    } else {
        let before = objs.drop_last();
        law_pushes_append(queue, levels, files, items, before);
        law_push_appends(
            pushed_times(queue, before.len()),
            levels,
            files_after(queue, levels, files, before),
            items + before,
            objs.last(),
        );
        assert((items + before).push(objs.last()) =~= items + objs);
        assert(pushed_times(queue, before.len()).pushed() == pushed_times(queue, objs.len()));
    }
}

/// Shifting `n` times takes the first `n` objects out.
pub proof fn law_shifts_take_the_first<T>(
    queue: crate::queue::QueueView,
    levels: usize,
    files: Map<Seq<char>, T>,
    items: Seq<T>,
    n: nat,
)
    requires
        holds(queue, levels, files, items),
        n <= items.len(),
    ensures
        holds(shifted_times(queue, n), levels, files, items.skip(n as int)),
    decreases n,
{
    if n == 0 {
        assert(items.skip(0) =~= items);
        assert(shifted_times(queue, 0) == queue);
    } else {
        let m = (n - 1) as nat;
        law_shifts_take_the_first(queue, levels, files, items, m);
        law_shift_takes_the_first(
            shifted_times(queue, m),
            levels,
            files,
            items.skip(m as int),
        );
        assert(items.skip(m as int).drop_first() =~= items.skip(n as int));
        assert(shifted_times(queue, m).shifted() == shifted_times(queue, n));
    }
}

/// First in, first out: of the objects that are pushed onto an empty queue, each shift finds the
/// next one, and they are numbered in the order in which they were pushed.
pub proof fn law_first_in_first_out<T>(
    queue: crate::queue::QueueView,
    levels: usize,
    files: Map<Seq<char>, T>,
    objs: Seq<T>,
    i: nat,
)
    requires
        queue.head == queue.tail,
        objs.len() <= usize::MAX,
        i < objs.len(),
    ensures
        ({
            let full = pushed_times(queue, objs.len());
            let shift = shifted_times(full, i).shifted();
            let path = shift.path(shift.head, levels);
            let after = files_after(queue, levels, files, objs);
            &&& shift.head == crate::counter::advanced(queue.tail, i + 1)
            &&& after.contains_key(path)
            &&& after[path] == objs[i as int]
        }),
{
    let full = pushed_times(queue, objs.len());
    let after = files_after(queue, levels, files, objs);
    law_equal_head_and_tail_hold_nothing(queue, levels, files);
    law_pushes_append(queue, levels, files, Seq::<T>::empty(), objs);
    assert(Seq::<T>::empty() + objs =~= objs);
    law_shifts_take_the_first(full, levels, after, objs, i);
    law_shift_takes_the_first(shifted_times(full, i), levels, after, objs.skip(i as int));
}

/// A shift on a queue that holds nothing asks for a file that none of the objects that went
/// through it was written to.
pub proof fn law_empty_queue_asks_for_a_new_file<T>(
    queue: crate::queue::QueueView,
    levels: usize,
    files: Map<Seq<char>, T>,
    objs: Seq<T>,
)
    requires
        queue.head == queue.tail,
        objs.len() <= usize::MAX,
    ensures
        ({
            let empty = shifted_times(pushed_times(queue, objs.len()), objs.len());
            let path = empty.path(empty.shifted().head, levels);
            &&& empty.head == empty.tail
            &&& files_after(queue, levels, files, objs).contains_key(path)
                <==> files.contains_key(path)
        }),
{
    lemma_files_after_elsewhere(queue, levels, files, objs, objs.len());
}

/// Pushes write nothing to the path of a number that is still to come.
proof fn lemma_files_after_elsewhere<T>(
    queue: crate::queue::QueueView,
    levels: usize,
    files: Map<Seq<char>, T>,
    objs: Seq<T>,
    n: nat,
)
    requires
        objs.len() <= n <= usize::MAX,
    ensures
        ({
            let path = queue.path(crate::counter::advanced(queue.tail, n + 1), levels);
            files_after(queue, levels, files, objs).contains_key(path) <==> files.contains_key(
                path,
            )
        }),
    decreases objs.len(),
{
    if objs.len() > 0 {
        lemma_files_after_elsewhere(queue, levels, files, objs.drop_last(), n);
        let last = crate::counter::advanced(queue.tail, objs.len());
        let next = crate::counter::advanced(queue.tail, n + 1);
        crate::counter::law_advanced_does_not_repeat(queue.tail, objs.len(), n + 1);
        crate::path::law_hash_path_tells_counts_apart(queue.root, last, next, levels);
    }
}

/// Objects with different numbers may be written in either order: the files come out the same.
pub proof fn law_writes_commute<T>(
    queue: crate::queue::QueueView,
    levels: usize,
    files: Map<Seq<char>, T>,
    a: usize,
    obj_a: T,
    b: usize,
    obj_b: T,
)
    requires
        a != b,
    ensures
        files.insert(queue.path(a, levels), obj_a).insert(queue.path(b, levels), obj_b)
            == files.insert(queue.path(b, levels), obj_b).insert(queue.path(a, levels), obj_a),
{
    crate::path::law_hash_path_tells_counts_apart(queue.root, a, b, levels);
    assert(files.insert(queue.path(a, levels), obj_a).insert(queue.path(b, levels), obj_b)
        =~= files.insert(queue.path(b, levels), obj_b).insert(queue.path(a, levels), obj_a));
}

/// The size of a queue is the number of objects that it holds, across the point where the
/// counters start over. While the tail has started over ahead of the head, this is so for up to
/// half as many objects as there are numbers: beyond that the head could as well have run past
/// the tail.
pub proof fn law_size_counts_the_items<T>(
    queue: crate::queue::QueueView,
    levels: usize,
    files: Map<Seq<char>, T>,
    items: Seq<T>,
)
    requires
        holds(queue, levels, files, items),
        queue.head <= queue.tail || 2 * items.len() <= usize::MAX + 1,
    ensures
        queue.size() == items.len(),
{
}

/// The size of a queue that started empty is the number of pushes less the number of shifts,
/// wherever its counters started.
pub proof fn law_size_counts_pushes_less_shifts(
    queue: crate::queue::QueueView,
    pushes: nat,
    shifts: nat,
)
    requires
        queue.head == queue.tail,
        shifts <= pushes <= shifts + usize::MAX,
        ({
            let now = shifted_times(pushed_times(queue, pushes), shifts);
            now.head <= now.tail || 2 * (pushes - shifts) <= usize::MAX + 1
        }),
    ensures
        shifted_times(pushed_times(queue, pushes), shifts).size() == pushes - shifts,
{
    let head = crate::counter::advanced(queue.head, shifts);
    let held = (pushes - shifts) as nat;
    crate::counter::law_advanced_splits(queue.tail, shifts, held);
    crate::counter::law_advanced_adds_up(head, held);
}

/// The size of a queue that started at zero, before its counters have started over, is the number
/// of pushes less the number of shifts.
pub proof fn law_size_of_a_new_queue(root: Seq<char>, pushes: nat, shifts: nat)
    requires
        shifts <= pushes <= usize::MAX,
    ensures
        ({
            let new = crate::queue::QueueView { root, head: 0, tail: 0 };
            shifted_times(pushed_times(new, pushes), shifts).size() == pushes - shifts
        }),
{
    crate::counter::law_advanced_adds_up(0, pushes);
    crate::counter::law_advanced_adds_up(0, shifts);
}

/// Whether the writer of the hints knows the state that the queue is in.
pub open spec fn in_step(hints: crate::hint::HintsView, queue: crate::queue::QueueView) -> bool {
    &&& hints.root == queue.root
    &&& hints.head == queue.head
    &&& hints.tail == queue.tail
}

/// Announcing a push brings the hints in step with the queue, as far as the tail goes, even if
/// earlier pushes went unannounced.
pub proof fn law_hints_follow_a_push(
    hints: crate::hint::HintsView,
    queue: crate::queue::QueueView,
)
    requires
        hints.root == queue.root,
        hints.head == queue.head,
    ensures
        in_step(
            hints.noted(crate::hint::QueueDimension::Tail(queue.pushed().tail)),
            queue.pushed(),
        ),
{
}

/// Announcing a shift brings the hints in step with the queue, as far as the head goes, even if
/// earlier shifts went unannounced.
pub proof fn law_hints_follow_a_shift(
    hints: crate::hint::HintsView,
    queue: crate::queue::QueueView,
)
    requires
        hints.root == queue.root,
        hints.tail == queue.tail,
    ensures
        in_step(
            hints.noted(crate::hint::QueueDimension::Head(queue.shifted().head)),
            queue.shifted(),
        ),
{
}

/// An operation that moves a queue.
pub enum Operation {
    Push,
    Shift,
}

/// The queue after an operation.
pub open spec fn queue_after(
    queue: crate::queue::QueueView,
    op: Operation,
) -> crate::queue::QueueView {
    match op {
        Operation::Push => queue.pushed(),
        Operation::Shift => queue.shifted(),
    }
}

/// What an operation that led to `queue` announces.
pub open spec fn announcement(
    queue: crate::queue::QueueView,
    op: Operation,
) -> crate::hint::QueueDimension {
    match op {
        Operation::Push => crate::hint::QueueDimension::Tail(queue.tail),
        Operation::Shift => crate::hint::QueueDimension::Head(queue.head),
    }
}

/// What happens to a queue and to its hints.
pub enum Event {
    /// An operation is announced so many nanoseconds after the last hint was written.
    Moved(Operation, u128),
    /// The hint that is still to be written, if there is one, is written.
    Flushed,
}

/// What a file holds, if there is one.
pub open spec fn contents(file: Option<Vec<u8>>) -> Option<Seq<u8>> {
    match file {
        Some(bytes) => Some(bytes@),
        None => None,
    }
}

/// A queue, what the writer of its hints knows, and what the hint file holds, if there is one.
pub struct History {
    pub queue: crate::queue::QueueView,
    pub hints: crate::hint::HintsView,
    pub hint: Option<Seq<u8>>,
}

impl History {
    /// Whether the queue has just been opened: the hints know its head and its tail, and the hint
    /// file is one that it is opened with.
    pub open spec fn is_start(self) -> bool {
        &&& in_step(self.hints, self.queue)
        &&& !self.hints.pending
        &&& self.opens_as(self.queue)
    }

    /// What comes of an operation that is announced `idle` nanoseconds after the last hint was
    /// written.
    pub open spec fn step(self, op: Operation, idle: u128) -> History {
        let queue = queue_after(self.queue, op);
        let qd = announcement(queue, op);
        let hints = self.hints.announced(qd, idle);
        History {
            queue,
            hints,
            hint: if crate::hint::is_written(qd, idle) {
                Some(hints.bytes())
            } else {
                self.hint
            },
        }
    }

    /// What comes of writing the hint that is still to be written, if there is one.
    pub open spec fn flushed(self) -> History {
        History {
            queue: self.queue,
            hints: self.hints.written(),
            hint: if self.hints.pending {
                Some(self.hints.bytes())
            } else {
                self.hint
            },
        }
    }

    /// Whether `r` is what opening the queue now, beneath the same root and with what the hint file
    /// holds, comes to.
    pub open spec fn reopened(self, r: Result<Option<DirtyQueue>, Error>) -> bool {
        exists|path: String, file: Option<Vec<u8>>| #[trigger]
            call_ensures(DirtyQueue::new, (path, file), r) && path@ == self.queue.root && contents(
                file,
            ) == self.hint
    }

    /// Whether opening the queue now always comes to a queue in the state `queue`.
    pub open spec fn opens_as(self, queue: crate::queue::QueueView) -> bool {
        forall|r: Result<Option<DirtyQueue>, Error>| #[trigger]
            self.reopened(r) ==> r is Ok && r->Ok_0 is Some && r->Ok_0->Some_0@ == queue
    }
}

/// A queue that was opened, with hints of its own, has just been opened: opened once more with the
/// same file, it is in the same state.
pub proof fn law_opening_is_a_start(
    path: String,
    file: Option<Vec<u8>>,
    queue: DirtyQueue,
    hints: Hints,
)
    requires
        call_ensures(DirtyQueue::new, (path, file), Ok(Some(queue))),
        call_ensures(DirtyQueue::hints, (&queue,), hints),
    ensures
        (History { queue: queue@, hints: hints@, hint: contents(file) }).is_start(),
{
    let start = History { queue: queue@, hints: hints@, hint: contents(file) };
    assert forall|r: Result<Option<DirtyQueue>, Error>| #[trigger]
        start.reopened(r) implies r is Ok && r->Ok_0 is Some && r->Ok_0->Some_0@ == queue@ by {
        let (path_again, file_again) = choose|path_again: String, file_again: Option<Vec<u8>>|
            #[trigger]
            call_ensures(DirtyQueue::new, (path_again, file_again), r) && path_again@
                == start.queue.root && contents(file_again) == start.hint;
        assert(contents(file_again) == contents(file));
    }
}

/// What the hints know, as they write it, opens a queue with the head and the tail that they know.
proof fn lemma_what_is_written_opens(history: History)
    requires
        in_step(history.hints, history.queue),
        history.hint == Some(history.hints.bytes()),
    ensures
        history.opens_as(history.queue),
{
    assert forall|r: Result<Option<DirtyQueue>, Error>| #[trigger]
        history.reopened(r) implies r is Ok && r->Ok_0 is Some && r->Ok_0->Some_0@
        == history.queue by {
        let (path, file) = choose|path: String, file: Option<Vec<u8>>| #[trigger]
            call_ensures(DirtyQueue::new, (path, file), r) && path@ == history.queue.root
                && contents(file) == history.hint;
        assert(history.hints.bytes().is_prefix_of(file->Some_0@));
    }
}

/// What comes of several events, one after the other.
pub open spec fn history_after(start: History, events: Seq<Event>) -> History
    decreases events.len(),
{
    if events.len() == 0 {
        start
    } else {
        let before = history_after(start, events.drop_last());
        match events.last() {
            Event::Moved(op, idle) => before.step(op, idle),
            Event::Flushed => before.flushed(),
        }
    }
}

/// Whatever pushes, shifts and flushes a queue goes through, its announcements bring the hints
/// from the state in which the queue started to the one that it is in; and unless there is a hint
/// still to be written, that is the state in which the queue is opened with what the hint file
/// holds now.
pub proof fn law_hints_follow_the_history(start: History, events: Seq<Event>)
    requires
        start.is_start(),
    ensures
        ({
            let now = history_after(start, events);
            &&& in_step(now.hints, now.queue)
            &&& !now.hints.pending ==> now.opens_as(now.queue)
        }),
    decreases events.len(),
{
    if events.len() > 0 {
        law_hints_follow_the_history(start, events.drop_last());
        let before = history_after(start, events.drop_last());
        let now = history_after(start, events);
        if now.hint == Some(now.hints.bytes()) {
            lemma_what_is_written_opens(now);
        } else {
            assert(!now.hints.pending ==> now.hint == before.hint && now.queue == before.queue);
            assert(!now.hints.pending ==> now.opens_as(now.queue)) by {
                assert forall|r: Result<Option<DirtyQueue>, Error>| !now.hints.pending
                    && #[trigger] now.reopened(r) implies before.reopened(r) by {
                    let (path, file) = choose|path: String, file: Option<Vec<u8>>| #[trigger]
                        call_ensures(DirtyQueue::new, (path, file), r) && path@ == now.queue.root
                            && contents(file) == now.hint;
                }
            }
        }
    }
}

/// Once what is still to be written is written, a queue is as if it had just been opened: whatever
/// holds of a history from its start holds of what comes next.
pub proof fn law_flushing_starts_afresh(start: History, events: Seq<Event>)
    requires
        start.is_start(),
    ensures
        history_after(start, events).flushed().is_start(),
{
    let flushed = events.push(Event::Flushed);
    law_hints_follow_the_history(start, flushed);
    assert(flushed.drop_last() =~= events);
}

/// A queue that is opened again after whatever pushes, shifts and flushes, with what the hint file
/// holds once no hint is still to be written, is in the state of the first one, be that closed or
/// still in use: it holds the same objects in the same order.
pub proof fn law_restart_loses_nothing<T>(
    start: History,
    events: Seq<Event>,
    levels: usize,
    files: Map<Seq<char>, T>,
    items: Seq<T>,
    again: Result<Option<DirtyQueue>, Error>,
)
    requires
        start.is_start(),
        holds(history_after(start, events).queue, levels, files, items),
        history_after(start, events).flushed().reopened(again),
    ensures
        again is Ok,
        again->Ok_0 is Some,
        again->Ok_0->Some_0@ == history_after(start, events).queue,
        holds(again->Ok_0->Some_0@, levels, files, items),
{
    law_flushing_starts_afresh(start, events);
}

/// A queue that closes writes what is still to be written.
pub proof fn law_closing_flushes(history: History, idle: u128)
    ensures
        crate::hint::is_written(crate::hint::QueueDimension::Closing, idle),
        history.hints.announced(crate::hint::QueueDimension::Closing, idle)
            == history.flushed().hints,
{
}

/// How many of the events are pushes.
pub open spec fn pushes_in(events: Seq<Event>) -> nat
    decreases events.len(),
{
    if events.len() == 0 {
        0
    } else {
        pushes_in(events.drop_last()) + if events.last() matches Event::Moved(Operation::Push, _) {
            1nat
        } else {
            0nat
        }
    }
}

/// How many of the events are shifts.
pub open spec fn shifts_in(events: Seq<Event>) -> nat
    decreases events.len(),
{
    if events.len() == 0 {
        0
    } else {
        shifts_in(events.drop_last()) + if events.last() matches Event::Moved(Operation::Shift, _) {
            1nat
        } else {
            0nat
        }
    }
}

/// The state of a queue depends on how many pushes and shifts there were, not on their order.
pub proof fn law_the_counts_tell_the_state(start: History, events: Seq<Event>)
    ensures
        history_after(start, events).queue == shifted_times(
            pushed_times(start.queue, pushes_in(events)),
            shifts_in(events),
        ),
    decreases events.len(),
{
    if events.len() > 0 {
        law_the_counts_tell_the_state(start, events.drop_last());
    }
}

/// Nothing that was shifted comes back: where as many objects were shifted as were pushed, a queue
/// that is opened again, even with the first one still in use, asks for a file that none of them
/// was written to.
pub proof fn law_nothing_shifted_comes_back<T>(
    start: History,
    events: Seq<Event>,
    levels: usize,
    files: Map<Seq<char>, T>,
    objs: Seq<T>,
    again: Result<Option<DirtyQueue>, Error>,
)
    requires
        start.is_start(),
        start.queue.head == start.queue.tail,
        pushes_in(events) == objs.len(),
        shifts_in(events) == objs.len(),
        objs.len() <= usize::MAX,
        history_after(start, events).flushed().reopened(again),
    ensures
        again is Ok,
        again->Ok_0 is Some,
        ({
            let queue = again->Ok_0->Some_0@;
            let path = queue.path(queue.shifted().head, levels);
            files_after(start.queue, levels, files, objs).contains_key(path)
                <==> files.contains_key(path)
        }),
{
    law_flushing_starts_afresh(start, events);
    law_the_counts_tell_the_state(start, events);
    law_empty_queue_asks_for_a_new_file(start.queue, levels, files, objs);
}

/// No hint is ever written over an object, neither the hint file itself nor the file beside it.
pub proof fn law_hints_spare_the_objects(
    queue: crate::queue::QueueView,
    levels: usize,
    key: usize,
    hints: crate::hint::HintsView,
    qd: crate::hint::QueueDimension,
)
    ensures
        queue.path(key, levels) != crate::path::joined(hints.root, crate::hint::HINT_FILE@),
        queue.path(key, levels) != crate::path::joined(hints.root, hints.temp_name(qd)),
{
    crate::hint::lemma_hint_names(hints, qd);
    crate::path::law_hash_path_ends_in_a_number(
        queue.root,
        key,
        levels,
        hints.root,
        crate::hint::HINT_FILE@,
        0,
    );
    crate::path::law_hash_path_ends_in_a_number(
        queue.root,
        key,
        levels,
        hints.root,
        hints.temp_name(qd),
        0,
    );
}

} // verus!
