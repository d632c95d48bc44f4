//! What the calls of the library come to, told of their arguments and their results.
//!
//! Each law takes the arguments and the result of one call, or of several that follow one another,
//! and says how they are related.
use vstd::prelude::*;

use crate::error::Error;
use crate::hint::{HintFile, HintStep, Hints, QueueDimension};
use crate::keyed::Keyed;
use crate::queue::{Announce, DirtyQueue, Finish, Push, Removal, Shift};

verus! {

/// The number behind `u` is one more, and zero behind the largest.
pub proof fn law_next_with_overflow(u: usize, next: usize)
    requires
        call_ensures(crate::counter::next_with_overflow, (u,), next),
    ensures
        u < usize::MAX ==> next == u + 1,
        u == usize::MAX ==> next == 0,
{
}

/// Advancing a counter gives the number behind the one that it showed, and the counter shows it.
pub proof fn law_advance(u: &mut usize, r: Result<usize, Error>)
    requires
        call_ensures(crate::counter::advance, (u,), r),
    ensures
        r is Ok,
        r->Ok_0 == *final(u),
        *old(u) < usize::MAX ==> *final(u) == *old(u) + 1,
        *old(u) == usize::MAX ==> *final(u) == 0,
{
}

/// A number in decimal is digits, without a leading zero, that stand for it.
pub proof fn law_to_decimal(n: usize, text: String)
    requires
        call_ensures(crate::decimal::to_decimal, (n,), text),
    ensures
        crate::decimal::value(text@) == n,
        text@.len() > 0,
        forall|i: int| 0 <= i < text@.len() ==> '0' <= #[trigger] text@[i] <= '9',
        text@[0] == '0' ==> text@.len() == 1,
{
    crate::decimal::law_decimal_is_digits(n as nat);
    crate::decimal::law_decimal_stands_for_its_number(n as nat);
    assert forall|i: int| 0 <= i < text@.len() implies '0' <= #[trigger] text@[i] <= '9' by {
        assert(crate::decimal::is_digit(crate::decimal::decimal(n as nat)[i]));
    }
}

/// Joining puts the one behind the other, with a separator between them unless there is one already
/// or nothing to part.
pub proof fn law_join(path: &str, part: &str, r: String)
    requires
        call_ensures(crate::path::join, (path, part), r),
    ensures
        path@.len() == 0 ==> r@ == part@,
        path@.len() > 0 && path@.last() == '/' ==> r@ == path@ + part@,
        path@.len() > 0 && path@.last() != '/' ==> r@ == path@ + seq!['/'] + part@,
{
    assert(Seq::<char>::empty() + part@ =~= part@);
    if path@.len() == 0 {
        assert(path@ =~= Seq::<char>::empty());
    }
    assert(path@.push('/') + part@ =~= path@ + seq!['/'] + part@);
}

/// The path of a file spells out the root, a directory for each pair of the leading digits of the
/// number, and the number.
pub proof fn law_hash_filename(path: &str, count: usize, levels: usize, r: String)
    requires
        call_ensures(crate::path::hash_filename, (path, count, levels), r),
    ensures
        crate::path::spells(
            r@,
            path@,
            crate::decimal::decimal(count as nat),
            levels as int,
        ),
{
    crate::path::law_hash_path_is_spelled_out(path@, count, levels);
}

/// Where a number has digits enough, the directory at each level is called by the two digits that
/// stand at twice that level, counted from the first digit. A single digit that is left has a zero
/// before it, and past the last digit there are only zeros. Behind the directories stands the
/// number itself.
pub proof fn law_directories_are_pairs_of_digits(
    path: &str,
    count: usize,
    levels: usize,
    r: String,
    text: String,
    level: int,
)
    requires
        call_ensures(crate::path::hash_filename, (path, count, levels), r),
        call_ensures(crate::decimal::to_decimal, (count,), text),
        0 <= level < levels,
    ensures
        ({
            let start = if path@.len() == 0 || path@.last() == '/' {
                path@.len() as int
            } else {
                path@.len() as int + 1
            };
            let at = start + 3 * level;
            &&& r@.subrange(0, path@.len() as int) == path@
            &&& start > path@.len() ==> r@[start - 1] == '/'
            &&& 2 * level + 1 < text@.len() ==> r@[at] == text@[2 * level]
            &&& 2 * level + 1 < text@.len() ==> r@[at + 1] == text@[2 * level + 1]
            &&& 2 * level + 1 == text@.len() ==> r@[at] == '0' && r@[at + 1] == text@[2 * level]
            &&& 2 * level >= text@.len() ==> r@[at] == '0' && r@[at + 1] == '0'
            &&& r@[at + 2] == '/'
            &&& r@.subrange(start + 3 * levels, r@.len() as int) == text@
        }),
{
    let start = crate::path::beneath(path@);
    law_hash_filename(path, count, levels, r);
    assert(crate::path::spells_dir(r@, start + 3 * level, text@, level));
    assert(r@.subrange(0, path@.len() as int) =~= path@);
    let cut = start + 3 * levels;
    assert forall|i: int| 0 <= i < text@.len() implies r@.subrange(cut, r@.len() as int)[i]
        == text@[i] by {
        assert(r@[cut + i] == text@[i]);
    }
    assert(r@.subrange(cut, r@.len() as int) =~= text@);
}

/// Unless told otherwise, a file lies in one directory beneath the root: that of the first two
/// digits of its number, or of its only digit with a zero before it.
pub proof fn law_one_directory_by_default(path: &str, count: usize, r: String, text: String)
    requires
        call_ensures(
            crate::path::hash_filename,
            (path, count, crate::path::DIRECTORY_HASH_LEVELS),
            r,
        ),
        call_ensures(crate::decimal::to_decimal, (count,), text),
    ensures
        ({
            let root = if path@.len() == 0 || path@.last() == '/' {
                path@
            } else {
                path@ + seq!['/']
            };
            let dir = if text@.len() == 1 {
                seq!['0', text@[0]]
            } else {
                seq![text@[0], text@[1]]
            };
            r@ == root + dir + seq!['/'] + text@
        }),
{
    let levels = crate::path::DIRECTORY_HASH_LEVELS;
    law_directories_are_pairs_of_digits(path, count, levels, r, text, 0);
    law_hash_filename(path, count, levels, r);
    let start = crate::path::beneath(path@);
    let root = if path@.len() == 0 || path@.last() == '/' {
        path@
    } else {
        path@ + seq!['/']
    };
    let dir = if text@.len() == 1 {
        seq!['0', text@[0]]
    } else {
        seq![text@[0], text@[1]]
    };
    law_to_decimal(count, text);
    assert(root =~= r@.subrange(0, start));
    assert(dir =~= r@.subrange(start, start + 2));
    assert(r@ =~= r@.subrange(0, start) + r@.subrange(start, start + 2) + seq!['/']
        + r@.subrange(start + 3, r@.len() as int));
}

/// Numbers that differ in one of the leading pairs of their digits lie in different directories.
pub proof fn law_different_pairs_lie_in_different_directories(
    path: &str,
    levels: usize,
    a: usize,
    path_a: String,
    text_a: String,
    b: usize,
    path_b: String,
    text_b: String,
    level: int,
    i: int,
)
    requires
        call_ensures(crate::path::hash_filename, (path, a, levels), path_a),
        call_ensures(crate::path::hash_filename, (path, b, levels), path_b),
        call_ensures(crate::decimal::to_decimal, (a,), text_a),
        call_ensures(crate::decimal::to_decimal, (b,), text_b),
        0 <= level < levels,
        2 * level + 1 < text_a@.len(),
        2 * level + 1 < text_b@.len(),
        i == 2 * level || i == 2 * level + 1,
        text_a@[i] != text_b@[i],
    ensures
        path_a@.subrange(0, path_a@.len() - text_a@.len()) != path_b@.subrange(
            0,
            path_b@.len() - text_b@.len(),
        ),
{
    let start = crate::path::beneath(path@);
    let at = start + 3 * level + (i - 2 * level);
    let dirs_a = path_a@.subrange(0, path_a@.len() - text_a@.len());
    let dirs_b = path_b@.subrange(0, path_b@.len() - text_b@.len());
    assert(at < dirs_a.len() && dirs_a[at] == text_a@[i]) by {
        law_hash_filename(path, a, levels, path_a);
        assert(crate::path::spells_dir(path_a@, start + 3 * level, text_a@, level));
    }
    assert(at < dirs_b.len() && dirs_b[at] == text_b@[i]) by {
        law_hash_filename(path, b, levels, path_b);
        assert(crate::path::spells_dir(path_b@, start + 3 * level, text_b@, level));
    }
}

/// A queue shows the head and the tail that it was made with.
pub proof fn law_a_queue_shows_its_counters(
    path: String,
    head: usize,
    tail: usize,
    queue: DirtyQueue,
    shown_head: Result<usize, Error>,
    shown_tail: Result<usize, Error>,
)
    requires
        call_ensures(DirtyQueue::resume, (path, head, tail), queue),
        call_ensures(DirtyQueue::head, (&queue,), shown_head),
        call_ensures(DirtyQueue::tail, (&queue,), shown_tail),
    ensures
        queue@.root == path@,
        queue@.head == head,
        queue@.tail == tail,
        shown_head is Ok && shown_head->Ok_0 == head,
        shown_tail is Ok && shown_tail->Ok_0 == tail,
{
}

/// Moving the head gives the number behind it and leaves the tail alone.
pub proof fn law_advance_head(queue: &mut DirtyQueue, r: Result<usize, Error>)
    requires
        call_ensures(DirtyQueue::advance_head, (queue,), r),
    ensures
        r is Ok,
        r->Ok_0 == final(queue)@.head,
        old(queue)@.head < usize::MAX ==> final(queue)@.head == old(queue)@.head + 1,
        old(queue)@.head == usize::MAX ==> final(queue)@.head == 0,
        final(queue)@.tail == old(queue)@.tail,
        final(queue)@.root == old(queue)@.root,
{
}

/// Moving the tail gives the number behind it and leaves the head alone.
pub proof fn law_advance_tail(queue: &mut DirtyQueue, r: Result<usize, Error>)
    requires
        call_ensures(DirtyQueue::advance_tail, (queue,), r),
    ensures
        r is Ok,
        r->Ok_0 == final(queue)@.tail,
        old(queue)@.tail < usize::MAX ==> final(queue)@.tail == old(queue)@.tail + 1,
        old(queue)@.tail == usize::MAX ==> final(queue)@.tail == 0,
        final(queue)@.head == old(queue)@.head,
        final(queue)@.root == old(queue)@.root,
{
}

/// The size is how far the tail is ahead of the head. Where the tail shows the smaller number, it
/// is how far the head has run past the tail, up to half of all numbers, and beyond that how far
/// the tail is ahead having started over.
pub proof fn law_queue_size(queue: DirtyQueue, r: Result<usize, Error>)
    requires
        call_ensures(DirtyQueue::queue_size, (&queue,), r),
    ensures
        r is Ok,
        queue@.head <= queue@.tail ==> queue@.head + r->Ok_0 == queue@.tail,
        queue@.tail < queue@.head && 2 * (queue@.head - queue@.tail) <= usize::MAX ==> queue@.tail
            + r->Ok_0 == queue@.head,
        queue@.tail < queue@.head && 2 * (queue@.head - queue@.tail) > usize::MAX ==> queue@.head
            + r->Ok_0 == queue@.tail + usize::MAX + 1,
{
}

/// Where the tail shows the smaller number, the size is the smaller of the two ways round between
/// the head and the tail.
pub proof fn law_queue_size_goes_the_shorter_way(queue: DirtyQueue, r: Result<usize, Error>)
    requires
        call_ensures(DirtyQueue::queue_size, (&queue,), r),
        queue@.tail < queue@.head,
    ensures
        r is Ok,
        r->Ok_0 <= crate::counter::distance(queue@.head, queue@.tail),
        r->Ok_0 <= crate::counter::distance(queue@.tail, queue@.head),
        crate::counter::advanced(queue@.head, r->Ok_0 as nat) == queue@.tail
            || crate::counter::advanced(queue@.tail, r->Ok_0 as nat) == queue@.head,
{
    crate::counter::law_distance_leads_there(queue@.head, queue@.tail);
    crate::counter::law_distance_leads_there(queue@.tail, queue@.head);
}

/// Where the head has run past the tail by `n` steps, up to half of all numbers, that is the size.
pub proof fn law_queue_size_past_the_tail(queue: DirtyQueue, n: nat, r: Result<usize, Error>)
    requires
        call_ensures(DirtyQueue::queue_size, (&queue,), r),
        queue@.tail <= queue@.head,
        queue@.head == crate::counter::advanced(queue@.tail, n),
        n <= usize::MAX / 2,
    ensures
        r == Ok::<usize, Error>(n as usize),
{
    crate::counter::law_advanced_adds_up(queue@.tail, n);
}

/// Where the tail is ahead of the head by `n` steps, whether or not it has started over, that is
/// the size, up to half of all numbers.
pub proof fn law_queue_size_ahead_of_the_head(queue: DirtyQueue, n: nat, r: Result<usize, Error>)
    requires
        call_ensures(DirtyQueue::queue_size, (&queue,), r),
        queue@.tail == crate::counter::advanced(queue@.head, n),
        n <= usize::MAX / 2,
    ensures
        r == Ok::<usize, Error>(n as usize),
{
    crate::counter::law_advanced_adds_up(queue@.head, n);
}

/// A push draws the number behind the tail, gives it to its object and tells the file that the
/// number spells out. Nothing else of the queue changes.
pub proof fn law_push<T: Keyed>(
    queue: &mut DirtyQueue,
    obj: T,
    levels: usize,
    r: Result<Push<T>, Error>,
)
    requires
        call_ensures(DirtyQueue::push::<T>, (queue, obj, levels), r),
    ensures
        r is Ok,
        old(queue)@.tail < usize::MAX ==> r->Ok_0.key == old(queue)@.tail + 1,
        old(queue)@.tail == usize::MAX ==> r->Ok_0.key == 0,
        final(queue)@.tail == r->Ok_0.key,
        final(queue)@.head == old(queue)@.head,
        final(queue)@.root == old(queue)@.root,
        r->Ok_0.obj == obj.with_key(r->Ok_0.key),
        r->Ok_0.obj.spec_key() == r->Ok_0.key,
        r->Ok_0.obj.spec_initialized(),
        crate::path::spells(
            r->Ok_0.path@,
            old(queue)@.root,
            crate::decimal::decimal(r->Ok_0.key as nat),
            levels as int,
        ),
{
    crate::path::law_hash_path_is_spelled_out(old(queue)@.root, r->Ok_0.key, levels);
}

/// A shift draws the number behind the head and tells the file that the number spells out. Nothing
/// else of the queue changes.
pub proof fn law_shift(queue: &mut DirtyQueue, levels: usize, r: Result<Shift, Error>)
    requires
        call_ensures(DirtyQueue::shift, (queue, levels), r),
    ensures
        r is Ok,
        old(queue)@.head < usize::MAX ==> r->Ok_0.key == old(queue)@.head + 1,
        old(queue)@.head == usize::MAX ==> r->Ok_0.key == 0,
        final(queue)@.head == r->Ok_0.key,
        final(queue)@.tail == old(queue)@.tail,
        final(queue)@.root == old(queue)@.root,
        crate::path::spells(
            r->Ok_0.path@,
            old(queue)@.root,
            crate::decimal::decimal(r->Ok_0.key as nat),
            levels as int,
        ),
{
    crate::path::law_hash_path_is_spelled_out(old(queue)@.root, r->Ok_0.key, levels);
}

/// Whatever has happened in between, a shift reads the file that a push wrote if and only if it has
/// drawn the number that the push gave.
pub proof fn law_a_shift_reads_what_a_push_wrote<T: Keyed>(
    earlier: &mut DirtyQueue,
    obj: T,
    pushed: Result<Push<T>, Error>,
    later: &mut DirtyQueue,
    shifted: Result<Shift, Error>,
    levels: usize,
)
    requires
        call_ensures(DirtyQueue::push::<T>, (earlier, obj, levels), pushed),
        call_ensures(DirtyQueue::shift, (later, levels), shifted),
        old(earlier)@.root == old(later)@.root,
    ensures
        pushed is Ok && shifted is Ok,
        shifted->Ok_0.path@ == pushed->Ok_0.path@ <==> shifted->Ok_0.key == pushed->Ok_0.key,
{
    let a = pushed->Ok_0.key;
    let b = shifted->Ok_0.key;
    if a != b {
        crate::path::law_hash_path_tells_counts_apart(old(earlier)@.root, a, b, levels);
    }
}

/// What a push comes to: the first of its two outcomes that failed, or the number of its object,
/// with the tail announced in between.
pub proof fn law_push_comes_to_its_number<T: Keyed>(
    queue: &mut DirtyQueue,
    obj: T,
    levels: usize,
    pushed: Result<Push<T>, Error>,
    written: Result<(), Error>,
    announce: Result<Announce<usize>, Error>,
    sent: Result<(), Error>,
    r: Result<usize, Error>,
)
    requires
        call_ensures(DirtyQueue::push::<T>, (queue, obj, levels), pushed),
        pushed is Ok ==> call_ensures(Push::<T>::written, (pushed->Ok_0, written), announce),
        announce is Ok ==> call_ensures(Announce::<usize>::announced, (announce->Ok_0, sent), r),
    ensures
        written is Err ==> announce == Err::<Announce<usize>, Error>(written->Err_0),
        written is Ok ==> announce is Ok,
        written is Ok ==> announce->Ok_0.dimension == QueueDimension::Tail(final(queue)@.tail),
        written is Ok && sent is Ok ==> r == Ok::<usize, Error>(final(queue)@.tail),
        written is Ok && sent is Err ==> r == Err::<usize, Error>(sent->Err_0),
{
}

/// What a shift comes to: the first of its two outcomes that failed, or the object that was read,
/// with its number set and the head announced in between.
pub proof fn law_shift_comes_to_its_object<T: Keyed>(
    queue: &mut DirtyQueue,
    levels: usize,
    shifted: Result<Shift, Error>,
    found: Result<T, Error>,
    announce: Result<Announce<T>, Error>,
    sent: Result<(), Error>,
    r: Result<T, Error>,
)
    requires
        call_ensures(DirtyQueue::shift, (queue, levels), shifted),
        shifted is Ok ==> call_ensures(Shift::read::<T>, (shifted->Ok_0, found), announce),
        announce is Ok ==> call_ensures(Announce::<T>::announced, (announce->Ok_0, sent), r),
    ensures
        found is Err ==> announce == Err::<Announce<T>, Error>(found->Err_0),
        found is Ok ==> announce is Ok,
        found is Ok ==> announce->Ok_0.dimension == QueueDimension::Head(final(queue)@.head),
        found is Ok && sent is Ok ==> {
            &&& r is Ok
            &&& r->Ok_0 == found->Ok_0.with_key(final(queue)@.head)
            &&& r->Ok_0.spec_key() == final(queue)@.head
            &&& r->Ok_0.spec_initialized()
        },
        found is Ok && sent is Err ==> r == Err::<T, Error>(sent->Err_0),
{
}

/// Finishing the object of a push, wherever the head and the tail have got to by then, removes the
/// file that the push told.
pub proof fn law_finished_removes_what_was_pushed<T: Keyed>(
    earlier: &mut DirtyQueue,
    obj: T,
    levels: usize,
    pushed: Result<Push<T>, Error>,
    later: DirtyQueue,
    finish: Finish<T>,
)
    requires
        call_ensures(DirtyQueue::push::<T>, (earlier, obj, levels), pushed),
        later@.root == old(earlier)@.root,
        pushed is Ok ==> call_ensures(
            DirtyQueue::finished::<T>,
            (&later, pushed->Ok_0.obj, levels),
            finish,
        ),
    ensures
        pushed is Ok,
        finish is Remove,
        finish->Remove_0.path@ == pushed->Ok_0.path@,
        finish->Remove_0.obj == pushed->Ok_0.obj,
{
}

/// Finishing the object of a shift, wherever the head and the tail have got to by then, removes the
/// file that the shift read.
pub proof fn law_finished_removes_what_was_read<T: Keyed>(
    earlier: &mut DirtyQueue,
    levels: usize,
    shifted: Result<Shift, Error>,
    found: T,
    announce: Result<Announce<T>, Error>,
    later: DirtyQueue,
    finish: Finish<T>,
)
    requires
        call_ensures(DirtyQueue::shift, (earlier, levels), shifted),
        shifted is Ok ==> call_ensures(
            Shift::read::<T>,
            (shifted->Ok_0, Ok::<T, Error>(found)),
            announce,
        ),
        later@.root == old(earlier)@.root,
        announce is Ok ==> call_ensures(
            DirtyQueue::finished::<T>,
            (&later, announce->Ok_0.result, levels),
            finish,
        ),
    ensures
        shifted is Ok && announce is Ok,
        finish is Remove,
        finish->Remove_0.path@ == shifted->Ok_0.path@,
        finish->Remove_0.obj == announce->Ok_0.result,
{
}

/// The file that finishing a numbered object removes is the one that its number spells out, and an
/// object without a number has none.
pub proof fn law_finished<T: Keyed>(queue: DirtyQueue, obj: T, levels: usize, finish: Finish<T>)
    requires
        call_ensures(DirtyQueue::finished::<T>, (&queue, obj, levels), finish),
    ensures
        obj.spec_initialized() ==> {
            &&& finish is Remove
            &&& finish->Remove_0.obj == obj
            &&& crate::path::spells(
                finish->Remove_0.path@,
                queue@.root,
                crate::decimal::decimal(obj.spec_key() as nat),
                levels as int,
            )
        },
        !obj.spec_initialized() ==> finish is Done && finish->Done_0 == obj,
{
    crate::path::law_hash_path_is_spelled_out(queue@.root, obj.spec_key(), levels);
}

/// Finishing an object drops the file of that object and of no other.
pub proof fn law_finished_drops_one_file<T: Keyed, V>(
    queue: DirtyQueue,
    obj: T,
    levels: usize,
    finish: Finish<T>,
    files: Map<Seq<char>, V>,
    key: usize,
    path: String,
)
    requires
        call_ensures(DirtyQueue::finished::<T>, (&queue, obj, levels), finish),
        obj.spec_initialized(),
        crate::path::spells(
            path@,
            queue@.root,
            crate::decimal::decimal(key as nat),
            levels as int,
        ),
    ensures
        finish is Remove,
        key == obj.spec_key() ==> !files.remove(finish->Remove_0.path@).contains_key(path@),
        key != obj.spec_key() ==> {
            let left = files.remove(finish->Remove_0.path@);
            &&& left.contains_key(path@) <==> files.contains_key(path@)
            &&& files.contains_key(path@) ==> left[path@] == files[path@]
        },
{
    let own = obj.spec_key();
    crate::path::law_hash_path_is_spelled_out(queue@.root, key, levels);
    crate::path::law_spelling_is_unique(
        path@,
        crate::path::hash_path(queue@.root, key, levels),
        queue@.root,
        crate::decimal::decimal(key as nat),
        levels as nat,
    );
    if key != own {
        crate::path::law_hash_path_tells_counts_apart(queue@.root, key, own, levels);
    }
}

/// What finishing comes to: the failure to remove the file, or the object as it was.
pub proof fn law_removed<T>(removal: Removal<T>, outcome: Result<(), Error>, r: Result<T, Error>)
    requires
        call_ensures(Removal::<T>::removed, (removal, outcome), r),
    ensures
        outcome is Ok ==> r == Ok::<T, Error>(removal.obj),
        outcome is Err ==> r == Err::<T, Error>(outcome->Err_0),
{
}

/// Shifting and finishing at once is finishing what the shift came to, if it came to an object.
pub proof fn law_shift_finished<T: Keyed>(
    queue: DirtyQueue,
    shifted: Result<T, Error>,
    levels: usize,
    r: Result<Finish<T>, Error>,
    finish: Finish<T>,
)
    requires
        call_ensures(DirtyQueue::shift_finished::<T>, (&queue, shifted, levels), r),
        shifted is Ok ==> call_ensures(
            DirtyQueue::finished::<T>,
            (&queue, shifted->Ok_0, levels),
            finish,
        ),
    ensures
        shifted is Err ==> r == Err::<Finish<T>, Error>(shifted->Err_0),
        shifted is Ok ==> r is Ok,
        shifted is Ok && finish is Done ==> r->Ok_0 == finish,
        shifted is Ok && finish is Remove ==> {
            &&& r->Ok_0 is Remove
            &&& r->Ok_0->Remove_0.path@ == finish->Remove_0.path@
            &&& r->Ok_0->Remove_0.obj == finish->Remove_0.obj
        },
{
}

/// A push puts its object behind those that the queue holds, once the file that it told is written.
pub proof fn law_push_call_appends<T: Keyed, V>(
    queue: &mut DirtyQueue,
    obj: T,
    levels: usize,
    r: Result<Push<T>, Error>,
    files: Map<Seq<char>, V>,
    items: Seq<V>,
    stored: V,
)
    requires
        call_ensures(DirtyQueue::push::<T>, (queue, obj, levels), r),
        crate::laws::holds(old(queue)@, levels, files, items),
        items.len() < usize::MAX,
    ensures
        r is Ok,
        crate::laws::holds(
            final(queue)@,
            levels,
            files.insert(r->Ok_0.path@, stored),
            items.push(stored),
        ),
{
    crate::laws::law_push_appends(old(queue)@, levels, files, items, stored);
}

/// A shift tells the file of the object that was put in first of those that the queue holds, and
/// the queue then holds the others.
pub proof fn law_shift_call_takes_the_first<V>(
    queue: &mut DirtyQueue,
    levels: usize,
    r: Result<Shift, Error>,
    files: Map<Seq<char>, V>,
    items: Seq<V>,
)
    requires
        call_ensures(DirtyQueue::shift, (queue, levels), r),
        crate::laws::holds(old(queue)@, levels, files, items),
        items.len() > 0,
    ensures
        r is Ok,
        files.contains_key(r->Ok_0.path@),
        files[r->Ok_0.path@] == items[0],
        crate::laws::holds(final(queue)@, levels, files, items.drop_first()),
{
    crate::laws::law_shift_takes_the_first(old(queue)@, levels, files, items);
}

/// The size is the number of objects that the queue holds, except where the tail has started over
/// and there are more of them than half of all numbers.
pub proof fn law_queue_size_counts_the_items<V>(
    queue: DirtyQueue,
    r: Result<usize, Error>,
    levels: usize,
    files: Map<Seq<char>, V>,
    items: Seq<V>,
)
    requires
        call_ensures(DirtyQueue::queue_size, (&queue,), r),
        crate::laws::holds(queue@, levels, files, items),
        queue@.head <= queue@.tail || 2 * items.len() <= usize::MAX + 1,
    ensures
        r is Ok,
        r->Ok_0 == items.len(),
{
    crate::laws::law_size_counts_the_items(queue@, levels, files, items);
}

/// Without a hint a queue starts at zero.
pub proof fn law_opening_without_a_hint(
    path: String,
    r: Result<Option<DirtyQueue>, Error>,
    head: Result<usize, Error>,
    tail: Result<usize, Error>,
)
    requires
        call_ensures(DirtyQueue::new, (path, None), r),
        r matches Ok(Some(queue)) ==> call_ensures(DirtyQueue::head, (&queue,), head),
        r matches Ok(Some(queue)) ==> call_ensures(DirtyQueue::tail, (&queue,), tail),
    ensures
        r is Ok,
        r->Ok_0 is Some,
        r->Ok_0->Some_0@.root == path@,
        head == Ok::<usize, Error>(0),
        tail == Ok::<usize, Error>(0),
{
}

/// A queue that is opened with a hint shows the first number of the hint as its head and the second
/// as its tail. A hint of fewer numbers gives no queue, and a hint that cannot be read is an error
/// that tells why.
pub proof fn law_opening_with_a_hint(
    path: String,
    bytes: Vec<u8>,
    decoded: Result<Vec<usize>, ciborium::de::Error<std::io::Error>>,
    r: Result<Option<DirtyQueue>, Error>,
    head: Result<usize, Error>,
    tail: Result<usize, Error>,
)
    requires
        call_ensures(crate::cbor::read_numbers, (&bytes,), decoded),
        call_ensures(DirtyQueue::new, (path, Some(bytes)), r),
        r matches Ok(Some(queue)) ==> call_ensures(DirtyQueue::head, (&queue,), head),
        r matches Ok(Some(queue)) ==> call_ensures(DirtyQueue::tail, (&queue,), tail),
    ensures
        decoded matches Ok(numbers) ==> numbers@.len() >= 2 ==> {
            &&& r is Ok
            &&& r->Ok_0 is Some
            &&& r->Ok_0->Some_0@.root == path@
            &&& r->Ok_0->Some_0@.head == numbers@[0]
            &&& r->Ok_0->Some_0@.tail == numbers@[1]
            &&& head == Ok::<usize, Error>(numbers@[0])
            &&& tail == Ok::<usize, Error>(numbers@[1])
        },
        decoded matches Ok(numbers) ==> numbers@.len() < 2 ==> r is Ok && r->Ok_0 is None,
        decoded is Err ==> r is Err && crate::hint::is_read_failure(bytes, r->Err_0),
{
}

/// Without a hint file the head and the tail are zero. With one they are its first two numbers, if
/// it can be read and holds as many.
pub proof fn law_take_hint(
    file: Option<Vec<u8>>,
    decoded: Result<Vec<usize>, ciborium::de::Error<std::io::Error>>,
    r: Result<Option<(usize, usize)>, Error>,
)
    requires
        file matches Some(bytes) ==> call_ensures(crate::cbor::read_numbers, (&bytes,), decoded),
        call_ensures(crate::hint::take_hint, (file,), r),
    ensures
        file is None ==> r == Ok::<Option<(usize, usize)>, Error>(Some((0, 0))),
        file is Some && decoded is Ok && decoded->Ok_0@.len() >= 2 ==> r == Ok::<
            Option<(usize, usize)>,
            Error,
        >(Some((decoded->Ok_0@[0], decoded->Ok_0@[1]))),
        file is Some && decoded is Ok && decoded->Ok_0@.len() < 2 ==> r == Ok::<
            Option<(usize, usize)>,
            Error,
        >(None),
        file is Some && decoded is Err ==> r is Err && crate::hint::is_read_failure(
            file->Some_0,
            r->Err_0,
        ),
{
}

/// Of the numbers that were read, the first is the head and the second the tail, if there are as
/// many. If none could be read, the error shows why.
pub proof fn law_hint_from_decoded(
    decoded: Result<Vec<usize>, ciborium::de::Error<std::io::Error>>,
    r: Result<Option<(usize, usize)>, Error>,
)
    requires
        call_ensures(crate::hint::hint_from_decoded, (decoded,), r),
    ensures
        decoded is Ok && decoded->Ok_0@.len() >= 2 ==> r == Ok::<Option<(usize, usize)>, Error>(
            Some((decoded->Ok_0@[0], decoded->Ok_0@[1])),
        ),
        decoded is Ok && decoded->Ok_0@.len() < 2 ==> r == Ok::<Option<(usize, usize)>, Error>(
            None,
        ),
        decoded is Err ==> r is Err && vstd::string::to_string_from_display_ensures(
            &decoded->Err_0,
            r->Err_0.message(),
        ),
{
}

/// The first of the numbers is the head and the second the tail, if there are as many.
pub proof fn law_read_hint(numbers: Vec<usize>, r: Option<(usize, usize)>)
    requires
        call_ensures(crate::hint::read_hint, (&numbers,), r),
    ensures
        numbers@.len() >= 2 ==> r == Some((numbers@[0], numbers@[1])),
        numbers@.len() < 2 ==> r is None,
{
}

/// The numbers are those that the bytes are decoded to, if they are. Where a file begins with an
/// array of numbers, it is those numbers, whatever comes behind.
pub proof fn law_read_numbers(
    numbers: Seq<usize>,
    bytes: Vec<u8>,
    r: Result<Vec<usize>, ciborium::de::Error<std::io::Error>>,
)
    requires
        call_ensures(crate::cbor::read_numbers, (&bytes,), r),
    ensures
        r is Ok <==> crate::cbor::decoded_numbers(bytes@, usize::MAX as nat) is Some,
        r is Ok ==> crate::cbor::decoded_numbers(bytes@, usize::MAX as nat)->Some_0 == r->Ok_0@,
        r is Err ==> crate::cbor::fails_with(bytes, r->Err_0),
        crate::cbor::cbor_numbers(numbers).is_prefix_of(bytes@) ==> r is Ok && r->Ok_0@ == numbers,
{
}

/// The hints of a queue start with its head and its tail and have nothing to tell.
pub proof fn law_hints_start_with_the_queue(queue: DirtyQueue, hints: Hints, pending: bool)
    requires
        call_ensures(DirtyQueue::hints, (&queue,), hints),
        call_ensures(Hints::is_pending, (&hints,), pending),
    ensures
        hints@.root == queue@.root,
        hints@.head == queue@.head,
        hints@.tail == queue@.tail,
        !pending,
{
}

/// Hints that are made for a head and a tail are those of the queue that is made for them.
pub proof fn law_hints_start_as_told(root: String, head: usize, tail: usize, hints: Hints)
    requires
        call_ensures(Hints::new, (root, head, tail), hints),
    ensures
        hints@.root == root@,
        hints@.head == head,
        hints@.tail == tail,
        !hints@.pending,
{
}

/// An announcement replaces the head or the tail that it speaks of and nothing else. The state in
/// which a queue closes is always written, and any other if the last hint is more than five
/// hundred nanoseconds old; what is not written is pending.
pub proof fn law_write_hints(hints: &mut Hints, qd: QueueDimension, idle: u128, step: HintStep)
    requires
        call_ensures(Hints::write_hints, (hints, qd, idle), step),
    ensures
        final(hints)@.root == old(hints)@.root,
        final(hints)@.head == if qd is Head {
            qd->Head_0
        } else {
            old(hints)@.head
        },
        final(hints)@.tail == if qd is Tail {
            qd->Tail_0
        } else {
            old(hints)@.tail
        },
        step.closing == (qd is Closing),
        qd is Closing || idle > 500 ==> step.write is Some && !final(hints)@.pending,
        !(qd is Closing) && idle <= 500 ==> step.write is None && final(hints)@.pending,
{
}

/// Flushing writes what is pending, if anything is, and changes nothing else.
pub proof fn law_flush(hints: &mut Hints, before: bool, r: Option<HintFile>, after: Hints)
    requires
        call_ensures(Hints::is_pending, (&*old(hints),), before),
        call_ensures(Hints::flush, (hints,), r),
        after == *final(hints),
    ensures
        r is Some <==> before,
        !after@.pending,
        after@.root == old(hints)@.root,
        after@.head == old(hints)@.head,
        after@.tail == old(hints)@.tail,
{
}

/// A hint goes to a file in the root that is called by what was announced, and from there to the
/// hint file.
pub proof fn law_names_of_a_hint(hints: &mut Hints, qd: QueueDimension, idle: u128, step: HintStep)
    requires
        call_ensures(Hints::write_hints, (hints, qd, idle), step),
        step.write is Some,
    ensures
        ({
            let root = if old(hints)@.root.len() == 0 || old(hints)@.root.last() == '/' {
                old(hints)@.root
            } else {
                old(hints)@.root + "/"@
            };
            let file = step.write->Some_0;
            &&& file.target@ == root + "hint"@
            &&& qd is Head ==> file.temp@ == root + "hint.head."@ + crate::decimal::decimal(
                qd->Head_0 as nat,
            ) + ".tmp"@
            &&& qd is Tail ==> file.temp@ == root + "hint.tail."@ + crate::decimal::decimal(
                qd->Tail_0 as nat,
            ) + ".tmp"@
            &&& qd is Closing ==> file.temp@ == root + "hint."@ + crate::decimal::decimal(
                old(hints)@.head as nat,
            ) + "."@ + crate::decimal::decimal(old(hints)@.tail as nat) + ".tmp"@
        }),
{
    let name = old(hints)@.temp_name(qd);
    let root = old(hints)@.root;
    lemma_hint_literals();
    assert(root.push('/') =~= root + "/"@);
    let front = if root.len() == 0 || root.last() == '/' {
        root
    } else {
        root + "/"@
    };
    let file = step.write->Some_0;
    assert(file.temp@ == front + name);
    match qd {
        QueueDimension::Head(head) => assert(file.temp@ =~= front + "hint.head."@
            + crate::decimal::decimal(head as nat) + ".tmp"@),
        QueueDimension::Tail(tail) => assert(file.temp@ =~= front + "hint.tail."@
            + crate::decimal::decimal(tail as nat) + ".tmp"@),
        QueueDimension::Closing => assert(file.temp@ =~= front + "hint."@
            + crate::decimal::decimal(old(hints)@.head as nat) + "."@ + crate::decimal::decimal(
            old(hints)@.tail as nat,
        ) + ".tmp"@),
    }
}

/// A hint that is flushed goes to a file in the root that is called by the head and the tail, and
/// from there to the hint file.
pub proof fn law_names_of_a_flushed_hint(hints: &mut Hints, r: Option<HintFile>)
    requires
        call_ensures(Hints::flush, (hints,), r),
        r is Some,
    ensures
        ({
            let root = if old(hints)@.root.len() == 0 || old(hints)@.root.last() == '/' {
                old(hints)@.root
            } else {
                old(hints)@.root + "/"@
            };
            let file = r->Some_0;
            &&& file.target@ == root + "hint"@
            &&& file.temp@ == root + "hint."@ + crate::decimal::decimal(old(hints)@.head as nat)
                + "."@ + crate::decimal::decimal(old(hints)@.tail as nat) + ".tmp"@
        }),
{
    let root = old(hints)@.root;
    lemma_hint_literals();
    assert(root.push('/') =~= root + "/"@);
    let front = if root.len() == 0 || root.last() == '/' {
        root
    } else {
        root + "/"@
    };
    let file = r->Some_0;
    assert(file.temp@ == front + old(hints)@.temp_name(QueueDimension::Closing));
    assert(file.temp@ =~= front + "hint."@ + crate::decimal::decimal(old(hints)@.head as nat)
        + "."@ + crate::decimal::decimal(old(hints)@.tail as nat) + ".tmp"@);
}

/// The names of the files of a hint begin with that of the hint file.
proof fn lemma_hint_literals()
    ensures
        "/"@ == seq!['/'],
        crate::hint::HINT_FILE@ == "hint"@,
        "hint"@ + ".head."@ == "hint.head."@,
        "hint"@ + ".tail."@ == "hint.tail."@,
        "hint"@ + "."@ == "hint."@,
{
    reveal_strlit("/");
    reveal_strlit("hint");
    reveal_strlit(".head.");
    reveal_strlit(".tail.");
    reveal_strlit(".");
    reveal_strlit("hint.head.");
    reveal_strlit("hint.tail.");
    reveal_strlit("hint.");
    assert("/"@ =~= seq!['/']);
    assert("hint"@ + ".head."@ =~= "hint.head."@);
    assert("hint"@ + ".tail."@ =~= "hint.tail."@);
    assert("hint"@ + "."@ =~= "hint."@);
}

/// A queue that is opened with what an announcement had written, whatever comes behind it in the
/// file, shows the head and the tail as the announcement left them.
pub proof fn law_a_written_hint_is_read_back(
    hints: &mut Hints,
    qd: QueueDimension,
    idle: u128,
    step: HintStep,
    path: String,
    bytes: Vec<u8>,
    r: Result<Option<DirtyQueue>, Error>,
    head: Result<usize, Error>,
    tail: Result<usize, Error>,
)
    requires
        call_ensures(Hints::write_hints, (hints, qd, idle), step),
        step.write is Some,
        step.write->Some_0.bytes@.is_prefix_of(bytes@),
        call_ensures(DirtyQueue::new, (path, Some(bytes)), r),
        r matches Ok(Some(queue)) ==> call_ensures(DirtyQueue::head, (&queue,), head),
        r matches Ok(Some(queue)) ==> call_ensures(DirtyQueue::tail, (&queue,), tail),
    ensures
        r is Ok,
        r->Ok_0 is Some,
        r->Ok_0->Some_0@.root == path@,
        head == Ok::<usize, Error>(
            if qd is Head {
                qd->Head_0
            } else {
                old(hints)@.head
            },
        ),
        tail == Ok::<usize, Error>(
            if qd is Tail {
                qd->Tail_0
            } else {
                old(hints)@.tail
            },
        ),
        step.write->Some_0.data@.len() == 2,
        head == Ok::<usize, Error>(step.write->Some_0.data@[0]),
        tail == Ok::<usize, Error>(step.write->Some_0.data@[1]),
{
    let state = old(hints)@.announced(qd, idle);
    assert(step.write->Some_0.bytes@ == state.bytes());
}

/// A queue that is opened with what was flushed, whatever comes behind it in the file, shows the
/// head and the tail that the hints knew.
pub proof fn law_a_flushed_hint_is_read_back(
    hints: &mut Hints,
    file: Option<HintFile>,
    path: String,
    bytes: Vec<u8>,
    r: Result<Option<DirtyQueue>, Error>,
    head: Result<usize, Error>,
    tail: Result<usize, Error>,
)
    requires
        call_ensures(Hints::flush, (hints,), file),
        file is Some,
        file->Some_0.bytes@.is_prefix_of(bytes@),
        call_ensures(DirtyQueue::new, (path, Some(bytes)), r),
        r matches Ok(Some(queue)) ==> call_ensures(DirtyQueue::head, (&queue,), head),
        r matches Ok(Some(queue)) ==> call_ensures(DirtyQueue::tail, (&queue,), tail),
    ensures
        r is Ok,
        r->Ok_0 is Some,
        r->Ok_0->Some_0@.root == path@,
        head == Ok::<usize, Error>(old(hints)@.head),
        tail == Ok::<usize, Error>(old(hints)@.tail),
        file->Some_0.data@.len() == 2,
        head == Ok::<usize, Error>(file->Some_0.data@[0]),
        tail == Ok::<usize, Error>(file->Some_0.data@[1]),
{
    assert(file->Some_0.bytes@ == old(hints)@.bytes());
}

/// No file of a hint is the file of an object.
pub proof fn law_hints_are_kept_from_the_objects<T: Keyed>(
    queue: &mut DirtyQueue,
    obj: T,
    levels: usize,
    pushed: Result<Push<T>, Error>,
    hints: &mut Hints,
    qd: QueueDimension,
    idle: u128,
    step: HintStep,
)
    requires
        call_ensures(DirtyQueue::push::<T>, (queue, obj, levels), pushed),
        call_ensures(Hints::write_hints, (hints, qd, idle), step),
    ensures
        pushed is Ok,
        step.write matches Some(file) ==> {
            &&& file.temp@ != pushed->Ok_0.path@
            &&& file.target@ != pushed->Ok_0.path@
            &&& file.temp@ != file.target@
        },
{
    crate::laws::law_hints_spare_the_objects(
        old(queue)@,
        levels,
        pushed->Ok_0.key,
        old(hints)@,
        qd,
    );
    crate::hint::law_hints_are_not_written_in_place(old(hints)@, qd);
}

/// An error carries the text that its cause is shown as.
pub proof fn law_an_error_shows_its_cause<T: core::fmt::Display>(cause: T, e: Error)
    requires
        call_ensures(<Error as core::convert::From<T>>::from, (cause,), e),
    ensures
        vstd::string::to_string_from_display_ensures::<T>(&cause, e.message()),
{
}

/// A queue may be opened on any file and moved in any state.
pub proof fn law_every_queue_can_be_used<T: Keyed>(
    path: String,
    hint: Option<Vec<u8>>,
    head: usize,
    tail: usize,
    queue: &mut DirtyQueue,
    obj: T,
    shifted: Result<T, Error>,
    levels: usize,
)
    ensures
        call_requires(DirtyQueue::new, (path, hint)),
        call_requires(DirtyQueue::resume, (path, head, tail)),
        call_requires(DirtyQueue::hints, (&*old(queue),)),
        call_requires(DirtyQueue::head, (&*old(queue),)),
        call_requires(DirtyQueue::tail, (&*old(queue),)),
        call_requires(DirtyQueue::queue_size, (&*old(queue),)),
        call_requires(DirtyQueue::advance_head, (old(queue),)),
        call_requires(DirtyQueue::advance_tail, (old(queue),)),
        call_requires(DirtyQueue::push::<T>, (old(queue), obj, levels)),
        call_requires(DirtyQueue::shift, (old(queue), levels)),
        call_requires(DirtyQueue::finished::<T>, (&*old(queue), obj, levels)),
        call_requires(DirtyQueue::shift_finished::<T>, (&*old(queue), shifted, levels)),
{
}

/// Any outcome may be handed back to an operation, and anything may be announced.
pub proof fn law_every_outcome_can_be_told<T: Keyed>(
    push: Push<T>,
    shift: Shift,
    removal: Removal<T>,
    announce: Announce<T>,
    found: Result<T, Error>,
    done: Result<(), Error>,
    hints: &mut Hints,
    qd: QueueDimension,
    idle: u128,
)
    ensures
        call_requires(Push::<T>::written, (push, done)),
        call_requires(Shift::read::<T>, (shift, found)),
        call_requires(Removal::<T>::removed, (removal, done)),
        call_requires(Announce::<T>::announced, (announce, done)),
        call_requires(Hints::is_pending, (&*old(hints),)),
        call_requires(Hints::write_hints, (old(hints), qd, idle)),
        call_requires(Hints::flush, (old(hints),)),
{
}

/// Any text, number or run of bytes may be handed to the functions that the queue is made of.
pub proof fn law_every_argument_is_taken(
    u: &mut usize,
    count: usize,
    path: &str,
    part: &str,
    levels: usize,
    numbers: Vec<usize>,
    bytes: Vec<u8>,
    file: Option<Vec<u8>>,
    decoded: Result<Vec<usize>, ciborium::de::Error<std::io::Error>>,
)
    ensures
        call_requires(crate::counter::next_with_overflow, (count,)),
        call_requires(crate::counter::advance, (old(u),)),
        call_requires(crate::decimal::to_decimal, (count,)),
        call_requires(crate::path::join, (path, part)),
        call_requires(crate::path::hash_filename, (path, count, levels)),
        call_requires(crate::cbor::read_numbers, (&bytes,)),
        call_requires(crate::hint::read_hint, (&numbers,)),
        call_requires(crate::hint::hint_from_decoded, (decoded,)),
        call_requires(crate::hint::take_hint, (file,)),
{
}

} // verus!
