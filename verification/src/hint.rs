//! The hint file, from which a queue learns where it left off.
//!
//! The file holds the head and the tail of the queue. It is replaced as a whole: the new hint is
//! written to a file beside it, which then takes its name.
use vstd::prelude::*;
use vstd::string::StringExecFns;

use crate::cbor::{encode, read_numbers};
use crate::decimal::to_decimal;
use crate::error::Error;
use crate::path::join;

verus! {

/// The name of the hint file, beneath the root of the queue.
pub const HINT_FILE: &'static str = "hint";

/// How long a hint stands, in nanoseconds, before a change of the queue replaces it.
pub const HINT_INTERVAL: u128 = 500;

/// What a queue announces to the writer of its hints.
#[derive(Debug, Clone)]
pub enum QueueDimension {
    /// The head moved here.
    Head(usize),
    /// The tail moved here.
    Tail(usize),
    /// The queue is about to go away.
    Closing,
}

/// What the writer of the hints knows of the queue, and whether some of it is not written yet.
pub struct HintsView {
    pub root: Seq<char>,
    pub head: usize,
    pub tail: usize,
    pub pending: bool,
}

impl HintsView {
    /// What is known after an announcement, before anything is written.
    pub open spec fn noted(self, qd: QueueDimension) -> HintsView {
        match qd {
            QueueDimension::Head(head) => HintsView { head, pending: true, ..self },
            QueueDimension::Tail(tail) => HintsView { tail, pending: true, ..self },
            QueueDimension::Closing => self,
        }
    }

    /// What is known once it is written.
    pub open spec fn written(self) -> HintsView {
        HintsView { pending: false, ..self }
    }

    /// What is known after an announcement, `idle` nanoseconds after the last hint was written.
    pub open spec fn announced(self, qd: QueueDimension, idle: u128) -> HintsView {
        if is_written(qd, idle) {
            self.noted(qd).written()
        } else {
            self.noted(qd)
        }
    }

    /// The name of the file that a new hint is written to first.
    pub open spec fn temp_name(self, qd: QueueDimension) -> Seq<char> {
        match qd {
            QueueDimension::Head(head) => HINT_FILE@ + ".head."@ + crate::decimal::decimal(
                head as nat,
            ) + ".tmp"@,
            QueueDimension::Tail(tail) => HINT_FILE@ + ".tail."@ + crate::decimal::decimal(
                tail as nat,
            ) + ".tmp"@,
            QueueDimension::Closing => HINT_FILE@ + "."@ + crate::decimal::decimal(
                self.head as nat,
            ) + "."@ + crate::decimal::decimal(self.tail as nat) + ".tmp"@,
        }
    }

    /// What the hint file holds for a queue in this state.
    pub open spec fn bytes(self) -> Seq<u8> {
        crate::cbor::cbor_numbers(seq![self.head, self.tail])
    }
}

/// Whether an announcement is written out, `idle` nanoseconds after the last hint was.
pub open spec fn is_written(qd: QueueDimension, idle: u128) -> bool {
    qd is Closing || idle > HINT_INTERVAL
}

/// Whether `file` is the hint for `state`, written first to a file called `name`.
pub open spec fn is_hint(file: HintFile, state: HintsView, name: Seq<char>) -> bool {
    &&& file.temp@ == crate::path::joined(state.root, name)
    &&& file.target@ == crate::path::joined(state.root, HINT_FILE@)
    &&& file.data@ == seq![state.head, state.tail]
    &&& file.bytes@ == state.bytes()
}

/// A hint to be written.
pub struct HintFile {
    /// The file to write first.
    pub temp: String,
    /// The file whose place it then takes.
    pub target: String,
    /// The head and the tail.
    pub data: Vec<usize>,
    /// What to write: the head and the tail as bytes.
    pub bytes: Vec<u8>,
}

/// What is to be done about an announcement.
pub struct HintStep {
    /// The hint to write, if there is one.
    pub write: Option<HintFile>,
    /// Whether there is nothing more to wait for.
    pub closing: bool,
}

/// Follows the announcements of a queue and says which hints to write.
pub struct Hints {
    root: String,
    last_head: usize,
    last_tail: usize,
    pending: bool,
}

impl View for Hints {
    type V = HintsView;

    closed spec fn view(&self) -> HintsView {
        HintsView {
            root: self.root@,
            head: self.last_head,
            tail: self.last_tail,
            pending: self.pending,
        }
    }
}

impl Hints {
    /// Starts with the head and the tail that the queue starts with.
    pub fn new(root: String, head: usize, tail: usize) -> (r: Self)
        ensures
            r@ == (HintsView { root: root@, head, tail, pending: false }),
    {
        Hints { root, last_head: head, last_tail: tail, pending: false }
    }

    /// Whether there is something to write that no hint has told yet.
    pub fn is_pending(&self) -> (r: bool)
        ensures
            r == self@.pending,
    {
        self.pending
    }

    /// The hint for what is known now, written first to a file called `name`.
    fn hint_file(&self, name: String) -> (file: HintFile)
        ensures
            is_hint(file, self@, name@),
    {
        let data = vec![self.last_head, self.last_tail];
        assert(data@ =~= seq![self.last_head, self.last_tail]);
        HintFile {
            temp: join(self.root.as_str(), name.as_str()),
            target: join(self.root.as_str(), HINT_FILE),
            bytes: encode(&data),
            data,
        }
    }

    /// The name of the file that a new hint is written to first.
    fn temp_name(&self, qd: &QueueDimension) -> (name: String)
        ensures
            name@ == self@.temp_name(*qd),
    {
        let mut name = String::from_str(HINT_FILE);
        match qd {
            QueueDimension::Head(head) => {
                name.append(".head.");
                name.append(to_decimal(*head).as_str());
            },
            QueueDimension::Tail(tail) => {
                name.append(".tail.");
                name.append(to_decimal(*tail).as_str());
            },
            QueueDimension::Closing => {
                name.append(".");
                name.append(to_decimal(self.last_head).as_str());
                name.append(".");
                name.append(to_decimal(self.last_tail).as_str());
            },
        }
        name.append(".tmp");
        name
    }

    /// Takes note of an announcement, `idle` nanoseconds after the last hint was written. A
    /// change of the queue is written out if the last hint has stood for long enough; the state
    /// in which a queue closes always is.
    pub fn write_hints(&mut self, qd: QueueDimension, idle: u128) -> (step: HintStep)
        ensures
            final(self)@ == old(self)@.announced(qd, idle),
            step.closing == (qd is Closing),
            step.write is Some <==> is_written(qd, idle),
            step.write matches Some(file) ==> is_hint(
                file,
                final(self)@,
                old(self)@.temp_name(qd),
            ),
    {
        let name = self.temp_name(&qd);
        let mut closing: bool = false;
        match qd {
            QueueDimension::Head(head) => {
                self.last_head = head;
                self.pending = true;
            },
            QueueDimension::Tail(tail) => {
                self.last_tail = tail;
                self.pending = true;
            },
            QueueDimension::Closing => {
                closing = true;
            },
        }
        let write = if closing || idle > HINT_INTERVAL {
            self.pending = false;
            Some(self.hint_file(name))
        } else {
            None
        };
        HintStep { write, closing }
    }

    /// The hint that is still to be written, if there is one. It is called for once no
    /// announcement has come for as long as a hint stands, so that none goes untold for good.
    pub fn flush(&mut self) -> (r: Option<HintFile>)
        ensures
            final(self)@ == old(self)@.written(),
            r is Some <==> old(self)@.pending,
            r matches Some(file) ==> is_hint(
                file,
                old(self)@,
                old(self)@.temp_name(QueueDimension::Closing),
            ),
    {
        if !self.pending {
            return None;
        }
        self.pending = false;
        let name = self.temp_name(&QueueDimension::Closing);
        Some(self.hint_file(name))
    }
}

/// The head and the tail among the numbers of a hint, if there are as many as two.
pub open spec fn hint_of(numbers: Seq<usize>) -> Option<(usize, usize)> {
    if numbers.len() >= 2 {
        Some((numbers[0], numbers[1]))
    } else {
        None
    }
}

/// The head and the tail among the numbers of a hint, if there are as many as two.
pub fn read_hint(numbers: &Vec<usize>) -> (r: Option<(usize, usize)>)
    ensures
        r == hint_of(numbers@),
{
    if numbers.len() >= 2 {
        Some((numbers[0], numbers[1]))
    } else {
        None
    }
}

/// Whether `e` carries the text that `cause` is shown as.
pub open spec fn shows(e: Error, cause: ciborium::de::Error<std::io::Error>) -> bool {
    vstd::string::to_string_from_display_ensures(&cause, e.message())
}

/// Whether `e` tells why no numbers can be read from `bytes`.
pub open spec fn is_read_failure(bytes: Vec<u8>, e: Error) -> bool {
    exists|cause: ciborium::de::Error<std::io::Error>|
        crate::cbor::fails_with(bytes, cause) && #[trigger] shows(e, cause)
}

/// The head and the tail that a queue starts with, given the numbers of its hint or why they could
/// not be read. The error carries the text of its cause.
pub fn hint_from_decoded(
    decoded: Result<Vec<usize>, ciborium::de::Error<std::io::Error>>,
) -> (r: Result<Option<(usize, usize)>, Error>)
    ensures
        match decoded {
            Ok(numbers) => r == Ok::<Option<(usize, usize)>, Error>(hint_of(numbers@)),
            Err(cause) => r matches Err(e) && shows(e, cause),
        },
{
    match decoded {
        Ok(numbers) => Ok(read_hint(&numbers)),
        Err(cause) => Err(Error::from(cause)),
    }
}

/// The head and the tail that a queue starts with, given what its hint file holds. Without a hint
/// file both are zero. A file that holds no run of numbers is an error, which carries the text of
/// its cause, and from a run of fewer than two numbers no head and tail can be told.
pub fn take_hint(file: Option<Vec<u8>>) -> (r: Result<Option<(usize, usize)>, Error>)
    ensures
        file is None ==> r == Ok::<Option<(usize, usize)>, Error>(Some((0, 0))),
        file matches Some(bytes) ==> match crate::cbor::decoded_numbers(
            bytes@,
            usize::MAX as nat,
        ) {
            Some(numbers) => r == Ok::<Option<(usize, usize)>, Error>(hint_of(numbers)),
            None => r is Err,
        },
        r matches Err(e) ==> file matches Some(bytes) && is_read_failure(bytes, e),
        file matches Some(bytes) ==> forall|state: HintsView|
            #![trigger state.bytes()]
            state.bytes().is_prefix_of(bytes@) ==> r == Ok::<Option<(usize, usize)>, Error>(
                Some((state.head, state.tail)),
            ),
{
    match file {
        None => Ok(Some((0, 0))),
        Some(bytes) => {
            let decoded = read_numbers(&bytes);
            let r = hint_from_decoded(decoded);
            assert(decoded matches Err(cause) ==> shows(r->Err_0, cause));
            r
        },
    }
}

/// What is known after several announcements, one after the other, before anything is written.
pub open spec fn noted_all(state: HintsView, qds: Seq<QueueDimension>) -> HintsView
    decreases qds.len(),
{
    if qds.len() == 0 {
        state
    } else {
        noted_all(state, qds.drop_last()).noted(qds.last())
    }
}

/// The hints go by the last announcement of the head, and by what they started with if there was
/// none.
pub proof fn law_the_last_head_counts(state: HintsView, qds: Seq<QueueDimension>, i: int)
    requires
        -1 <= i < qds.len(),
        i >= 0 ==> qds[i] is Head,
        forall|j: int| i < j < qds.len() ==> !(#[trigger] qds[j] is Head),
    ensures
        noted_all(state, qds).head == if i >= 0 {
            qds[i]->Head_0
        } else {
            state.head
        },
    decreases qds.len(),
{
    if i < qds.len() - 1 {
        assert(!(qds[qds.len() - 1] is Head));
        law_the_last_head_counts(state, qds.drop_last(), i);
    }
}

/// The hints go by the last announcement of the tail, and by what they started with if there was
/// none.
pub proof fn law_the_last_tail_counts(state: HintsView, qds: Seq<QueueDimension>, i: int)
    requires
        -1 <= i < qds.len(),
        i >= 0 ==> qds[i] is Tail,
        forall|j: int| i < j < qds.len() ==> !(#[trigger] qds[j] is Tail),
    ensures
        noted_all(state, qds).tail == if i >= 0 {
            qds[i]->Tail_0
        } else {
            state.tail
        },
    decreases qds.len(),
{
    if i < qds.len() - 1 {
        assert(!(qds[qds.len() - 1] is Tail));
        law_the_last_tail_counts(state, qds.drop_last(), i);
    }
}

/// The names of the hint file and of the file beside it are no numbers and hold no separator.
pub(crate) proof fn lemma_hint_names(state: HintsView, qd: QueueDimension)
    ensures
        crate::path::is_component(HINT_FILE@),
        crate::path::is_component(state.temp_name(qd)),
        HINT_FILE@[0] == 'h',
        state.temp_name(qd)[0] == 'h',
        state.temp_name(qd).len() > HINT_FILE@.len(),
{
    reveal_strlit("hint");
    reveal_strlit(".head.");
    reveal_strlit(".tail.");
    reveal_strlit(".");
    reveal_strlit(".tmp");
    crate::decimal::law_decimal_is_digits(state.head as nat);
    crate::decimal::law_decimal_is_digits(state.tail as nat);
    match qd {
        QueueDimension::Head(head) => crate::decimal::law_decimal_is_digits(head as nat),
        QueueDimension::Tail(tail) => crate::decimal::law_decimal_is_digits(tail as nat),
        QueueDimension::Closing => {},
    }
}

/// A hint is never written in place: the file that is written first is another one.
pub proof fn law_hints_are_not_written_in_place(state: HintsView, qd: QueueDimension)
    ensures
        crate::path::joined(state.root, state.temp_name(qd)) != crate::path::joined(
            state.root,
            HINT_FILE@,
        ),
{
    lemma_hint_names(state, qd);
    assert(crate::path::joined(state.root, state.temp_name(qd)).len() > crate::path::joined(
        state.root,
        HINT_FILE@,
    ).len());
}

} // verus!
