//! Runs of numbers as CBOR (RFC 8949), written and read by the `ciborium` crate.
use ciborium::de::Error as DecodeError;
use vstd::prelude::*;

verus! {

/// `n` as `len` bytes, the most significant one first.
pub open spec fn big_endian(n: nat, len: nat) -> Seq<u8>
    decreases len,
{
    if len == 0 {
        seq![]
    } else {
        big_endian(n / 256, (len - 1) as nat).push((n % 256) as u8)
    }
}

/// The head of a data item: its major type in the three high bits of the first byte and `n` in
/// the shortest form, in the five low bits or in the one, two, four or eight bytes that follow.
pub open spec fn cbor_head(major: nat, n: nat) -> Seq<u8> {
    if n <= 23 {
        seq![(major * 32 + n) as u8]
    } else if n <= 0xff {
        seq![(major * 32 + 24) as u8] + big_endian(n, 1)
    } else if n <= 0xffff {
        seq![(major * 32 + 25) as u8] + big_endian(n, 2)
    } else if n <= 0xffff_ffff {
        seq![(major * 32 + 26) as u8] + big_endian(n, 4)
    } else {
        seq![(major * 32 + 27) as u8] + big_endian(n, 8)
    }
}

/// The first `count` of `numbers`, each as an unsigned integer.
pub open spec fn cbor_items(numbers: Seq<usize>, count: nat) -> Seq<u8>
    decreases count,
{
    if count == 0 {
        seq![]
    } else {
        cbor_items(numbers, (count - 1) as nat) + cbor_head(0, numbers[count - 1] as nat)
    }
}

/// `numbers` as an array of unsigned integers.
pub open spec fn cbor_numbers(numbers: Seq<usize>) -> Seq<u8> {
    cbor_head(4, numbers.len()) + cbor_items(numbers, numbers.len())
}

/// The numbers that `ciborium` reads from the start of `bytes`, if it reads any. No number may be
/// larger than `largest`, which is the largest `usize` of the machine.
pub uninterp spec fn decoded_numbers(bytes: Seq<u8>, largest: nat) -> Option<Seq<usize>>;

/// Declares `std::io::Error`. Nothing is said of what is inside.
#[verifier::external_type_specification]
#[verifier::external_body]
pub struct ExIoError(std::io::Error);

/// Declares `ciborium::de::Error`. Nothing is said of what is inside.
#[verifier::external_type_specification]
#[verifier::external_body]
#[verifier::reject_recursive_types(T)]
pub struct ExDecodeError<T>(DecodeError<T>);

/// Calls `ciborium::into_writer` on `numbers` and a growing buffer. Trusted: a run of numbers is
/// written as an array of known length that holds unsigned integers, each head in its shortest
/// form. Neither a number nor the buffer can make the call fail.
#[verifier::external_body]
pub(crate) fn encode(numbers: &Vec<usize>) -> (bytes: Vec<u8>)
    ensures
        bytes@ == cbor_numbers(numbers@),
{
    let mut bytes: Vec<u8> = Vec::new();
    ciborium::into_writer(numbers, &mut bytes).expect("a buffer takes what is written to it");
    bytes
}

/// Calls `ciborium::from_reader` on `bytes`, for a run of numbers. Trusted: what it reads, or that
/// it fails, follows from the bytes and from how large a `usize` can be; and where the bytes begin
/// with what `encode` gives for some numbers, it reads those numbers, whatever comes behind.
#[verifier::external_body]
pub(crate) fn decode(bytes: &Vec<u8>) -> (r: Result<Vec<usize>, DecodeError<std::io::Error>>)
    ensures
        match r {
            Ok(numbers) => decoded_numbers(bytes@, usize::MAX as nat) == Some(numbers@),
            Err(_) => decoded_numbers(bytes@, usize::MAX as nat) is None,
        },
        forall|numbers: Seq<usize>|
            #![trigger cbor_numbers(numbers)]
            cbor_numbers(numbers).is_prefix_of(bytes@) ==> r is Ok && r->Ok_0@ == numbers,
{
    ciborium::from_reader(bytes.as_slice())
}

/// Whether `ciborium` may fail on `bytes` with this cause.
pub closed spec fn fails_with(bytes: Vec<u8>, cause: DecodeError<std::io::Error>) -> bool {
    call_ensures(decode, (&bytes,), Err(cause))
}

/// Calls `f` on `bytes`, and tells that the result is one that `f` gives for them.
fn apply<R>(f: impl Fn(&Vec<u8>) -> R, bytes: &Vec<u8>) -> (r: R)
    requires
        call_requires(f, (bytes,)),
    ensures
        call_ensures(f, (bytes,), r),
{
    f(bytes)
}

/// The numbers that stand at the start of `bytes`, or why none can be read there.
pub fn read_numbers(bytes: &Vec<u8>) -> (r: Result<Vec<usize>, DecodeError<std::io::Error>>)
    ensures
        match r {
            Ok(numbers) => decoded_numbers(bytes@, usize::MAX as nat) == Some(numbers@),
            Err(cause) => {
                &&& decoded_numbers(bytes@, usize::MAX as nat) is None
                &&& fails_with(*bytes, cause)
            },
        },
        forall|numbers: Seq<usize>|
            #![trigger cbor_numbers(numbers)]
            cbor_numbers(numbers).is_prefix_of(bytes@) ==> r is Ok && r->Ok_0@ == numbers,
{
    apply(decode, bytes)
}

/// Whether `n` fits in `len` bytes.
spec fn fits(n: nat, len: nat) -> bool
    decreases len,
{
    if len == 0 {
        n == 0
    } else {
        fits(n / 256, (len - 1) as nat)
    }
}

/// Numbers that fit are told apart by their bytes.
proof fn lemma_big_endian_tells_apart(m: nat, n: nat, len: nat)
    requires
        fits(m, len),
        fits(n, len),
        big_endian(m, len) == big_endian(n, len),
    ensures
        m == n,
    decreases len,
{
    if len > 0 {
        let of_m = big_endian(m, len);
        let of_n = big_endian(n, len);
        assert(of_m.drop_last() =~= big_endian(m / 256, (len - 1) as nat));
        assert(of_n.drop_last() =~= big_endian(n / 256, (len - 1) as nat));
        assert(of_m.last() == of_n.last());
        lemma_big_endian_tells_apart(m / 256, n / 256, (len - 1) as nat);
    }
}

/// A number takes as many bytes as it is given.
proof fn lemma_big_endian_len(n: nat, len: nat)
    ensures
        big_endian(n, len).len() == len,
    decreases len,
{
    if len > 0 {
        lemma_big_endian_len(n / 256, (len - 1) as nat);
    }
}

/// How many bytes follow the first byte of a head.
spec fn tail_len(n: nat) -> nat {
    if n <= 23 {
        0
    } else if n <= 0xff {
        1
    } else if n <= 0xffff {
        2
    } else if n <= 0xffff_ffff {
        4
    } else {
        8
    }
}

/// The first byte of a head tells how long the head is, and what follows it tells the number.
proof fn lemma_head_shape(major: nat, n: nat)
    requires
        major <= 7,
        n <= u64::MAX,
    ensures
        cbor_head(major, n).len() == 1 + tail_len(n),
        cbor_head(major, n)[0] == major * 32 + (if n <= 23 {
            n
        } else if n <= 0xff {
            24
        } else if n <= 0xffff {
            25
        } else if n <= 0xffff_ffff {
            26
        } else {
            27
        }),
        n > 23 ==> cbor_head(major, n).skip(1) == big_endian(n, tail_len(n)),
        n > 23 ==> fits(n, tail_len(n)),
{
    lemma_big_endian_len(n, tail_len(n));
    if n > 23 {
        assert(cbor_head(major, n).skip(1) =~= big_endian(n, tail_len(n)));
        reveal_with_fuel(fits, 9);
    }
}

/// Where one head begins, no other head of the same major type does.
proof fn lemma_heads_are_told_apart(major: nat, m: nat, n: nat, bytes: Seq<u8>)
    requires
        major <= 7,
        m <= u64::MAX,
        n <= u64::MAX,
        cbor_head(major, m).is_prefix_of(bytes),
        cbor_head(major, n).is_prefix_of(bytes),
    ensures
        m == n,
{
    lemma_head_shape(major, m);
    lemma_head_shape(major, n);
    let of_m = cbor_head(major, m);
    let of_n = cbor_head(major, n);
    assert(of_m[0] == bytes[0]);
    assert(of_n[0] == bytes[0]);
    if m > 23 {
        assert(of_m =~= of_n);
        lemma_big_endian_tells_apart(m, n, tail_len(m));
    }
}

/// What begins with a sum begins with its first part, and goes on with its second.
proof fn lemma_prefix_splits(first: Seq<u8>, second: Seq<u8>, bytes: Seq<u8>)
    requires
        (first + second).is_prefix_of(bytes),
    ensures
        first.is_prefix_of(bytes),
        second.is_prefix_of(bytes.skip(first.len() as int)),
{
    let rest = bytes.skip(first.len() as int);
    assert forall|i: int| 0 <= i < first.len() + second.len() implies (first + second)[i]
        == bytes[i] by {
        assert(bytes.subrange(0, (first + second).len() as int)[i] == bytes[i]);
    }
    assert(first =~= bytes.subrange(0, first.len() as int)) by {
        assert(forall|i: int| 0 <= i < first.len() ==> first[i] == (first + second)[i]);
    }
    assert(second =~= rest.subrange(0, second.len() as int)) by {
        assert(forall|i: int|
            0 <= i < second.len() ==> second[i] == (first + second)[first.len() + i]);
    }
}

/// Where the items of one run begin, those of no other run of the same length do.
proof fn lemma_items_are_told_apart(a: Seq<usize>, b: Seq<usize>, count: nat, bytes: Seq<u8>)
    requires
        count <= a.len(),
        count <= b.len(),
        cbor_items(a, count).is_prefix_of(bytes),
        cbor_items(b, count).is_prefix_of(bytes),
    ensures
        forall|i: int| 0 <= i < count ==> a[i] == b[i],
        cbor_items(a, count) == cbor_items(b, count),
    decreases count,
{
    if count > 0 {
        let k = (count - 1) as nat;
        let of_a = a[k as int] as nat;
        let of_b = b[k as int] as nat;
        lemma_prefix_splits(cbor_items(a, k), cbor_head(0, of_a), bytes);
        lemma_prefix_splits(cbor_items(b, k), cbor_head(0, of_b), bytes);
        lemma_items_are_told_apart(a, b, k, bytes);
        let rest = bytes.skip(cbor_items(a, k).len() as int);
        lemma_heads_are_told_apart(0, of_a, of_b, rest);
    }
}

/// The beginning of a file tells at most one run of numbers.
pub proof fn law_cbor_numbers_are_told_apart(a: Seq<usize>, b: Seq<usize>, bytes: Seq<u8>)
    requires
        a.len() <= u64::MAX,
        b.len() <= u64::MAX,
        cbor_numbers(a).is_prefix_of(bytes),
        cbor_numbers(b).is_prefix_of(bytes),
    ensures
        a == b,
{
    lemma_prefix_splits(cbor_head(4, a.len()), cbor_items(a, a.len()), bytes);
    lemma_prefix_splits(cbor_head(4, b.len()), cbor_items(b, b.len()), bytes);
    lemma_heads_are_told_apart(4, a.len(), b.len(), bytes);
    let rest = bytes.skip(cbor_head(4, a.len()).len() as int);
    lemma_items_are_told_apart(a, b, a.len(), rest);
    assert(a =~= b);
}

/// The number that a run of bytes stands for, each place worth 256 times the one behind it.
pub open spec fn byte_value(bytes: Seq<u8>) -> int
    decreases bytes.len(),
{
    if bytes.len() == 0 {
        0
    } else {
        256 * byte_value(bytes.drop_last()) + bytes.last()
    }
}

/// A number that fits is what its bytes stand for.
proof fn lemma_big_endian_stands_for_its_number(n: nat, len: nat)
    requires
        fits(n, len),
    ensures
        byte_value(big_endian(n, len)) == n,
    decreases len,
{
    if len > 0 {
        lemma_big_endian_stands_for_its_number(n / 256, (len - 1) as nat);
        assert(big_endian(n, len).drop_last() =~= big_endian(n / 256, (len - 1) as nat));
    }
}

/// A head has its major type in the three high bits of its first byte. A number up to 23 stands in
/// the five low bits; any other is what the bytes that follow stand for, of which there are one,
/// two, four or eight, and no more than it takes, as the low bits tell.
pub proof fn law_cbor_head_tells_its_number(major: nat, n: nat)
    requires
        major <= 7,
        n <= u64::MAX,
    ensures
        ({
            let head = cbor_head(major, n);
            let low = head[0] - 32 * major;
            &&& 0 <= low <= 27
            &&& n <= 23 ==> head.len() == 1 && low == n
            &&& n > 23 ==> byte_value(head.skip(1)) == n
            &&& 23 < n <= 0xff ==> low == 24 && head.len() == 2
            &&& 0xff < n <= 0xffff ==> low == 25 && head.len() == 3
            &&& 0xffff < n <= 0xffff_ffff ==> low == 26 && head.len() == 5
            &&& 0xffff_ffff < n ==> low == 27 && head.len() == 9
        }),
{
    lemma_head_shape(major, n);
    if n > 23 {
        lemma_big_endian_stands_for_its_number(n, tail_len(n));
    }
}

/// Two numbers are written as an array of two, the first number before the second.
pub proof fn law_cbor_of_two_numbers(first: usize, second: usize)
    ensures
        cbor_numbers(seq![first, second]) == seq![0x82u8] + cbor_head(0, first as nat) + cbor_head(
            0,
            second as nat,
        ),
{
    let numbers = seq![first, second];
    reveal_with_fuel(cbor_items, 3);
    assert(cbor_head(4, 2) =~= seq![0x82u8]);
    assert(cbor_numbers(numbers) =~= seq![0x82u8] + cbor_head(0, first as nat) + cbor_head(
        0,
        second as nat,
    ));
}

} // verus!
