//! Where the files of a queue lie.
//!
//! A path is text whose components are parted by `/`. The object numbered `count` lies beneath
//! the root of its queue, in directories that are named by successive pairs of the digits of
//! `count`, so that a large queue does not pile up in one directory.
use vstd::prelude::*;
use vstd::string::{StrSliceExecFns, StringExecFns};

use crate::decimal::to_decimal;

verus! {

/// How many levels of directories lie between the root of a queue and its files, unless told
/// otherwise.
pub const DIRECTORY_HASH_LEVELS: usize = 1;

/// `part` adjoined to `base`, with one separator between the two.
pub open spec fn joined(base: Seq<char>, part: Seq<char>) -> Seq<char> {
    if base.len() == 0 || base.last() == '/' {
        base + part
    } else {
        base.push('/') + part
    }
}

/// The name of the directory at depth `level` for a number with these digits: the pair of digits
/// that stands there. A lone last digit gets a leading zero, and past the last digit the name is
/// `00`.
pub open spec fn hash_dir(digits: Seq<char>, level: nat) -> Seq<char> {
    if 2 * level + 2 <= digits.len() {
        digits.subrange(2 * level as int, 2 * level as int + 2)
    } else if 2 * level < digits.len() {
        seq!['0', digits[2 * level as int]]
    } else {
        seq!['0', '0']
    }
}

/// `base` with the first `levels` directories for a number with these digits adjoined.
pub open spec fn hash_dirs(base: Seq<char>, digits: Seq<char>, levels: nat) -> Seq<char>
    decreases levels,
{
    if levels == 0 {
        base
    } else {
        joined(
            hash_dirs(base, digits, (levels - 1) as nat),
            hash_dir(digits, (levels - 1) as nat),
        )
    }
}

/// The path of the file that belongs to `count`, `levels` directories beneath `base`.
pub open spec fn hash_path(base: Seq<char>, count: usize, levels: usize) -> Seq<char> {
    joined(
        hash_dirs(base, crate::decimal::decimal(count as nat), levels as nat),
        crate::decimal::decimal(count as nat),
    )
}

/// Adjoins the relative path `part` to `path`, with one separator between the two.
pub fn join(path: &str, part: &str) -> (r: String)
    ensures
        r@ == joined(path@, part@),
{
    let mut r = String::from_str(path);
    let len = path.unicode_len();
    if len > 0 && path.get_char(len - 1) != '/' {
        proof {
            reveal_strlit("/");
        }
        r.append("/");
        assert(r@ =~= path@.push('/'));
    }
    r.append(part);
    r
}

/// The name of the directory at depth `x / 2` for a number with these digits.
fn dir_name(digits: &str, x: usize) -> (name: String)
    requires
        digits.is_ascii(),
        x % 2 == 0,
        x < digits@.len(),
    ensures
        name@ == hash_dir(digits@, (x / 2) as nat),
{
    let len = digits.unicode_len();
    if len - x < 2 {
        proof {
            reveal_strlit("0");
        }
        let mut name = String::from_str("0");
        name.append(digits.substring_ascii(x, len));
        assert(name@ =~= hash_dir(digits@, (x / 2) as nat));
        name
    } else {
        String::from_str(digits.substring_ascii(x, x + 2))
    }
}

/// The path of the file that belongs to `count`, beneath `path` and as many directories as
/// `levels` says.
pub fn hash_filename(path: &str, count: usize, levels: usize) -> (r: String)
    ensures
        r@ == hash_path(path@, count, levels),
{
    let mut r = String::from_str(path);
    let s = to_decimal(count);
    let s_len = s.as_str().unicode_len();
    let mut x: usize = 0;
    let mut added: usize = 0;

    proof {
        crate::decimal::law_decimal_is_digits(count as nat);
        crate::decimal::lemma_decimal_is_short(count);
    }

    while x < s_len && added < levels
        invariant
            added <= levels,
            x == 2 * added,
            s_len <= 20,
            s_len == s@.len(),
            s@ == crate::decimal::decimal(count as nat),
            forall|i: int|
                0 <= i < s@.len() ==> crate::decimal::is_digit(#[trigger] s@[i]),
            r@ == hash_dirs(path@, s@, added as nat),
        decreases levels - added,
    {
        let name = dir_name(s.as_str(), x);
        r = join(r.as_str(), name.as_str());
        x += 2;
        added += 1;
    }

    while added < levels
        invariant
            added <= levels,
            added < levels ==> s@.len() <= 2 * added,
            s@ == crate::decimal::decimal(count as nat),
            r@ == hash_dirs(path@, s@, added as nat),
        decreases levels - added,
    {
        proof {
            reveal_strlit("00");
            assert("00"@ =~= seq!['0', '0']);
        }
        r = join(r.as_str(), "00");
        added += 1;
    }

    join(r.as_str(), s.as_str())
}

/// Whether `name` can stand as one component of a path.
pub open spec fn is_component(name: Seq<char>) -> bool {
    &&& name.len() > 0
    &&& forall|i: int| 0 <= i < name.len() ==> #[trigger] name[i] != '/'
}

/// What was adjoined last can be told from the path.
proof fn lemma_joined_ends_in_its_part(
    base1: Seq<char>,
    part1: Seq<char>,
    base2: Seq<char>,
    part2: Seq<char>,
)
    requires
        is_component(part1),
        is_component(part2),
        joined(base1, part1) == joined(base2, part2),
    ensures
        part1 == part2,
{
    let p = joined(base1, part1);
    let cut1 = p.len() - part1.len();
    let cut2 = p.len() - part2.len();
    assert(cut1 > 0 ==> p[cut1 - 1] == '/');
    assert(cut2 > 0 ==> p[cut2 - 1] == '/');
    if cut1 < cut2 {
        assert(p[cut2 - 1] == part1[cut2 - 1 - cut1]);
    }
    if cut2 < cut1 {
        assert(p[cut1 - 1] == part2[cut1 - 1 - cut2]);
    }
    assert(part1 =~= p.subrange(cut1, p.len() as int));
    assert(part2 =~= p.subrange(cut2, p.len() as int));
}

/// No two numbers share a file: beneath one root and at one depth, different numbers have
/// different paths.
pub proof fn law_hash_path_tells_counts_apart(base: Seq<char>, a: usize, b: usize, levels: usize)
    requires
        a != b,
    ensures
        hash_path(base, a, levels) != hash_path(base, b, levels),
{
    crate::decimal::law_decimal_is_digits(a as nat);
    crate::decimal::law_decimal_is_digits(b as nat);
    if hash_path(base, a, levels) == hash_path(base, b, levels) {
        lemma_joined_ends_in_its_part(
            hash_dirs(base, crate::decimal::decimal(a as nat), levels as nat),
            crate::decimal::decimal(a as nat),
            hash_dirs(base, crate::decimal::decimal(b as nat), levels as nat),
            crate::decimal::decimal(b as nat),
        );
        crate::decimal::law_decimal_tells_numbers_apart(a as nat, b as nat);
    }
}

/// The file of a number is never a file whose name is no number, wherever that one lies.
pub proof fn law_hash_path_ends_in_a_number(
    base: Seq<char>,
    count: usize,
    levels: usize,
    other: Seq<char>,
    name: Seq<char>,
    i: int,
)
    requires
        is_component(name),
        0 <= i < name.len(),
        !crate::decimal::is_digit(name[i]),
    ensures
        hash_path(base, count, levels) != joined(other, name),
{
    let digits = crate::decimal::decimal(count as nat);
    crate::decimal::law_decimal_is_digits(count as nat);
    if hash_path(base, count, levels) == joined(other, name) {
        lemma_joined_ends_in_its_part(
            hash_dirs(base, digits, levels as nat),
            digits,
            other,
            name,
        );
        assert(crate::decimal::is_digit(digits[i]));
    }
}

/// Every file lies beneath the root of its queue.
pub proof fn law_hash_path_lies_beneath_the_root(base: Seq<char>, count: usize, levels: usize)
    ensures
        base.is_prefix_of(hash_path(base, count, levels)),
{
    lemma_hash_dirs_lie_beneath_the_root(
        base,
        crate::decimal::decimal(count as nat),
        levels as nat,
    );
    let dirs = hash_dirs(base, crate::decimal::decimal(count as nat), levels as nat);
    let path = hash_path(base, count, levels);
    assert(base =~= path.subrange(0, base.len() as int)) by {
        assert(base == dirs.subrange(0, base.len() as int));
        assert(forall|k: int| 0 <= k < dirs.len() ==> path[k] == dirs[k]);
        assert forall|k: int| 0 <= k < base.len() implies base[k] == path[k] by {
            assert(base[k] == dirs.subrange(0, base.len() as int)[k]);
        }
    }
}

/// Every directory lies beneath the root of its queue.
proof fn lemma_hash_dirs_lie_beneath_the_root(base: Seq<char>, digits: Seq<char>, levels: nat)
    ensures
        base.is_prefix_of(hash_dirs(base, digits, levels)),
    decreases levels,
{
    if levels > 0 {
        let dirs = hash_dirs(base, digits, (levels - 1) as nat);
        let all = hash_dirs(base, digits, levels);
        lemma_hash_dirs_lie_beneath_the_root(base, digits, (levels - 1) as nat);
        assert(base =~= all.subrange(0, base.len() as int)) by {
            assert forall|k: int| 0 <= k < base.len() implies base[k] == all[k] by {
                assert(base[k] == dirs.subrange(0, base.len() as int)[k]);
            }
        }
    } else {
        assert(base =~= base.subrange(0, base.len() as int));
    }
}

/// The name of every directory is two digits.
pub proof fn law_hash_dir_is_two_digits(count: usize, level: nat)
    ensures
        ({
            let name = hash_dir(crate::decimal::decimal(count as nat), level);
            &&& name.len() == 2
            &&& crate::decimal::is_digit(name[0])
            &&& crate::decimal::is_digit(name[1])
        }),
{
    crate::decimal::law_decimal_is_digits(count as nat);
    let digits = crate::decimal::decimal(count as nat);
    if 2 * level < digits.len() {
        assert(crate::decimal::is_digit(digits[2 * level as int]));
    }
    if 2 * level + 1 < digits.len() {
        assert(crate::decimal::is_digit(digits[2 * level as int + 1]));
    }
}

/// How long the path of a directory is depends on its depth alone.
proof fn lemma_hash_dirs_len(base: Seq<char>, a: usize, b: usize, level: nat)
    ensures
        ({
            let of_a = hash_dirs(base, crate::decimal::decimal(a as nat), level);
            let of_b = hash_dirs(base, crate::decimal::decimal(b as nat), level);
            &&& of_a.len() == of_b.len()
            &&& level > 0 ==> of_a.last() != '/' && of_b.last() != '/'
        }),
    decreases level,
{
    if level > 0 {
        lemma_hash_dirs_len(base, a, b, (level - 1) as nat);
        law_hash_dir_is_two_digits(a, (level - 1) as nat);
        law_hash_dir_is_two_digits(b, (level - 1) as nat);
    }
}

/// The path of a directory is no shorter than those of the directories above it.
proof fn lemma_hash_dirs_len_grows(base: Seq<char>, digits: Seq<char>, shallow: nat, deep: nat)
    requires
        shallow <= deep,
    ensures
        hash_dirs(base, digits, shallow).len() <= hash_dirs(base, digits, deep).len(),
    decreases deep,
{
    if shallow < deep {
        lemma_hash_dirs_len_grows(base, digits, shallow, (deep - 1) as nat);
    }
}

/// The file of one number never stands where a directory for another one has to be.
pub proof fn law_hash_path_is_no_directory(
    base: Seq<char>,
    a: usize,
    b: usize,
    levels: usize,
    level: nat,
)
    requires
        level <= levels,
    ensures
        hash_path(base, a, levels) != hash_dirs(base, crate::decimal::decimal(b as nat), level),
{
    crate::decimal::law_decimal_is_digits(a as nat);
    lemma_hash_dirs_len(base, a, b, level);
    lemma_hash_dirs_len_grows(
        base,
        crate::decimal::decimal(a as nat),
        level,
        levels as nat,
    );
}

/// Where the first directory or file beneath `base` starts in a path.
pub open spec fn beneath(base: Seq<char>) -> int {
    if base.len() == 0 || base.last() == '/' {
        base.len() as int
    } else {
        base.len() as int + 1
    }
}

/// Whether `path` spells out, beneath `base`, `levels` directories of two characters each, then the
/// digits of the file. The two characters at each level are the two digits at that place; a lone
/// last digit has a zero before it, and past the last digit there are two zeros.
pub open spec fn spells(path: Seq<char>, base: Seq<char>, digits: Seq<char>, levels: int) -> bool {
    let start = beneath(base);
    &&& path.len() == start + 3 * levels + digits.len()
    &&& forall|i: int| 0 <= i < base.len() ==> #[trigger] path[i] == base[i]
    &&& start > base.len() ==> path[base.len() as int] == '/'
    &&& forall|level: int| 0 <= level < levels ==> #[trigger] spells_dir(
        path,
        start + 3 * level,
        digits,
        level,
    )
    &&& forall|i: int|
        0 <= i < digits.len() ==> #[trigger] path[start + 3 * levels + i] == digits[i]
}

/// Whether the directory at depth `level` for a number with these digits stands at `at` in `path`,
/// and a separator behind it.
pub open spec fn spells_dir(path: Seq<char>, at: int, digits: Seq<char>, level: int) -> bool {
    &&& path[at + 2] == '/'
    &&& if 2 * level + 1 < digits.len() {
        path[at] == digits[2 * level] && path[at + 1] == digits[2 * level + 1]
    } else if 2 * level < digits.len() {
        path[at] == '0' && path[at + 1] == digits[2 * level]
    } else {
        path[at] == '0' && path[at + 1] == '0'
    }
}

/// The directories as they stand before a file is adjoined to them.
proof fn lemma_hash_dirs_spelled_out(base: Seq<char>, count: usize, levels: nat)
    ensures
        ({
            let digits = crate::decimal::decimal(count as nat);
            let dirs = hash_dirs(base, digits, levels);
            let path = dirs.push('/');
            let start = beneath(base);
            &&& levels > 0 ==> dirs.len() == start + 3 * levels - 1 && dirs.last() != '/'
            &&& levels == 0 ==> dirs == base
            &&& forall|i: int| 0 <= i < base.len() ==> #[trigger] path[i] == base[i]
            &&& levels > 0 && start > base.len() ==> path[base.len() as int] == '/'
            &&& forall|level: int| 0 <= level < levels ==> #[trigger] spells_dir(
                path,
                start + 3 * level,
                digits,
                level,
            )
        }),
    decreases levels,
{
    if levels > 0 {
        let digits = crate::decimal::decimal(count as nat);
        let before = (levels - 1) as nat;
        let start = beneath(base);
        let shorter = hash_dirs(base, digits, before).push('/');
        let path = hash_dirs(base, digits, levels).push('/');
        lemma_hash_dirs_spelled_out(base, count, before);
        law_hash_dir_is_two_digits(count, before);
        let name = hash_dir(digits, before);
        let at = start + 3 * before;
        assert(path.len() == at + 3);
        assert(forall|i: int| 0 <= i < at && i < shorter.len() ==> path[i] == shorter[i]);
        assert(path[at] == name[0]);
        assert(path[at + 1] == name[1]);
        assert(path[at + 2] == '/');
        assert forall|i: int| 0 <= i < base.len() implies #[trigger] path[i] == base[i] by {
            assert(shorter[i] == base[i]);
        }
        assert forall|level: int| 0 <= level < levels implies #[trigger] spells_dir(
            path,
            start + 3 * level,
            digits,
            level,
        ) by {
            if level < before {
                assert(spells_dir(shorter, start + 3 * level, digits, level));
                assert(start + 3 * level + 2 < at);
            }
        }
    }
}

/// The path of a file spells out the root, a directory for each pair of the leading digits of the
/// number, and the number.
pub proof fn law_hash_path_is_spelled_out(base: Seq<char>, count: usize, levels: usize)
    ensures
        spells(
            hash_path(base, count, levels),
            base,
            crate::decimal::decimal(count as nat),
            levels as int,
        ),
{
    let digits = crate::decimal::decimal(count as nat);
    let dirs = hash_dirs(base, digits, levels as nat);
    let path = hash_path(base, count, levels);
    let start = beneath(base);
    lemma_hash_dirs_spelled_out(base, count, levels as nat);
    let front = dirs.push('/');
    let cut = start + 3 * levels;
    assert(path.len() == cut + digits.len());
    assert(forall|i: int| 0 <= i < cut && i < front.len() ==> path[i] == front[i]);
    assert forall|i: int| 0 <= i < base.len() implies #[trigger] path[i] == base[i] by {
        assert(front[i] == base[i]);
    }
    assert forall|level: int| 0 <= level < levels implies #[trigger] spells_dir(
        path,
        start + 3 * level,
        digits,
        level,
    ) by {
        assert(spells_dir(front, start + 3 * level, digits, level));
        assert(start + 3 * level + 2 < cut);
    }
}

/// Only one path spells a number out.
pub proof fn law_spelling_is_unique(
    a: Seq<char>,
    b: Seq<char>,
    base: Seq<char>,
    digits: Seq<char>,
    levels: nat,
)
    requires
        spells(a, base, digits, levels as int),
        spells(b, base, digits, levels as int),
    ensures
        a == b,
{
    let start = beneath(base);
    assert forall|i: int| 0 <= i < a.len() implies a[i] == b[i] by {
        if i < base.len() {
            assert(a[i] == base[i]);
            assert(b[i] == base[i]);
        } else if start <= i < start + 3 * levels {
            let level = (i - start) / 3;
            assert(spells_dir(a, start + 3 * level, digits, level));
            assert(spells_dir(b, start + 3 * level, digits, level));
            assert(i == start + 3 * level || i == start + 3 * level + 1 || i == start + 3 * level
                + 2);
        } else if i >= start + 3 * levels {
            let k = i - start - 3 * levels;
            assert(a[start + 3 * levels + k] == digits[k]);
            assert(b[start + 3 * levels + k] == digits[k]);
        }
    }
    assert(a =~= b);
}

/// Numbers whose digits differ in one of the leading pairs lie in different directories.
pub proof fn law_different_pairs_lie_apart(base: Seq<char>, a: usize, b: usize, level: nat, i: int)
    requires
        ({
            let of_a = crate::decimal::decimal(a as nat);
            let of_b = crate::decimal::decimal(b as nat);
            &&& 2 * level <= i < 2 * level + 2
            &&& 2 * level + 2 <= of_a.len()
            &&& 2 * level + 2 <= of_b.len()
            &&& of_a[i] != of_b[i]
        }),
    ensures
        hash_dirs(base, crate::decimal::decimal(a as nat), level + 1) != hash_dirs(
            base,
            crate::decimal::decimal(b as nat),
            level + 1,
        ),
{
    let of_a = crate::decimal::decimal(a as nat);
    let of_b = crate::decimal::decimal(b as nat);
    let at = beneath(base) + 3 * level as int;
    lemma_hash_dirs_spelled_out(base, a, level + 1);
    lemma_hash_dirs_spelled_out(base, b, level + 1);
    assert(spells_dir(hash_dirs(base, of_a, level + 1).push('/'), at, of_a, level as int));
    assert(spells_dir(hash_dirs(base, of_b, level + 1).push('/'), at, of_b, level as int));
}

} // verus!
