//! The file names of a model that is split over several files.
//!
//! A split file is named `<prefix>-<NNNNN>-of-<NNNNN>.gguf`: the number of the
//! file, counted from one, and the number of files, both of the same width.
use vstd::prelude::*;

use crate::text::{
    after_plus, all_digits, concat, concat3, digits_value, from_chars, is_digit, occurs_at, padded,
    padded_string, padded_value, parse_usize, to_chars,
};

verus! {

/// `name` is a split file's name with the prefix `prefix`, whose two numbers
/// are written `a` and `c`.
pub open spec fn is_shard_name(
    name: Seq<char>,
    prefix: Seq<char>,
    a: Seq<char>,
    c: Seq<char>,
) -> bool {
    &&& name == prefix + "-"@ + a + "-of-"@ + c + ".gguf"@
    &&& a.len() > 0
    &&& a.len() == c.len()
    &&& all_digits(a)
    &&& all_digits(c)
    &&& 1 <= digits_value(a) <= digits_value(c) <= usize::MAX
}

/// The name of file `i` out of `total`, both numbers `width` characters wide.
pub open spec fn shard_name(prefix: Seq<char>, i: nat, total: nat, width: nat) -> Seq<char> {
    prefix + "-"@ + padded(i, width) + "-of-"@ + padded(total, width) + ".gguf"@
}

/// Where the parts of a split file's name stand.
spec fn parts_placed(name: Seq<char>, prefix: Seq<char>, a: Seq<char>, c: Seq<char>) -> bool {
    let p: int = prefix.len() as int;
    let m: int = p + 1 + a.len();
    let e: int = name.len() - 5;
    &&& name.len() == p + a.len() + c.len() + 10
    &&& name.take(p) == prefix
    &&& name[p] == '-'
    &&& name.subrange(p + 1, m) == a
    &&& occurs_at(name, "-of-"@, m)
    &&& name[m + 3] == '-'
    &&& name.subrange(e - c.len(), e) == c
    &&& occurs_at(name, ".gguf"@, e)
}

proof fn shard_parts(name: Seq<char>, prefix: Seq<char>, a: Seq<char>, c: Seq<char>)
    requires
        is_shard_name(name, prefix, a, c),
    ensures
        parts_placed(name, prefix, a, c),
{
    reveal_strlit("-");
    reveal_strlit("-of-");
    reveal_strlit(".gguf");
    let p: int = prefix.len() as int;
    let m: int = p + 1 + a.len();
    let e: int = name.len() - 5;
    assert(name.take(p) =~= prefix);
    assert(name.subrange(p + 1, m) =~= a);
    assert(name.subrange(m, m + 4) =~= "-of-"@);
    assert(name.subrange(m, m + 4)[3] == name[m + 3]);
    assert(name.subrange(e - c.len(), e) =~= c);
    assert(name.subrange(e, name.len() as int) =~= ".gguf"@);
}

/// A split file's name can be read in one way only.
pub proof fn shard_name_unique(
    name: Seq<char>,
    p1: Seq<char>,
    a1: Seq<char>,
    c1: Seq<char>,
    p2: Seq<char>,
    a2: Seq<char>,
    c2: Seq<char>,
)
    requires
        is_shard_name(name, p1, a1, c1),
        is_shard_name(name, p2, a2, c2),
    ensures
        p1 == p2,
        a1 == a2,
        c1 == c2,
{
    shard_parts(name, p1, a1, c1);
    shard_parts(name, p2, a2, c2);
    let e = name.len() - 5;
    if c1.len() < c2.len() {
        assert(c2[c2.len() - c1.len() - 1] == name[e - c1.len() - 1]);
        assert(is_digit(c2[c2.len() - c1.len() - 1]));
    }
    if c2.len() < c1.len() {
        assert(c1[c1.len() - c2.len() - 1] == name[e - c2.len() - 1]);
        assert(is_digit(c1[c1.len() - c2.len() - 1]));
    }
    assert(c1.len() == c2.len());
}

/// The name of a split file is the name that its own prefix, numbers and
/// width give.
pub proof fn shard_name_rebuilt(name: Seq<char>, prefix: Seq<char>, a: Seq<char>, c: Seq<char>)
    requires
        is_shard_name(name, prefix, a, c),
    ensures
        shard_name(prefix, digits_value(a), digits_value(c), a.len()) == name,
{
    padded_value(a);
    padded_value(c);
}

/// The start of the run of digits that ends at `end`.
fn digit_run(s: &Vec<char>, end: usize) -> (start: usize)
    requires
        end <= s.len(),
    ensures
        start <= end,
        all_digits(s@.subrange(start as int, end as int)),
        start > 0 ==> !is_digit(s@[start - 1]),
{
    let mut i: usize = end;
    while i > 0 && '0' <= s[i - 1] && s[i - 1] <= '9'
        invariant
            i <= end <= s.len(),
            forall|k: int| i <= k < end ==> is_digit(#[trigger] s@[k]),
        decreases i,
    {
        i -= 1;
    }
    i
}

/// A split file's name, read.
pub struct ShardFile {
    pub prefix: String,
    /// The file's number, counted from zero.
    pub index: usize,
    /// The number of files.
    pub total: usize,
    /// How wide the two numbers are written.
    pub width: usize,
}

/// What a split file's name says.
pub struct ShardFields {
    pub prefix: Seq<char>,
    pub index: nat,
    pub total: nat,
    pub width: nat,
}

/// `name` is the name of a split file.
pub open spec fn is_split_name(name: Seq<char>) -> bool {
    exists|p: Seq<char>, a: Seq<char>, c: Seq<char>| is_shard_name(name, p, a, c)
}

/// What the name says, if it is the name of a split file.
pub open spec fn shard_fields(name: Seq<char>) -> Option<ShardFields> {
    if is_split_name(name) {
        let (p, a, c) = choose|p: Seq<char>, a: Seq<char>, c: Seq<char>|
            is_shard_name(name, p, a, c);
        Some(
            ShardFields {
                prefix: p,
                index: (digits_value(a) - 1) as nat,
                total: digits_value(c),
                width: a.len(),
            },
        )
    } else {
        None
    }
}

/// Whichever way a split file's name is taken apart, it says the same.
pub proof fn shard_fields_of(name: Seq<char>, p: Seq<char>, a: Seq<char>, c: Seq<char>)
    requires
        is_shard_name(name, p, a, c),
    ensures
        shard_fields(name) == Some(
            ShardFields {
                prefix: p,
                index: (digits_value(a) - 1) as nat,
                total: digits_value(c),
                width: a.len(),
            },
        ),
{
    let (p1, a1, c1) = choose|p: Seq<char>, a: Seq<char>, c: Seq<char>|
        is_shard_name(name, p, a, c);
    shard_name_unique(name, p, a, c, p1, a1, c1);
}

/// A split file is one of the files that its name speaks of, and its name is
/// the one at its number.
pub proof fn shard_among_siblings(name: Seq<char>)
    requires
        is_split_name(name),
    ensures
        shard_fields(name) matches Some(f) && f.index < f.total <= usize::MAX && shard_name(
            f.prefix,
            f.index + 1,
            f.total,
            f.width,
        ) == name,
{
    let (p, a, c) = choose|p: Seq<char>, a: Seq<char>, c: Seq<char>|
        is_shard_name(name, p, a, c);
    shard_name_rebuilt(name, p, a, c);
}

/// A name whose parts stand in the right places is the row of its parts.
proof fn parts_make_name(name: Seq<char>, i0: int, i1: int, c0: int)
    requires
        1 <= i0 <= i1,
        i1 + 4 == c0,
        c0 + 5 <= name.len(),
        name[i0 - 1] == '-',
        occurs_at(name, "-of-"@, i1),
        occurs_at(name, ".gguf"@, name.len() - 5),
    ensures
        name == name.take(i0 - 1) + "-"@ + name.subrange(i0, i1) + "-of-"@ + name.subrange(
            c0,
            name.len() - 5,
        ) + ".gguf"@,
{
    reveal_strlit("-");
    reveal_strlit("-of-");
    reveal_strlit(".gguf");
    assert(name.take(i0 - 1) + "-"@ =~= name.take(i0));
    assert(name.take(i0) + name.subrange(i0, i1) =~= name.take(i1));
    assert(name.take(i1) + "-of-"@ =~= name.take(c0)) by {
        assert(name.subrange(i1, i1 + 4) =~= "-of-"@);
        assert(name.take(i1) + name.subrange(i1, i1 + 4) =~= name.take(c0));
    }
    let e = name.len() - 5;
    assert(name.take(c0) + name.subrange(c0, e) =~= name.take(e));
    assert(name.subrange(e, e + 5) =~= ".gguf"@);
    assert(name.take(e) + name.subrange(e, e + 5) =~= name);
}

/// Reads the name of a split file.  Any other name gives nothing: the file
/// stands alone.
#[verifier::spinoff_prover]
#[verifier::rlimit(60)]
pub fn read_shard_name(name: &str) -> (r: Option<ShardFile>)
    ensures
        match r {
            Some(f) => shard_fields(name@) == Some(
                ShardFields {
                    prefix: f.prefix@,
                    index: f.index as nat,
                    total: f.total as nat,
                    width: f.width as nat,
                },
            ) && f.index < f.total,
            None => shard_fields(name@) is None,
        },
{
    let s = to_chars(name);
    let n: usize = s.len();
    let ghost (p, a, c) = choose|p: Seq<char>, a: Seq<char>, c: Seq<char>|
        is_shard_name(name@, p, a, c);
    let ghost split = is_split_name(name@);
    proof {
        if split {
            shard_parts(name@, p, a, c);
        }
        reveal_strlit("-of-");
        reveal_strlit(".gguf");
    }
    let ext = to_chars(".gguf");
    if n < 5 || !crate::text::matches_at(&s, &ext, n - 5) {
        return None;
    }
    let count_end: usize = n - 5;
    let count_start = digit_run(&s, count_end);
    let ghost c0 = s@.subrange(count_start as int, count_end as int);
    assert(split ==> c == c0) by {
        if split {
            if c.len() < c0.len() {
                assert(is_digit(c0[c0.len() - c.len() - 1]));
            }
            if c0.len() < c.len() {
                assert(is_digit(c[c.len() - c0.len() - 1]));
            }
        }
    }
    if count_start >= count_end {
        return None;
    }
    let of = to_chars("-of-");
    if count_start < 4 || !crate::text::matches_at(&s, &of, count_start - 4) {
        return None;
    }
    let idx_end: usize = count_start - 4;
    let idx_start = digit_run(&s, idx_end);
    let ghost a0 = s@.subrange(idx_start as int, idx_end as int);
    assert(split ==> a == a0 && p.len() + 1 == idx_start) by {
        if split {
            if a.len() < a0.len() {
                assert(is_digit(a0[a0.len() - a.len() - 1]));
            }
            if a0.len() < a.len() {
                assert(is_digit(a[a.len() - a0.len() - 1]));
            }
        }
    }
    if idx_start >= idx_end || idx_start == 0 || s[idx_start - 1] != '-' {
        return None;
    }
    let idx_text = from_chars(&s, idx_start, idx_end);
    let count_text = from_chars(&s, count_start, count_end);
    assert(is_digit(a0[0]) && is_digit(c0[0]));
    assert(after_plus(a0) == a0 && after_plus(c0) == c0);
    let (index, total) = match (parse_usize(idx_text.as_str()), parse_usize(count_text.as_str())) {
        (Some(i), Some(t)) => (i, t),
        _ => return None,
    };
    if index == 0 || index > total {
        return None;
    }
    if idx_end - idx_start != count_end - count_start {
        return None;
    }
    let prefix = from_chars(&s, 0, idx_start - 1);
    proof {
        parts_make_name(name@, idx_start as int, idx_end as int, count_start as int);
        assert(prefix@ =~= name@.take(idx_start - 1));
        shard_fields_of(name@, prefix@, a0, c0);
    }
    Some(ShardFile { prefix, index: index - 1, total, width: idx_end - idx_start })
}

/// Reads the name of a split file: the prefix, the file's number counted from
/// zero, and the number of files.
pub fn parse_shard_filename(name: &str) -> (r: Option<(String, usize, usize)>)
    ensures
        match r {
            Some((prefix, index, total)) => shard_fields(name@) matches Some(f) && f.prefix
                == prefix@ && f.index == index && f.total == total,
            None => shard_fields(name@) is None,
        },
{
    match read_shard_name(name) {
        Some(f) => Some((f.prefix, f.index, f.total)),
        None => None,
    }
}

/// The name of file `i` out of `total`.
pub fn shard_file_name(prefix: &str, i: usize, total: usize, width: usize) -> (r: String)
    ensures
        r@ == shard_name(prefix@, i as nat, total as nat, width as nat),
{
    let a = padded_string(i as u64, width);
    let c = padded_string(total as u64, width);
    let head = concat3(prefix, "-", a.as_str());
    let body = concat3(head.as_str(), "-of-", c.as_str());
    concat(body.as_str(), ".gguf")
}

/// The name of a split file is read back: what stands in front, its number
/// counted from zero, and how many files there are.
pub proof fn split_names_read(
    name: &str,
    prefix: Seq<char>,
    a: Seq<char>,
    c: Seq<char>,
    r: Option<(String, usize, usize)>,
)
    requires
        name@ == prefix + "-"@ + a + "-of-"@ + c + ".gguf"@,
        a.len() == c.len() > 0,
        all_digits(a),
        all_digits(c),
        digits_value(c) <= usize::MAX,
        call_ensures(parse_shard_filename, (name,), r),
    ensures
        1 <= digits_value(a) <= digits_value(c) ==> (r matches Some((p, i, n)) && p@ == prefix && i
            + 1 == digits_value(a) && n == digits_value(c)),
{
    if 1 <= digits_value(a) <= digits_value(c) {
        shard_fields_of(name@, prefix, a, c);
    }
}

/// A file's name is its prefix, its number and the number of files, with zeros
/// in front up to the width.
pub proof fn split_names_written(
    prefix: &str,
    i: usize,
    total: usize,
    width: usize,
    name: String,
)
    requires
        call_ensures(shard_file_name, (prefix, i, total, width), name),
    ensures
        name@ == prefix@ + "-"@ + padded(i as nat, width as nat) + "-of-"@ + padded(
            total as nat,
            width as nat,
        ) + ".gguf"@,
{
}

} // verus!
