//! What holds of the operations on text.
use vstd::prelude::*;

use crate::path::joined_path;
use crate::text::{
    all_digits, ascii_lowercase, ascii_uppercase, cut, decimal, decimal_reads_back, digits_value,
    has_prefix, has_substring, has_suffix, hex, hex_char, is_digit, joined, leading_space,
    leading_space_bounded, occurs_at, padded, pieces, pieces_nonempty, replaced, small_hex,
    small_hex_char, trailing_space, trailing_space_bounded, trimmed, unsigned_of, until_is,
    white_space, without_endings,
};

verus! {

/// Every character is white space.
pub open spec fn all_space(s: Seq<char>) -> bool {
    forall|i: int| 0 <= i < s.len() ==> white_space(#[trigger] s[i])
}

/// The text does not start or end with white space.
pub open spec fn bare(s: Seq<char>) -> bool {
    s.len() > 0 ==> !white_space(s[0]) && !white_space(s.last())
}

/// The white space in front of a text that starts without any.
proof fn leading_is(a: Seq<char>, s: Seq<char>)
    requires
        all_space(a),
        s.len() == 0 || !white_space(s[0]),
    ensures
        leading_space(a + s) == a.len(),
    decreases a.len(),
{
    if a.len() == 0 {
        assert(a + s =~= s);
    } else {
        assert((a + s).skip(1) =~= a.skip(1) + s);
        assert forall|i: int| 0 <= i < a.skip(1).len() implies white_space(
            #[trigger] a.skip(1)[i],
        ) by {
            assert(white_space(a[i + 1]));
        }
        leading_is(a.skip(1), s);
    }
}

/// The white space behind a text that ends without any.
proof fn trailing_is(s: Seq<char>, b: Seq<char>)
    requires
        all_space(b),
        s.len() == 0 || !white_space(s.last()),
    ensures
        trailing_space(s + b) == b.len(),
    decreases b.len(),
{
    if b.len() == 0 {
        assert(s + b =~= s);
    } else {
        assert((s + b).drop_last() =~= s + b.drop_last());
        assert((s + b).last() == b[b.len() - 1]);
        assert forall|i: int| 0 <= i < b.drop_last().len() implies white_space(
            #[trigger] b.drop_last()[i],
        ) by {
            assert(white_space(b[i]));
        }
        trailing_is(s, b.drop_last());
    }
}

/// Trimming takes away the white space around a text, and nothing else.
pub proof fn trimming_takes_space(a: Seq<char>, s: Seq<char>, b: Seq<char>)
    requires
        all_space(a),
        all_space(b),
        bare(s),
        s.len() > 0,
    ensures
        trimmed(a + s + b) == s,
{
    assert(a + s + b =~= a + (s + b));
    assert((s + b)[0] == s[0]);
    leading_is(a, s + b);
    assert((a + s + b).skip(a.len() as int) =~= s + b);
    trailing_is(s, b);
    assert((s + b).take(s.len() as int) =~= s);
}

/// Nothing is left of white space.
pub proof fn trimming_space_leaves_nothing(a: Seq<char>)
    requires
        all_space(a),
    ensures
        trimmed(a).len() == 0,
{
    assert(a + Seq::<char>::empty() =~= a);
    leading_is(a, Seq::empty());
}

/// A trimmed text does not start or end with white space.
pub proof fn trimmed_is_bare(s: Seq<char>)
    ensures
        bare(trimmed(s)),
{
    leading_space_bounded(s);
    let n = leading_space(s) as int;
    let rest = s.skip(n);
    trailing_space_bounded(rest);
    leading_stops(s);
    trailing_stops(rest);
}

/// Behind the leading white space there is none.
proof fn leading_stops(s: Seq<char>)
    ensures
        leading_space(s) < s.len() ==> !white_space(s[leading_space(s) as int]),
    decreases s.len(),
{
    if s.len() > 0 && white_space(s[0]) {
        leading_stops(s.skip(1));
    }
}

/// Before the trailing white space there is none.
proof fn trailing_stops(s: Seq<char>)
    ensures
        trailing_space(s) < s.len() ==> !white_space(s[s.len() - trailing_space(s) - 1]),
    decreases s.len(),
{
    if s.len() > 0 && white_space(s.last()) {
        trailing_stops(s.drop_last());
    }
}

/// The characters that are white space.
pub open spec fn space_characters() -> Seq<char> {
    seq![
        '\t',
        '\n',
        '\u{b}',
        '\u{c}',
        '\r',
        ' ',
        '\u{85}',
        '\u{a0}',
        '\u{1680}',
        '\u{2000}',
        '\u{2001}',
        '\u{2002}',
        '\u{2003}',
        '\u{2004}',
        '\u{2005}',
        '\u{2006}',
        '\u{2007}',
        '\u{2008}',
        '\u{2009}',
        '\u{200a}',
        '\u{2028}',
        '\u{2029}',
        '\u{202f}',
        '\u{205f}',
        '\u{3000}',
    ]
}

/// Each of the characters that are white space is, and no other.
pub proof fn white_space_is(c: char, i: int)
    ensures
        0 <= i < space_characters().len() ==> white_space(space_characters()[i]),
        white_space(c) ==> exists|k: int|
            0 <= k < space_characters().len() && #[trigger] space_characters()[k] == c,
{
    let s = space_characters();
    let u = c as u32;
    if white_space(c) {
        let k: int = if u <= 13 {
            u - 9
        } else if u == 0x20 {
            5
        } else if u == 0x85 {
            6
        } else if u == 0xA0 {
            7
        } else if u == 0x1680 {
            8
        } else if u <= 0x200A {
            u - 0x2000 + 9
        } else if u == 0x2028 {
            20
        } else if u == 0x2029 {
            21
        } else if u == 0x202F {
            22
        } else if u == 0x205F {
            23
        } else {
            24
        };
        assert(s[k] as u32 == u);
        assert(s[k] == c);
    }
}

/// Characters without a separator go on the last piece.
proof fn pieces_extended(s: Seq<char>, b: Seq<char>, sep: char)
    requires
        forall|i: int| 0 <= i < b.len() ==> #[trigger] b[i] != sep,
    ensures
        pieces(s + b, sep) == pieces(s, sep).drop_last().push(pieces(s, sep).last() + b),
    decreases b.len(),
{
    pieces_nonempty(s, sep);
    let p = pieces(s, sep);
    if b.len() == 0 {
        assert(s + b =~= s);
        assert(p.last() + b =~= p.last());
        assert(p.drop_last().push(p.last()) =~= p);
    } else {
        let init = b.drop_last();
        assert forall|i: int| 0 <= i < init.len() implies #[trigger] init[i] != sep by {
            assert(b[i] != sep);
        }
        pieces_extended(s, init, sep);
        assert((s + b).drop_last() =~= s + init);
        assert(b[b.len() - 1] != sep);
        let before = p.drop_last().push(p.last() + init);
        assert(before.drop_last() =~= p.drop_last());
        assert((p.last() + init).push(b.last()) =~= p.last() + b);
    }
}

/// A text without separator is one piece.
pub proof fn one_piece(a: Seq<char>, sep: char)
    requires
        forall|i: int| 0 <= i < a.len() ==> #[trigger] a[i] != sep,
    ensures
        pieces(a, sep) == seq![a],
{
    let none = Seq::<char>::empty();
    pieces_extended(none, a, sep);
    assert(none + a =~= a);
    assert(pieces(none, sep) =~= seq![none]);
    assert(pieces(none, sep).drop_last().push(none + a) =~= seq![a]);
}

/// A separator ends a piece: what follows it, up to the next one, is a piece
/// of its own.
pub proof fn separator_starts_piece(s: Seq<char>, sep: char, b: Seq<char>)
    requires
        forall|i: int| 0 <= i < b.len() ==> #[trigger] b[i] != sep,
    ensures
        pieces(s.push(sep) + b, sep) == pieces(s, sep).push(b),
{
    pieces_nonempty(s, sep);
    let none = Seq::<char>::empty();
    assert(s.push(sep).drop_last() =~= s);
    assert(pieces(s.push(sep), sep) == pieces(s, sep).push(none));
    pieces_extended(s.push(sep), b, sep);
    assert(pieces(s, sep).push(none).drop_last() =~= pieces(s, sep));
    assert(none + b =~= b);
}

/// A text is cut at the first separator.
pub proof fn cut_at_first(a: Seq<char>, c: char, b: Seq<char>)
    requires
        forall|i: int| 0 <= i < a.len() ==> #[trigger] a[i] != c,
    ensures
        cut(a.push(c) + b, c) == Some((a, b)),
        cut(a, c) is None,
{
    let s = a.push(c) + b;
    assert forall|i: int| 0 <= i < a.len() implies #[trigger] s[i] != c by {
        assert(s[i] == a[i]);
    }
    until_is(s, c, a.len() as int);
    until_is(a, c, a.len() as int);
    assert(s.take(a.len() as int) =~= a);
    assert(s.skip(a.len() as int + 1) =~= b);
}

/// Copies of an ending are taken away, and nothing before them.
pub proof fn endings_taken(s: Seq<char>, pat: Seq<char>)
    requires
        pat.len() > 0,
    ensures
        without_endings(s + pat, pat) == without_endings(s, pat),
        !has_suffix(s, pat) ==> without_endings(s, pat) == s,
        !has_suffix(without_endings(s, pat), pat),
    decreases s.len(),
{
    let t = s + pat;
    assert(t.subrange(t.len() - pat.len(), t.len() as int) =~= pat);
    assert(t.take(t.len() - pat.len()) =~= s);
    if has_suffix(s, pat) {
        endings_taken(s.take(s.len() - pat.len()), pat);
    }
}

/// The value of a hexadecimal digit in small letters.
pub open spec fn small_hex_value(c: char) -> nat {
    if '0' <= c <= '9' {
        (c as u32 - '0' as u32) as nat
    } else {
        (c as u32 - 'a' as u32 + 10) as nat
    }
}

/// The value of a hexadecimal digit in capitals.
pub open spec fn hex_value(c: char) -> nat {
    if '0' <= c <= '9' {
        (c as u32 - '0' as u32) as nat
    } else {
        (c as u32 - 'A' as u32 + 10) as nat
    }
}

/// The number that a run of digits denotes in base sixteen.
pub open spec fn base_sixteen(s: Seq<char>, value: spec_fn(char) -> nat) -> nat
    decreases s.len(),
{
    if s.len() == 0 {
        0
    } else {
        16 * base_sixteen(s.drop_last(), value) + value(s.last())
    }
}

/// Each digit has its value.
proof fn digits_have_values(d: int)
    requires
        0 <= d < 16,
    ensures
        small_hex_value(small_hex_char(d)) == d,
        hex_value(hex_char(d)) == d,
        small_hex_char(d) != '-',
{
    if d < 10 {
        assert('0' <= ('0' as u32 + d) as char <= '9');
    } else {
        assert(('a' as u32 + (d - 10)) as char > '9');
        assert(('A' as u32 + (d - 10)) as char > '9');
    }
}

/// A number written in base sixteen reads as that number; its digits are no
/// dashes, and it does not start with a zero unless it is zero.
pub proof fn small_hex_reads_back(n: nat)
    ensures
        base_sixteen(small_hex(n), |c: char| small_hex_value(c)) == n,
        small_hex(n).len() >= 1,
        forall|i: int| 0 <= i < small_hex(n).len() ==> #[trigger] small_hex(n)[i] != '-',
    decreases n,
{
    let value = |c: char| small_hex_value(c);
    digits_have_values((n % 16) as int);
    if n < 16 {
        assert(small_hex(n).drop_last() =~= Seq::empty());
        assert(base_sixteen(small_hex(n).drop_last(), value) == 0);
        assert(small_hex(n).last() == small_hex_char(n as int));
    } else {
        small_hex_reads_back(n / 16);
        let s = small_hex(n);
        assert(s.drop_last() =~= small_hex(n / 16));
        assert forall|i: int| 0 <= i < s.len() implies #[trigger] s[i] != '-' by {
            if i < s.len() - 1 {
                assert(s[i] == small_hex(n / 16)[i]);
            }
        }
    }
}

/// A byte written with two digits in base sixteen reads as that byte.
pub proof fn byte_hex_reads_back(n: nat)
    requires
        n < 256,
    ensures
        hex(n, 2).len() == 2,
        16 * hex_value(hex(n, 2)[0]) + hex_value(hex(n, 2)[1]) == n,
{
    reveal_with_fuel(hex, 3);
    digits_have_values((n % 16) as int);
    digits_have_values((n / 16 % 16) as int);
}

/// A text starts with a pattern exactly if it is the pattern and something
/// behind it.
pub proof fn prefix_is(s: Seq<char>, pat: Seq<char>, rest: Seq<char>)
    ensures
        has_prefix(pat + rest, pat),
        has_prefix(s, pat) ==> s == pat + s.skip(pat.len() as int),
{
    assert((pat + rest).subrange(0, pat.len() as int) =~= pat);
    if has_prefix(s, pat) {
        assert(s =~= s.subrange(0, pat.len() as int) + s.skip(pat.len() as int));
    }
}

/// A text ends with a pattern exactly if it is something and the pattern behind
/// it.
pub proof fn suffix_is(s: Seq<char>, pat: Seq<char>, head: Seq<char>)
    ensures
        has_suffix(head + pat, pat),
        has_suffix(s, pat) ==> s == s.take(s.len() - pat.len()) + pat,
{
    let t = head + pat;
    assert(t.subrange(t.len() - pat.len(), t.len() as int) =~= pat);
    if has_suffix(s, pat) {
        let n = s.len() - pat.len();
        assert(s =~= s.take(n) + s.subrange(n, s.len() as int));
    }
}

/// A text holds a pattern exactly if there is something, then the pattern, then
/// something.
pub proof fn substring_is(s: Seq<char>, pat: Seq<char>, a: Seq<char>, b: Seq<char>)
    ensures
        has_substring(a + pat + b, pat),
        has_substring(s, pat) ==> exists|x: Seq<char>, y: Seq<char>| s == #[trigger] (x + pat + y),
{
    let t = a + pat + b;
    assert(t.subrange(a.len() as int, a.len() as int + pat.len()) =~= pat);
    assert(occurs_at(t, pat, a.len() as int));
    if has_substring(s, pat) {
        let i = choose|i: int| #[trigger] occurs_at(s, pat, i);
        let (x, y) = (s.take(i), s.skip(i + pat.len()));
        assert(s =~= x + s.subrange(i, i + pat.len()) + y);
        assert(s == x + pat + y);
    }
}

/// Replacing goes from the left: what stands before the first occurrence of the
/// pattern stays, the occurrence is exchanged, and it goes on behind it.
pub proof fn first_replaced(a: Seq<char>, pat: Seq<char>, rest: Seq<char>, with: Seq<char>)
    requires
        pat.len() > 0,
        forall|i: int| 0 <= i < a.len() ==> !occurs_at(a + pat + rest, pat, i),
    ensures
        replaced(a + pat + rest, pat, with) == a + with + replaced(rest, pat, with),
    decreases a.len(),
{
    let s = a + pat + rest;
    if a.len() == 0 {
        assert(s =~= pat + rest);
        prefix_is(s, pat, rest);
        assert(s.skip(pat.len() as int) =~= rest);
        assert(a + with =~= with);
    } else {
        assert(!occurs_at(s, pat, 0));
        let b = a.skip(1);
        assert(s.skip(1) =~= b + pat + rest);
        assert forall|i: int| 0 <= i < b.len() implies !occurs_at(b + pat + rest, pat, i) by {
            if occurs_at(b + pat + rest, pat, i) {
                assert(s.subrange(i + 1, i + 1 + pat.len()) =~= (b + pat + rest).subrange(
                    i,
                    i + pat.len(),
                ));
                assert(occurs_at(s, pat, i + 1));
            }
        }
        first_replaced(b, pat, rest, with);
        assert(seq![s[0]] + (b + with + replaced(rest, pat, with)) =~= a + with + replaced(
            rest,
            pat,
            with,
        ));
    }
}

/// Joining puts the separator between each two texts, and nowhere else.
pub proof fn joining_separates(parts: Seq<Seq<char>>, sep: Seq<char>, x: Seq<char>)
    ensures
        joined(Seq::empty(), sep).len() == 0,
        joined(seq![x], sep) == x,
        parts.len() > 0 ==> joined(parts.push(x), sep) == joined(parts, sep) + sep + x,
{
    assert(parts.push(x).drop_last() =~= parts);
}

/// The value of digits: each one counts ten times less than the one before it,
/// and the last one counts by itself.
pub proof fn digits_count(s: Seq<char>, c: char)
    ensures
        digits_value(Seq::empty()) == 0,
        '0' <= c <= '9' ==> digits_value(s.push(c)) == 10 * digits_value(s) + (c as int
            - '0' as int),
{
    assert(s.push(c).drop_last() =~= s);
}

/// The decimal form of a number starts with a zero only if it is zero.
proof fn decimal_starts(n: nat)
    ensures
        n > 0 ==> decimal(n)[0] != '0',
        decimal(n).len() > 0,
    decreases n,
{
    if n >= 10 {
        decimal_starts(n / 10);
    }
}

/// A number that is filled up has zeros in front, is at least as wide as asked,
/// no wider than its digits or that, and reads as the number.
pub proof fn padding_fills(n: nat, width: nat)
    ensures
        padded(n, width).len() >= width,
        padded(n, width).len() == width || padded(n, width) == decimal(n),
        forall|i: int|
            0 <= i < padded(n, width).len() - decimal(n).len() ==> #[trigger] padded(n, width)[i]
                == '0',
        digits_value(padded(n, width)) == n,
        n > 0 ==> decimal(n)[0] != '0',
{
    decimal_starts(n);
    let d = decimal(n);
    let gap = (padded(n, width).len() - d.len()) as nat;
    zeros_in_front(gap, d);
    decimal_reads_back(n);
    if gap == 0 {
        assert(padded(n, width) =~= d);
    }
}

/// Zeros in front do not change a value.
proof fn zeros_in_front(gap: nat, d: Seq<char>)
    ensures
        digits_value(Seq::new(gap, |i: int| '0') + d) == digits_value(d),
    decreases gap + d.len(),
{
    let z = Seq::new(gap, |i: int| '0');
    let all = z + d;
    if d.len() > 0 {
        zeros_in_front(gap, d.drop_last());
        assert(all.drop_last() =~= z + d.drop_last());
    } else if gap > 0 {
        let y = Seq::new((gap - 1) as nat, |i: int| '0');
        zeros_in_front((gap - 1) as nat, d);
        assert(all.drop_last() =~= y + d);
        assert(all.last() == '0');
    } else {
        assert(all =~= d);
    }
}

/// A number is read from its digits, with a plus sign in front or not; nothing
/// is read from no digits, from anything else among them, or beyond the limit.
pub proof fn numbers_read(d: Seq<char>, max: nat, i: int)
    ensures
        d.len() > 0 && all_digits(d) && digits_value(d) <= max ==> unsigned_of(d, max) == Some(
            digits_value(d),
        ) && unsigned_of(seq!['+'] + d, max) == Some(digits_value(d)),
        all_digits(d) && digits_value(d) > max ==> unsigned_of(d, max) is None,
        unsigned_of(Seq::empty(), max) is None,
        unsigned_of(seq!['+'], max) is None,
        0 < i < d.len() && !('0' <= d[i] <= '9') ==> unsigned_of(d, max) is None,
{
    let plus = seq!['+'] + d;
    assert(plus.skip(1) =~= d);
    assert(seq!['+'].skip(1) =~= Seq::<char>::empty());
    if d.len() > 0 && all_digits(d) {
        assert(is_digit(d[0]));
    }
    if 0 < i < d.len() && !('0' <= d[i] <= '9') {
        if d[0] == '+' {
            assert(d.skip(1)[i - 1] == d[i]);
        }
    }
}

/// The letters of the alphabet lose or gain their capital; nothing else changes.
pub proof fn letters_change(s: Seq<char>, i: int)
    requires
        0 <= i < s.len(),
    ensures
        ascii_lowercase(s).len() == s.len(),
        ascii_uppercase(s).len() == s.len(),
        'A' <= s[i] <= 'Z' ==> ascii_lowercase(s)[i] as int - 'a' as int == s[i] as int
            - 'A' as int,
        !('A' <= s[i] <= 'Z') ==> ascii_lowercase(s)[i] == s[i],
        'a' <= s[i] <= 'z' ==> ascii_uppercase(s)[i] as int - 'A' as int == s[i] as int
            - 'a' as int,
        !('a' <= s[i] <= 'z') ==> ascii_uppercase(s)[i] == s[i],
{
}

/// A name in a directory stands behind the directory and one slash; a directory
/// without a name leaves the name alone.
pub proof fn path_in_directory(parent: Seq<char>, name: Seq<char>)
    ensures
        joined_path(Seq::empty(), name) == name,
        joined_path(parent.push('/'), name) == parent.push('/') + name,
        parent.len() > 0 && parent.last() != '/' ==> joined_path(parent, name) == parent.push('/')
            + name,
        has_suffix(joined_path(parent, name), name),
{
    reveal_strlit("/");
    suffix_is(name, name, parent);
    suffix_is(name, name, parent + "/"@);
    suffix_is(name, name, Seq::empty());
    assert(Seq::<char>::empty() + name =~= name);
    assert(parent + "/"@ =~= parent.push('/'));
}

} // verus!
