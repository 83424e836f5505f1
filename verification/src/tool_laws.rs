//! What holds of the functions on texts, matrices and tables.
use vstd::prelude::*;

use crate::path::{join_path, joined_path};
use crate::table::TextMap;
use crate::tensor::{padding_adds_zeros, row_replaced, rows_cut_out, transposed_at, Matrix};
use crate::text::{
    all_digits, concat3, contains_char, decimal_reads_back, decimal_string, digits_value,
    ends_with, has_suffix, join, joined, occurs_at, only_digits, padded_string, parse_usize,
    pieces, replace, replaced, same, split, split_once, starts_with, strip_prefix, strip_suffix,
    texts, trim, trim_end_matches,
};
use crate::text_laws::{
    all_space, bare, cut_at_first, endings_taken, first_replaced, joining_separates, numbers_read,
    one_piece, padding_fills, path_in_directory, prefix_is, separator_starts_piece, suffix_is,
    trimming_takes_space,
};

verus! {

/// A text starts with another if that and something behind it make it up, and
/// taking it off leaves what is behind.
pub proof fn prefixes_tested(
    s: &str,
    pat: &str,
    starts: bool,
    left: Option<String>,
    rest: Seq<char>,
)
    requires
        call_ensures(starts_with, (s, pat), starts),
        call_ensures(strip_prefix, (s, pat), left),
    ensures
        s@ == pat@ + rest ==> starts && (left matches Some(t) && t@ == rest),
        starts <==> left is Some,
        left matches Some(t) ==> s@ == pat@ + t@,
{
    prefix_is(s@, pat@, rest);
    if s@ == pat@ + rest {
        assert(s@.skip(pat@.len() as int) =~= rest);
    }
}

/// A text ends with another if something and that behind it make it up, and
/// taking it off leaves what is in front.
pub proof fn suffixes_tested(
    s: &str,
    pat: &str,
    ends: bool,
    left: Option<String>,
    head: Seq<char>,
)
    requires
        call_ensures(ends_with, (s, pat), ends),
        call_ensures(strip_suffix, (s, pat), left),
    ensures
        s@ == head + pat@ ==> ends && (left matches Some(t) && t@ == head),
        ends <==> left is Some,
        left matches Some(t) ==> s@ == t@ + pat@,
{
    suffix_is(s@, pat@, head);
    if s@ == head + pat@ {
        assert(s@.take(s@.len() - pat@.len()) =~= head);
    }
}

/// Trimming takes the white space off both ends.
pub proof fn trimmed_text(s: &str, r: String, a: Seq<char>, t: Seq<char>, b: Seq<char>)
    requires
        call_ensures(trim, (s,), r),
        all_space(a),
        all_space(b),
        bare(t),
        t.len() > 0,
        s@ == a + t + b,
    ensures
        r@ == t,
{
    trimming_takes_space(a, t, b);
}

/// Two texts with a separator between them are two pieces, and are cut there.
pub proof fn texts_separated(
    s: &str,
    sep: char,
    parts: Vec<String>,
    pair: Option<(String, String)>,
    found: bool,
    a: Seq<char>,
    b: Seq<char>,
)
    requires
        call_ensures(split, (s, sep), parts),
        call_ensures(split_once, (s, sep), pair),
        call_ensures(contains_char, (s, sep), found),
        forall|i: int| 0 <= i < a.len() ==> #[trigger] a[i] != sep,
        forall|i: int| 0 <= i < b.len() ==> #[trigger] b[i] != sep,
    ensures
        s@ == a ==> texts(parts@) == seq![a] && pair is None && !found,
        s@ == a.push(sep) + b ==> texts(parts@) == seq![a, b] && found && (pair matches Some(p)
            && p.0@ == a && p.1@ == b),
{
    one_piece(a, sep);
    separator_starts_piece(a, sep, b);
    cut_at_first(a, sep, b);
    if s@ == a.push(sep) + b {
        assert(s@[a.len() as int] == sep);
        assert(texts(parts@) == pieces(a, sep).push(b));
        assert(pieces(a, sep).push(b) =~= seq![a, b]);
    }
}

/// Where the pattern occurs, the other text stands in its place.
pub proof fn text_replaced(
    s: &str,
    pat: &str,
    with: &str,
    r: String,
    a: Seq<char>,
    rest: Seq<char>,
)
    requires
        call_ensures(replace, (s, pat, with), r),
        pat@.len() > 0,
        s@ == a + pat@ + rest,
        forall|i: int| 0 <= i < a.len() ==> !occurs_at(a + pat@ + rest, pat@, i),
    ensures
        r@ == a + with@ + replaced(rest, pat@, with@),
{
    first_replaced(a, pat@, rest, with@);
}

/// Joined texts stand in order with the separator between each two.
pub proof fn texts_joined(
    parts: &Vec<String>,
    sep: &str,
    r: String,
    front: Seq<Seq<char>>,
    x: Seq<char>,
)
    requires
        call_ensures(join, (parts, sep), r),
    ensures
        parts@.len() == 0 ==> r@.len() == 0,
        texts(parts@) == seq![x] ==> r@ == x,
        front.len() > 0 && texts(parts@) == front.push(x) ==> r@ == joined(front, sep@) + sep@ + x,
{
    joining_separates(front, sep@, x);
    if parts@.len() == 0 {
        assert(texts(parts@) =~= Seq::empty());
    }
}

/// No ending is left, and a text without one stays.
pub proof fn endings_gone(s: &str, pat: &str, r: String)
    requires
        call_ensures(trim_end_matches, (s, pat), r),
        pat@.len() > 0,
    ensures
        !has_suffix(r@, pat@),
        !has_suffix(s@, pat@) ==> r@ == s@,
{
    endings_taken(s@, pat@);
}

/// A number that is written is read back, also with zeros in front.
pub proof fn numbers_written(n: u64, width: usize, plain: String, filled: String)
    requires
        call_ensures(decimal_string, (n,), plain),
        call_ensures(padded_string, (n, width), filled),
    ensures
        digits_value(plain@) == n,
        digits_value(filled@) == n,
        filled@.len() >= width,
        filled@.len() == width || filled@ == plain@,
        n > 0 ==> plain@[0] != '0',
{
    padding_fills(n as nat, width as nat);
    decimal_reads_back(n as nat);
}

/// A number is read out of digits alone.
pub proof fn number_read(s: &str, r: Option<usize>, digits: bool)
    requires
        call_ensures(parse_usize, (s,), r),
        call_ensures(only_digits, (s,), digits),
    ensures
        digits <==> all_digits(s@),
        s@.len() > 0 && all_digits(s@) && digits_value(s@) <= usize::MAX ==> (r matches Some(n)
            && n == digits_value(s@)),
        s@.len() == 0 ==> r is None,
        all_digits(s@) && digits_value(s@) > usize::MAX ==> r is None,
{
    numbers_read(s@, usize::MAX as nat, 0);
    if s@.len() == 0 {
        assert(s@ =~= Seq::empty());
    }
}

/// Texts are the same if their characters are; putting texts behind one another
/// keeps their order.
pub proof fn texts_put_together(a: &str, b: &str, c: &str, equal: bool, r: String)
    requires
        call_ensures(same, (a, b), equal),
        call_ensures(concat3, (a, b, c), r),
    ensures
        equal <==> a@ == b@,
        r@.len() == a@.len() + b@.len() + c@.len(),
        r@.take(a@.len() as int) == a@,
        r@.subrange(a@.len() as int, a@.len() as int + b@.len()) == b@,
        r@.skip(a@.len() as int + b@.len()) == c@,
{
    assert(r@.take(a@.len() as int) =~= a@);
    assert(r@.subrange(a@.len() as int, a@.len() as int + b@.len()) =~= b@);
    assert(r@.skip(a@.len() as int + b@.len()) =~= c@);
}

/// A name stands in its directory.
pub proof fn name_in_directory(parent: &str, name: &str, r: String, front: Seq<char>)
    requires
        call_ensures(join_path, (parent, name), r),
    ensures
        parent@.len() == 0 ==> r@ == name@,
        parent@ == front.push('/') ==> r@ == parent@ + name@,
        parent@.len() > 0 && parent@.last() != '/' ==> r@ == parent@.push('/') + name@,
{
    path_in_directory(parent@, name@);
    path_in_directory(front, name@);
    if parent@.len() == 0 {
        assert(parent@ =~= Seq::empty());
    }
    assert(r@ == joined_path(parent@, name@));
}

/// The number in row `i` and column `c` of a matrix of zeros, of a copy, of the
/// turned matrix, of a longer one and of a part.
pub proof fn matrices_made(
    m: &Matrix,
    copy: Matrix,
    turned: Matrix,
    longer: Matrix,
    rows: usize,
    part: Matrix,
    a: usize,
    b: usize,
    i: int,
    c: int,
)
    requires
        m.wf(),
        call_ensures(Matrix::copy, (m,), copy),
        call_ensures(Matrix::transpose, (m,), turned),
        m@.rows <= rows,
        call_ensures(Matrix::padded, (m, rows), longer),
        a <= b <= m@.rows,
        call_ensures(Matrix::row_slice, (m, a, b), part),
        0 <= i,
        0 <= c < m@.cols,
    ensures
        copy@ == m@,
        turned@.rows == m@.cols && turned@.cols == m@.rows,
        longer@.rows == rows && longer@.cols == m@.cols,
        i < m@.rows ==> turned@.at(c, i) == m@.at(i, c) && longer@.at(i, c) == m@.at(i, c),
        m@.rows <= i < rows ==> longer@.at(i, c) == 0,
        i < b - a ==> part@.rows == b - a && part@.cols == m@.cols && part@.at(i, c) == m@.at(
            a + i,
            c,
        ),
{
    if i < m@.rows {
        transposed_at(m@, i, c);
    }
    if i < rows {
        padding_adds_zeros(m@, rows as nat, i, c);
    }
    if i < b - a {
        rows_cut_out(m@, a as nat, b as nat, i, c);
    }
}

/// A matrix of zeros has the extents that were asked for and nothing else in it.
pub proof fn zeros_made(rows: usize, cols: usize, r: Matrix, i: int)
    requires
        call_ensures(Matrix::zeros, (rows, cols), r),
        0 <= i < r@.data.len(),
    ensures
        r@.rows == rows && r@.cols == cols && r@.data.len() == rows * cols,
        r@.data[i] == 0,
{
}

/// Setting a row puts its numbers there and leaves the other rows alone.
pub proof fn row_set(m: &mut Matrix, r: usize, row: &Vec<u32>, i: int, c: int)
    requires
        old(m).wf(),
        r < old(m)@.rows,
        row@.len() == old(m)@.cols,
        call_ensures(Matrix::set_row, (m, r, row), ()),
        0 <= i < old(m)@.rows,
        0 <= c < old(m)@.cols,
    ensures
        final(m)@.rows == old(m)@.rows && final(m)@.cols == old(m)@.cols,
        final(m)@.at(r as int, c) == row@[c],
        i != r ==> final(m)@.at(i, c) == old(m)@.at(i, c),
{
    row_replaced(old(m)@, r as nat, row@, i, c);
}

/// What is put in a table is found under its key, and everything else stays.
pub proof fn table_filled<V>(t: &mut TextMap<V>, key: String, value: V, other: Seq<char>)
    requires
        old(t).wf(),
        call_ensures(TextMap::<V>::insert, (t, key, value), ()),
    ensures
        final(t)@.dom().contains(key@) && final(t)@[key@] == value,
        other != key@ ==> (final(t)@.dom().contains(other) <==> old(t)@.dom().contains(other)),
        other != key@ && old(t)@.dom().contains(other) ==> final(t)@[other] == old(t)@[other],
{
}

/// A table tells whether a key is there, and where.
pub proof fn table_asked<V>(t: &TextMap<V>, key: &str, there: bool, place: Option<usize>)
    requires
        t.wf(),
        call_ensures(TextMap::<V>::contains_key, (t, key), there),
        call_ensures(TextMap::<V>::position, (t, key), place),
    ensures
        there <==> t@.dom().contains(key@),
        place is Some <==> there,
        place matches Some(i) ==> t.entries@[i as int].key@ == key@,
{
}

} // verus!
