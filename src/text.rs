//! Character-level helpers shared by the parsers and renderers.

use vstd::prelude::*;
use vstd::std_specs::iter::IteratorSpec;

verus! {

/// Relies on `String::push`: the character is appended at the end.
#[verifier::external_body]
pub(crate) fn push_char(s: &mut String, c: char)
    ensures
        final(s)@ == old(s)@.push(c),
{
    s.push(c);
}

/// The characters of `s`, in order.
pub fn chars_of(s: &str) -> (r: Vec<char>)
    ensures
        r@ == s@,
{
    let mut r: Vec<char> = Vec::new();
    for c in it: s.chars()
        invariant
            r@ == it.seq().take(it.index() as int),
    {
        r.push(c);
    }
    r
}

/// The decimal digit character for `d < 10`.
pub open spec fn digit_char(d: nat) -> char {
    seq!['0', '1', '2', '3', '4', '5', '6', '7', '8', '9'][d as int]
}

/// Decimal notation of `n`, without leading zeros.
pub open spec fn decimal(n: nat) -> Seq<char>
    decreases n,
{
    if n < 10 {
        seq![digit_char(n)]
    } else {
        decimal(n / 10).push(digit_char(n % 10))
    }
}

pub(crate) fn digit(d: u64) -> (c: char)
    requires
        d < 10,
    ensures
        c == digit_char(d as nat),
{
    match d {
        0 => '0',
        1 => '1',
        2 => '2',
        3 => '3',
        4 => '4',
        5 => '5',
        6 => '6',
        7 => '7',
        8 => '8',
        _ => '9',
    }
}

/// Appends the decimal notation of `n` to `out`.
pub fn push_decimal(out: &mut String, n: u64)
    ensures
        final(out)@ == old(out)@ + decimal(n as nat),
    decreases n,
{
    if n >= 10 {
        push_decimal(out, n / 10);
    }
    push_char(out, digit(n % 10));
}

/// Appends the characters of `piece` to `out`.
pub fn push_chars(out: &mut String, piece: &Vec<char>)
    ensures
        final(out)@ == old(out)@ + piece@,
{
    let ghost start = out@;
    for i in 0..piece.len()
        invariant
            out@ == start + piece@.take(i as int),
    {
        push_char(out, piece[i]);
        assert(piece@.take(i + 1) == piece@.take(i as int).push(piece@[i as int]));
    }
    assert(piece@.take(piece.len() as int) == piece@);
}

/// Appends `piece[lo..hi]` to `out`.
pub fn push_range(out: &mut String, piece: &Vec<char>, lo: usize, hi: usize)
    requires
        lo <= hi <= piece@.len(),
    ensures
        final(out)@ == old(out)@ + piece@.subrange(lo as int, hi as int),
{
    let ghost start = out@;
    let mut i = lo;
    while i < hi
        invariant
            lo <= i <= hi <= piece@.len(),
            out@ == start + piece@.subrange(lo as int, i as int),
        decreases hi - i,
    {
        push_char(out, piece[i]);
        assert(piece@.subrange(lo as int, i + 1) == piece@.subrange(lo as int, i as int).push(
            piece@[i as int],
        ));
        i = i + 1;
    }
}

/// The first index at or after `i` where `s` holds `c`, or -1.
pub open spec fn first_index_from(s: Seq<char>, c: char, i: int) -> int
    decreases s.len() - i,
{
    if i < 0 || i >= s.len() {
        -1
    } else if s[i] == c {
        i
    } else {
        first_index_from(s, c, i + 1)
    }
}

/// Whether `m` occurs in `s` at index `i`.
pub open spec fn occurs_at(s: Seq<char>, m: Seq<char>, i: int) -> bool {
    0 <= i && i + m.len() <= s.len() && s.subrange(i, i + m.len()) == m
}

/// The first index at or after `i` where `m` occurs in `s`, or -1.
pub open spec fn first_occurrence_from(s: Seq<char>, m: Seq<char>, i: int) -> int
    decreases s.len() + 1 - i,
{
    if i < 0 || i + m.len() > s.len() {
        -1
    } else if occurs_at(s, m, i) {
        i
    } else {
        first_occurrence_from(s, m, i + 1)
    }
}

/// The first index at or after `from` where `s` holds `c`.
pub fn find_char(s: &Vec<char>, c: char, from: usize) -> (r: Option<usize>)
    ensures
        r matches Some(i) ==> first_index_from(s@, c, from as int) == i,
        r is None <==> first_index_from(s@, c, from as int) == -1,
{
    let mut i = from;
    while i < s.len()
        invariant
            from <= i,
            first_index_from(s@, c, from as int) == first_index_from(s@, c, i as int),
        decreases s.len() - i,
    {
        if s[i] == c {
            return Some(i);
        }
        i = i + 1;
    }
    None
}

fn occurs(s: &Vec<char>, m: &Vec<char>, i: usize) -> (r: bool)
    requires
        i + m@.len() <= s@.len(),
    ensures
        r == occurs_at(s@, m@, i as int),
{
    let n = s.len();
    for j in 0..m.len()
        invariant
            n == s@.len(),
            i + m@.len() <= n,
            forall|k: int| 0 <= k < j ==> s@[i + k] == m@[k],
    {
        if s[i + j] != m[j] {
            return false;
        }
    }
    assert(s@.subrange(i as int, i + m@.len()) == m@);
    true
}

/// The first index at or after `from` where `m` occurs in `s`.
pub fn find_text(s: &Vec<char>, m: &Vec<char>, from: usize) -> (r: Option<usize>)
    ensures
        r matches Some(i) ==> first_occurrence_from(s@, m@, from as int) == i,
        r is None <==> first_occurrence_from(s@, m@, from as int) == -1,
{
    if m.len() > s.len() {
        return None;
    }
    let last = s.len() - m.len();
    let mut i = from;
    while i <= last
        invariant
            from <= i,
            last + m@.len() == s@.len(),
            first_occurrence_from(s@, m@, from as int) == first_occurrence_from(s@, m@, i as int),
        decreases last + 1 - i,
    {
        if occurs(s, m, i) {
            return Some(i);
        }
        if i == last {
            assert(first_occurrence_from(s@, m@, i + 1) == -1);
            return None;
        }
        i = i + 1;
    }
    None
}

/// The pieces of `s` between single spaces, as `str::split(' ')` yields
/// them: consecutive spaces give empty pieces, and there is always at least one.
pub open spec fn split_spaces(s: Seq<char>) -> Seq<Seq<char>>
    decreases s.len(),
{
    if s.len() == 0 {
        seq![Seq::empty()]
    } else {
        let init = split_spaces(s.drop_last());
        if s.last() == ' ' {
            init.push(Seq::empty())
        } else {
            init.update(init.len() - 1, init.last().push(s.last()))
        }
    }
}

/// Splitting always yields at least one piece.
pub proof fn lemma_split_spaces_nonempty(s: Seq<char>)
    ensures
        split_spaces(s).len() >= 1,
    decreases s.len(),
{
    if s.len() > 0 {
        lemma_split_spaces_nonempty(s.drop_last());
    }
}

/// Whether `s` nowhere holds `c`.
pub open spec fn lacks(s: Seq<char>, c: char) -> bool {
    forall|i: int| 0 <= i < s.len() ==> s[i] != c
}

/// A text without spaces is a single piece.
pub proof fn lemma_split_without_spaces(x: Seq<char>)
    requires
        lacks(x, ' '),
    ensures
        split_spaces(x) == seq![x],
    decreases x.len(),
{
    if x.len() > 0 {
        lemma_split_without_spaces(x.drop_last());
        assert(x.drop_last().push(x.last()) == x);
        assert(seq![x.drop_last()].update(0, x.drop_last().push(x.last())) == seq![x]);
    } else {
        assert(x == Seq::<char>::empty());
    }
}

/// Splitting at a space splits the two sides apart.
pub proof fn lemma_split_at_space(x: Seq<char>, y: Seq<char>)
    ensures
        split_spaces(x + seq![' '] + y) == split_spaces(x) + split_spaces(y),
    decreases y.len(),
{
    let z = x + seq![' '] + y;
    if y.len() == 0 {
        assert(z.drop_last() == x);
    } else {
        assert(z.drop_last() == x + seq![' '] + y.drop_last());
        lemma_split_at_space(x, y.drop_last());
        lemma_split_spaces_nonempty(y.drop_last());
        lemma_split_spaces_nonempty(x);
    }
}

/// The pieces of a text that lacks `c` lack it too.
pub proof fn lemma_split_pieces_lack(s: Seq<char>, c: char)
    requires
        lacks(s, c),
        c != ' ',
    ensures
        forall|j: int| 0 <= j < split_spaces(s).len() ==> lacks(#[trigger] split_spaces(s)[j], c),
    decreases s.len(),
{
    if s.len() > 0 {
        lemma_split_pieces_lack(s.drop_last(), c);
        lemma_split_spaces_nonempty(s.drop_last());
        let init = split_spaces(s.drop_last());
        assert(lacks(init[init.len() - 1], c));
    }
}

/// The character sequences held by a list of character vectors.
pub open spec fn views(v: Seq<Vec<char>>) -> Seq<Seq<char>> {
    v.map_values(|t: Vec<char>| t@)
}

/// Splits `s` at every space.
pub fn split_on_spaces(s: &Vec<char>) -> (r: Vec<Vec<char>>)
    ensures
        views(r@) == split_spaces(s@),
{
    let mut done: Vec<Vec<char>> = Vec::new();
    let mut cur: Vec<char> = Vec::new();
    for i in 0..s.len()
        invariant
            views(done@).push(cur@) == split_spaces(s@.take(i as int)),
    {
        let ghost before = s@.take(i as int);
        assert(s@.take(i + 1).drop_last() == before);
        proof {
            lemma_split_spaces_nonempty(before);
        }
        if s[i] == ' ' {
            let finished = cur;
            done.push(finished);
            cur = Vec::new();
            assert(views(done@) == split_spaces(before));
        } else {
            cur.push(s[i]);
            assert(views(done@).push(cur@) == split_spaces(before).update(
                split_spaces(before).len() - 1,
                split_spaces(before).last().push(s@[i as int]),
            ));
        }
    }
    assert(s@.take(s.len() as int) == s@);
    let ghost before = views(done@);
    done.push(cur);
    assert(views(done@) == before.push(cur@));
    done
}

/// Whether two character vectors hold the same characters.
pub fn same_chars(a: &Vec<char>, b: &Vec<char>) -> (r: bool)
    ensures
        r == (a@ == b@),
{
    if a.len() != b.len() {
        return false;
    }
    for i in 0..a.len()
        invariant
            a.len() == b.len(),
            forall|j: int| 0 <= j < i ==> a@[j] == b@[j],
    {
        if a[i] != b[i] {
            return false;
        }
    }
    assert(a@ == b@);
    true
}

} // verus!
