//! The version grammar of release titles: the words after the product name
//! are reassembled into one semantic-version literal, which the lenient
//! semantic-version parser then reads.

use crate::product::{product_named, Product};
use crate::text::{
    chars_of, decimal, digit_char, lacks, lemma_split_spaces_nonempty, push_char, push_chars,
    push_decimal, split_on_spaces, split_spaces, views,
};
use vstd::prelude::*;

verus! {

/// Whether `c` is a parenthesis, which never reaches the version literal.
pub open spec fn is_paren(c: char) -> bool {
    c == '(' || c == ')'
}

/// `s` without its parentheses.
pub open spec fn strip_parens(s: Seq<char>) -> Seq<char>
    decreases s.len(),
{
    if s.len() == 0 {
        s
    } else if is_paren(s.last()) {
        strip_parens(s.drop_last())
    } else {
        strip_parens(s.drop_last()).push(s.last())
    }
}

/// Stripping parentheses distributes over concatenation.
pub proof fn lemma_strip_parens_append(x: Seq<char>, y: Seq<char>)
    ensures
        strip_parens(x + y) == strip_parens(x) + strip_parens(y),
    decreases y.len(),
{
    if y.len() > 0 {
        assert((x + y).drop_last() == x + y.drop_last());
        lemma_strip_parens_append(x, y.drop_last());
    } else {
        assert(x + y == x);
    }
}

/// The first index at or after `i` where `t` holds an opening parenthesis,
/// or -1.
pub open spec fn first_open_at(t: Seq<char>, i: int) -> int
    decreases t.len() - i,
{
    if i < 0 || i >= t.len() {
        -1
    } else if t[i] == '(' {
        i
    } else {
        first_open_at(t, i + 1)
    }
}

/// The last index in `lo..hi` where `t` holds a closing parenthesis, or -1.
pub open spec fn last_close_in(t: Seq<char>, lo: int, hi: int) -> int
    decreases hi - lo,
{
    if hi <= lo {
        -1
    } else if t[hi - 1] == ')' {
        hi - 1
    } else {
        last_close_in(t, lo, hi - 1)
    }
}

/// Where the build identifier of a token ends, its opening parenthesis being
/// at `open`: at the last closing parenthesis after it, else at the token's end.
pub open spec fn build_end(t: Seq<char>, open: int) -> int {
    let c = last_close_in(t, open + 1, t.len() as int);
    if c < 0 {
        t.len() as int
    } else {
        c
    }
}

/// What the token holding the first opening parenthesis adds to the literal:
/// the text before the parenthesis as one more pre-release word, then the
/// build identifier, when there is text after the parenthesis.
pub open spec fn paren_piece(t: Seq<char>) -> Seq<char> {
    let open = first_open_at(t, 0);
    let lead = if open > 0 {
        seq!['-'] + t.take(open)
    } else {
        Seq::empty()
    };
    let build = if open + 1 < t.len() {
        seq!['+'] + t.subrange(open + 1, build_end(t, open))
    } else {
        Seq::empty()
    };
    lead + build
}

/// The index of the first word at or after `i` that holds an opening
/// parenthesis, or -1.
pub open spec fn first_open_word(a: Seq<Seq<char>>, i: int) -> int
    decreases a.len() - i,
{
    if i < 0 || i >= a.len() {
        -1
    } else if a[i].contains('(') {
        i
    } else {
        first_open_word(a, i + 1)
    }
}

/// The words of `ws`, each preceded by a hyphen.
pub open spec fn hyphen_join(ws: Seq<Seq<char>>) -> Seq<char>
    decreases ws.len(),
{
    if ws.len() == 0 {
        Seq::empty()
    } else {
        hyphen_join(ws.drop_last()) + seq!['-'] + ws.last()
    }
}

/// The version literal that the words following the product name stand for:
/// the numeric core, the words up to the first one holding `(` joined by
/// hyphens as pre-release, then that word's contribution; parentheses
/// removed. There is none when no word after the core holds `(`.
pub open spec fn version_literal(a: Seq<Seq<char>>) -> Option<Seq<char>> {
    let k = first_open_word(a, 1);
    if k < 0 {
        None
    } else {
        Some(strip_parens(a[0] + hyphen_join(a.subrange(1, k)) + paren_piece(a[k])))
    }
}

/// The product and version literal that a title stands for, if it follows
/// the title grammar.
pub open spec fn title_parts(title: Seq<char>) -> Option<(Product, Seq<char>)> {
    let words = split_spaces(title);
    match product_named(words[0]) {
        None => None,
        Some(p) => match version_literal(words.drop_first()) {
            None => None,
            Some(lit) => Some((p, lit)),
        },
    }
}

/// Appends `piece[lo..hi]` to `out`, leaving out parentheses.
fn push_stripped(out: &mut String, piece: &Vec<char>, lo: usize, hi: usize)
    requires
        lo <= hi <= piece@.len(),
    ensures
        final(out)@ == old(out)@ + strip_parens(piece@.subrange(lo as int, hi as int)),
{
    let ghost start = out@;
    let mut i = lo;
    while i < hi
        invariant
            lo <= i <= hi <= piece@.len(),
            out@ == start + strip_parens(piece@.subrange(lo as int, i as int)),
        decreases hi - i,
    {
        let c = piece[i];
        assert(piece@.subrange(lo as int, i + 1).drop_last() == piece@.subrange(lo as int, i as int));
        if c != '(' && c != ')' {
            push_char(out, c);
        }
        i = i + 1;
    }
}

/// Appends a character that is no parenthesis, keeping `out` equal to the
/// stripped text built so far.
proof fn lemma_strip_push(x: Seq<char>, c: char)
    requires
        !is_paren(c),
    ensures
        strip_parens(x + seq![c]) == strip_parens(x).push(c),
{
    let one = seq![c];
    lemma_strip_parens_append(x, one);
    assert(one.drop_last() == Seq::<char>::empty());
    assert(strip_parens(Seq::<char>::empty()) == Seq::<char>::empty());
    assert(strip_parens(one) == Seq::<char>::empty().push(c));
    assert(Seq::<char>::empty().push(c) == one);
}

fn has_open(t: &Vec<char>) -> (r: bool)
    ensures
        r == t@.contains('('),
{
    for i in 0..t.len()
        invariant
            forall|j: int| 0 <= j < i ==> t@[j] != '(',
    {
        if t[i] == '(' {
            return true;
        }
    }
    false
}

fn first_open(t: &Vec<char>) -> (r: usize)
    requires
        t@.contains('('),
    ensures
        r == first_open_at(t@, 0),
        r < t@.len(),
        t@[r as int] == '(',
{
    let mut i: usize = 0;
    while i < t.len()
        invariant
            0 <= i <= t@.len(),
            first_open_at(t@, 0) == first_open_at(t@, i as int),
            forall|j: int| 0 <= j < i ==> t@[j] != '(',
            t@.contains('('),
        decreases t.len() - i,
    {
        if t[i] == '(' {
            return i;
        }
        i = i + 1;
    }
    i
}

fn end_of_build(t: &Vec<char>, open: usize) -> (r: usize)
    requires
        open < t@.len(),
    ensures
        r == build_end(t@, open as int),
        open + 1 <= r <= t@.len(),
{
    let mut hi = t.len();
    while hi > open + 1
        invariant
            open + 1 <= hi <= t@.len(),
            last_close_in(t@, open + 1, t@.len() as int) == last_close_in(t@, open + 1, hi as int),
        decreases hi,
    {
        if t[hi - 1] == ')' {
            return hi - 1;
        }
        hi = hi - 1;
    }
    t.len()
}

/// The product and version literal of `title`, as `title_parts` gives them.
pub fn title_literal(title: &str) -> (r: Option<(Product, String)>)
    ensures
        r matches Some((p, lit)) ==> title_parts(title@) == Some((p, lit@)),
        r is None <==> title_parts(title@) is None,
{
    let chars = chars_of(title);
    let words = split_on_spaces(&chars);
    proof {
        lemma_split_spaces_nonempty(title@);
    }
    let ghost all = views(words@);
    let ghost a = all.drop_first();
    assert(all[0] == words@[0]@);
    let product = match Product::from_chars(&words[0]) {
        Some(p) => p,
        None => return None,
    };
    if words.len() < 2 {
        assert(first_open_word(a, 1) == -1);
        return None;
    }
    let mut k: usize = 2;
    while k < words.len() && !has_open(&words[k])
        invariant
            2 <= k <= words@.len(),
            all == views(words@),
            a == all.drop_first(),
            first_open_word(a, 1) == first_open_word(a, k - 1),
        decreases words.len() - k,
    {
        assert(a[k - 1] == words@[k as int]@);
        k = k + 1;
    }
    if k >= words.len() {
        assert(first_open_word(a, k - 1) == -1);
        return None;
    }
    assert(a[k - 1] == words@[k as int]@);
    assert(first_open_word(a, 1) == k - 1);
    let mut out = String::new();
    let core = &words[1];
    assert(a[0] == core@);
    push_stripped(&mut out, core, 0, core.len());
    assert(core@.subrange(0, core@.len() as int) == core@);
    assert(a.subrange(1, 1) == Seq::<Seq<char>>::empty());
    assert(out@ == strip_parens(a[0] + hyphen_join(a.subrange(1, 1))));
    let mut j: usize = 2;
    while j < k
        invariant
            2 <= j <= k < words@.len(),
            all == views(words@),
            a == all.drop_first(),
            out@ == strip_parens(a[0] + hyphen_join(a.subrange(1, j - 1))),
        decreases k - j,
    {
        let w = &words[j];
        assert(a[j - 1] == w@);
        let ghost prev = a[0] + hyphen_join(a.subrange(1, j - 1));
        push_char(&mut out, '-');
        proof {
            lemma_strip_push(prev, '-');
        }
        push_stripped(&mut out, w, 0, w.len());
        assert(w@.subrange(0, w@.len() as int) == w@);
        proof {
            lemma_strip_parens_append(prev + seq!['-'], w@);
        }
        assert(a.subrange(1, j as int).drop_last() == a.subrange(1, j - 1));
        assert(a[0] + hyphen_join(a.subrange(1, j as int)) == prev + seq!['-'] + w@);
        j = j + 1;
    }
    let t = &words[k];
    let ghost before = a[0] + hyphen_join(a.subrange(1, k - 1));
    assert(t@ == a[k - 1]);
    let open = first_open(t);
    let ghost lead: Seq<char> = if open > 0 {
        seq!['-'] + t@.take(open as int)
    } else {
        Seq::empty()
    };
    if open > 0 {
        push_char(&mut out, '-');
        proof {
            lemma_strip_push(before, '-');
        }
        push_stripped(&mut out, t, 0, open);
        proof {
            lemma_strip_parens_append(before + seq!['-'], t@.subrange(0, open as int));
        }
        assert(before + seq!['-'] + t@.subrange(0, open as int) == before + lead);
    } else {
        assert(before + lead == before);
    }
    assert(out@ == strip_parens(before + lead));
    if open < t.len() - 1 {
        let end = end_of_build(t, open);
        push_char(&mut out, '+');
        proof {
            lemma_strip_push(before + lead, '+');
        }
        push_stripped(&mut out, t, open + 1, end);
        proof {
            lemma_strip_parens_append(
                before + lead + seq!['+'],
                t@.subrange(open + 1, end as int),
            );
        }
        assert(paren_piece(t@) == lead + (seq!['+'] + t@.subrange(open + 1, end as int)));
        assert(before + paren_piece(t@) == before + lead + seq!['+'] + t@.subrange(
            open + 1,
            end as int,
        ));
    } else {
        assert(paren_piece(t@) == lead + Seq::<char>::empty());
        assert(before + paren_piece(t@) == before + lead);
    }
    Some((product, out))
}

/// The fields of a semantic version: major, minor, patch, pre-release and
/// build metadata.
pub type VersionFields = (u64, u64, u64, Seq<char>, Seq<char>);

/// What `lenient_semver::parse` makes of a literal: the fields of the version
/// it returns, or none where it returns an error.
pub uninterp spec fn lenient_fields(literal: Seq<char>) -> Option<(u64, u64, u64, Seq<char>, Seq<char>)>;

#[verifier::external_type_specification]
#[verifier::external_body]
pub struct ExLenientError<'a>(lenient_semver::parser::Error<'a>);

/// A semantic version as the lenient parser returns it.
#[derive(Debug, PartialEq, Eq)]
pub struct SemanticVersion {
    pub major: u64,
    pub minor: u64,
    pub patch: u64,
    /// Pre-release identifiers, dot-separated, empty when there are none.
    pub pre: String,
    /// Build metadata, empty when there is none.
    pub build: String,
}

impl View for SemanticVersion {
    type V = VersionFields;

    open spec fn view(&self) -> VersionFields {
        (self.major, self.minor, self.patch, self.pre@, self.build@)
    }
}

/// Whether `s` holds only what semver identifiers are made of: ASCII
/// alphanumerics and hyphens, with dots between identifiers.
pub open spec fn semver_chars(s: Seq<char>) -> bool {
    forall|i: int|
        0 <= i < s.len() ==> {
            let c = #[trigger] s[i];
            ('0' <= c <= '9') || ('A' <= c <= 'Z') || ('a' <= c <= 'z') || c == '-' || c == '.'
        }
}

/// Relies on `lenient_semver::parse` to read a version literal; the
/// `semver::Version` it returns is carried over field by field, and its
/// `Prerelease` and `BuildMetadata` hold only semver identifier characters.
#[verifier::external_body]
fn parse_lenient<'a>(literal: &'a str) -> (r: Result<SemanticVersion, lenient_semver::parser::Error<'a>>)
    ensures
        r matches Ok(v) ==> lenient_fields(literal@) == Some(v@),
        r matches Ok(v) ==> semver_chars(v.pre@) && semver_chars(v.build@),
        r is Err <==> lenient_fields(literal@) is None,
{
    lenient_semver::parse(literal).map(|v| SemanticVersion {
        major: v.major,
        minor: v.minor,
        patch: v.patch,
        pre: v.pre.as_str().to_string(),
        build: v.build.as_str().to_string(),
    })
}

/// The product and version fields that a title stands for, or none where the
/// title names no known product, breaks the title grammar, or yields a
/// literal that the lenient parser rejects.
pub open spec fn classify(title: Seq<char>) -> Option<(Product, VersionFields)> {
    match title_parts(title) {
        None => None,
        Some((p, lit)) => match lenient_fields(lit) {
            None => None,
            Some(v) => Some((p, v)),
        },
    }
}

/// A recognised product together with its version.
#[derive(Debug, PartialEq, Eq)]
pub struct SoftwareRelease {
    pub product: Product,
    pub version: SemanticVersion,
}

impl View for SoftwareRelease {
    type V = (Product, VersionFields);

    open spec fn view(&self) -> (Product, VersionFields) {
        (self.product, self.version@)
    }
}

impl SoftwareRelease {
    /// Classifies `title` as a release of a known product, or returns `None`
    /// for a title that is not one; it never fails otherwise.
    pub fn software_release(title: String) -> (r: Option<SoftwareRelease>)
        ensures
            r matches Some(rel) ==> classify(title@) == Some(rel@),
            r matches Some(rel) ==> semver_chars(rel.version.pre@) && semver_chars(
                rel.version.build@,
            ),
            r is None <==> classify(title@) is None,
    {
        match title_literal(title.as_str()) {
            None => None,
            Some((product, literal)) => match parse_lenient(literal.as_str()) {
                Ok(version) => Some(SoftwareRelease { product, version }),
                Err(_) => None,
            },
        }
    }
}

/// The canonical semantic-version text: `major.minor.patch`, then
/// `-pre-release` and `+build` where they are not empty.
pub open spec fn semver_text(v: VersionFields) -> Seq<char> {
    decimal(v.0 as nat) + seq!['.'] + decimal(v.1 as nat) + seq!['.'] + decimal(v.2 as nat)
        + (if v.3.len() > 0 {
        seq!['-'] + v.3
    } else {
        Seq::empty()
    }) + (if v.4.len() > 0 {
        seq!['+'] + v.4
    } else {
        Seq::empty()
    })
}

/// `s` with every hyphen turned into a space.
pub open spec fn hyphens_to_spaces(s: Seq<char>) -> Seq<char> {
    s.map_values(|c: char| if c == '-' { ' ' } else { c })
}

/// The version as a rendered line shows it: trailing zero components left
/// out, pre-release words separated by spaces, build in parentheses.
pub open spec fn display_text(v: VersionFields) -> Seq<char> {
    numeric_text(v) + (if v.3.len() > 0 {
        seq![' '] + hyphens_to_spaces(v.3)
    } else {
        Seq::empty()
    }) + (if v.4.len() > 0 {
        seq![' ', '('] + v.4 + seq![')']
    } else {
        Seq::empty()
    })
}

/// The numeric part of a rendered version: the major number, then the minor
/// number where minor or patch is not zero, then the patch number where it is
/// not zero.
pub open spec fn numeric_text(v: VersionFields) -> Seq<char> {
    decimal(v.0 as nat) + (if v.1 > 0 || v.2 > 0 {
        seq!['.'] + decimal(v.1 as nat)
    } else {
        Seq::empty()
    }) + (if v.2 > 0 {
        seq!['.'] + decimal(v.2 as nat)
    } else {
        Seq::empty()
    })
}

/// Appends `s` to `out` with every hyphen turned into a space.
fn push_spaced(out: &mut String, s: &Vec<char>)
    ensures
        final(out)@ == old(out)@ + hyphens_to_spaces(s@),
{
    let ghost start = out@;
    for i in 0..s.len()
        invariant
            out@ == start + hyphens_to_spaces(s@.take(i as int)),
    {
        let c = s[i];
        if c == '-' {
            push_char(out, ' ');
        } else {
            push_char(out, c);
        }
        assert(hyphens_to_spaces(s@.take(i + 1)) == hyphens_to_spaces(s@.take(i as int)).push(
            if c == '-' { ' ' } else { c },
        ));
    }
    assert(s@.take(s.len() as int) == s@);
}

impl SemanticVersion {
    /// The canonical semantic-version text, as `semver` prints a version.
    pub fn to_string(&self) -> (r: String)
        ensures
            r@ == semver_text(self@),
    {
        let mut r = String::new();
        push_decimal(&mut r, self.major);
        push_char(&mut r, '.');
        push_decimal(&mut r, self.minor);
        push_char(&mut r, '.');
        push_decimal(&mut r, self.patch);
        let ghost core = r@;
        let pre = chars_of(self.pre.as_str());
        if pre.len() > 0 {
            push_char(&mut r, '-');
            push_chars(&mut r, &pre);
        }
        let ghost with_pre = r@;
        assert(with_pre == core + (if pre@.len() > 0 { seq!['-'] + pre@ } else { Seq::empty() }));
        let build = chars_of(self.build.as_str());
        if build.len() > 0 {
            push_char(&mut r, '+');
            push_chars(&mut r, &build);
        }
        assert(r@ == with_pre + (if build@.len() > 0 { seq!['+'] + build@ } else { Seq::empty() }));
        r
    }

    /// Appends the numeric part of the rendered version to `out`.
    fn push_numeric(&self, out: &mut String)
        ensures
            final(out)@ == old(out)@ + numeric_text(self@),
    {
        let ghost start = out@;
        push_decimal(out, self.major);
        let ghost s0 = out@;
        if self.minor > 0 || self.patch > 0 {
            push_char(out, '.');
            push_decimal(out, self.minor);
        }
        let ghost s1 = out@;
        if self.patch > 0 {
            push_char(out, '.');
            push_decimal(out, self.patch);
        }
        assert(s1 == s0 + (if self.minor > 0 || self.patch > 0 {
            seq!['.'] + decimal(self.minor as nat)
        } else {
            Seq::empty()
        }));
        assert(out@ == s1 + (if self.patch > 0 {
            seq!['.'] + decimal(self.patch as nat)
        } else {
            Seq::empty()
        }));
    }

    /// The version as rendered lines show it.
    pub fn display(&self) -> (r: String)
        ensures
            r@ == display_text(self@),
    {
        let mut r = String::new();
        self.push_numeric(&mut r);
        let ghost s0 = r@;
        let pre = chars_of(self.pre.as_str());
        if pre.len() > 0 {
            push_char(&mut r, ' ');
            push_spaced(&mut r, &pre);
        }
        let ghost s1 = r@;
        let build = chars_of(self.build.as_str());
        if build.len() > 0 {
            push_char(&mut r, ' ');
            push_char(&mut r, '(');
            push_chars(&mut r, &build);
            push_char(&mut r, ')');
        }
        assert(s1 == s0 + (if pre@.len() > 0 {
            seq![' '] + hyphens_to_spaces(pre@)
        } else {
            Seq::empty()
        }));
        assert(r@ == s1 + (if build@.len() > 0 {
            seq![' ', '('] + build@ + seq![')']
        } else {
            Seq::empty()
        }));
        r
    }
}

} // verus!

verus! {

/// The view of an optional release.
pub open spec fn release_view(r: Option<SoftwareRelease>) -> Option<(Product, VersionFields)> {
    match r {
        Some(rel) => Some(rel@),
        None => None,
    }
}

} // verus!

verus! {

/// `s` with every space turned into a hyphen.
pub open spec fn spaces_to_hyphens(s: Seq<char>) -> Seq<char> {
    s.map_values(|c: char| if c == ' ' { '-' } else { c })
}

/// Joining the space-separated pieces of `s` with hyphens turns its spaces
/// into hyphens.
pub proof fn lemma_hyphen_join_split(s: Seq<char>)
    ensures
        hyphen_join(split_spaces(s)) == seq!['-'] + spaces_to_hyphens(s),
    decreases s.len(),
{
    if s.len() == 0 {
        assert(split_spaces(s).drop_last() == Seq::<Seq<char>>::empty());
        assert(spaces_to_hyphens(s) == Seq::<char>::empty());
        let w = split_spaces(s);
        assert(w == seq![Seq::<char>::empty()]);
        assert(w.last() == Seq::<char>::empty());
        assert(hyphen_join(w.drop_last()) == Seq::<char>::empty());
        assert(hyphen_join(w) == Seq::<char>::empty() + seq!['-'] + Seq::<char>::empty());
        assert(Seq::<char>::empty() + seq!['-'] + Seq::<char>::empty() == seq!['-']);
    } else {
        let init = split_spaces(s.drop_last());
        lemma_hyphen_join_split(s.drop_last());
        lemma_split_spaces_nonempty(s.drop_last());
        assert(spaces_to_hyphens(s) == spaces_to_hyphens(s.drop_last()).push(
            if s.last() == ' ' { '-' } else { s.last() },
        ));
        let whole = split_spaces(s);
        if s.last() == ' ' {
            assert(whole.drop_last() == init);
            assert(hyphen_join(whole) == hyphen_join(init) + seq!['-'] + Seq::<char>::empty());
            assert(seq!['-'] + spaces_to_hyphens(s) == seq!['-'] + spaces_to_hyphens(s.drop_last())
                + seq!['-']);
        } else {
            assert(whole.drop_last() == init.drop_last());
            assert(whole.last() == init.last().push(s.last()));
            assert(hyphen_join(init) == hyphen_join(init.drop_last()) + seq!['-'] + init.last());
            assert(hyphen_join(whole) == hyphen_join(init.drop_last()) + seq!['-'] + init.last().push(
                s.last(),
            ));
            assert(hyphen_join(whole) == hyphen_join(init).push(s.last()));
            assert(seq!['-'] + spaces_to_hyphens(s) == (seq!['-'] + spaces_to_hyphens(
                s.drop_last(),
            )).push(s.last()));
        }
    }
}

/// Turning hyphens into spaces and back gives a space-free text again.
pub proof fn lemma_spaces_hyphens_inverse(s: Seq<char>)
    requires
        lacks(s, ' '),
    ensures
        spaces_to_hyphens(hyphens_to_spaces(s)) == s,
{
    assert(spaces_to_hyphens(hyphens_to_spaces(s)) =~= s);
}

/// The first word from `i` on that holds `(` is `k`, when the words between
/// hold none.
pub proof fn lemma_first_open_word_at(a: Seq<Seq<char>>, i: int, k: int)
    requires
        0 <= i <= k < a.len(),
        forall|j: int| i <= j < k ==> !(#[trigger] a[j]).contains('('),
        a[k].contains('('),
    ensures
        first_open_word(a, i) == k,
    decreases k - i,
{
    if i < k {
        lemma_first_open_word_at(a, i + 1, k);
    }
}

/// No word from `i` on holds `(`, so there is none to find.
pub proof fn lemma_first_open_word_none(a: Seq<Seq<char>>, i: int)
    requires
        0 <= i,
        forall|j: int| i <= j < a.len() ==> !(#[trigger] a[j]).contains('('),
    ensures
        first_open_word(a, i) == -1,
    decreases a.len() - i,
{
    if i < a.len() {
        lemma_first_open_word_none(a, i + 1);
    }
}

/// Stripping parentheses leaves a text without any unchanged.
pub proof fn lemma_strip_parens_none(s: Seq<char>)
    requires
        lacks(s, '('),
        lacks(s, ')'),
    ensures
        strip_parens(s) == s,
    decreases s.len(),
{
    if s.len() > 0 {
        lemma_strip_parens_none(s.drop_last());
        assert(s.drop_last().push(s.last()) == s);
    }
}

/// Whether `c` is a decimal digit.
pub open spec fn is_digit(c: char) -> bool {
    c == '0' || c == '1' || c == '2' || c == '3' || c == '4' || c == '5' || c == '6' || c == '7'
        || c == '8' || c == '9'
}

/// Decimal notation holds digits only.
pub proof fn lemma_decimal_digits(n: nat, c: char)
    requires
        !is_digit(c),
    ensures
        lacks(decimal(n), c),
    decreases n,
{
    assert(is_digit(digit_char(n % 10)));
    if n >= 10 {
        lemma_decimal_digits(n / 10, c);
    } else {
        assert(is_digit(digit_char(n)));
    }
}

} // verus!
