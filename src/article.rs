//! Articles of the releases page: assembly from the extracted fields and the
//! one-line rendering.

use crate::date::{date_of_text, iso_text, Date};
use crate::links::{notes_link, opt_text, release_notes_link};
use crate::product::{lemma_name_round_trip, name_of, Product};
use crate::text::{
    chars_of, decimal, lacks, lemma_split_at_space, lemma_split_spaces_nonempty, lemma_split_pieces_lack,
    lemma_split_without_spaces, push_chars, split_spaces,
};
use crate::version::{
    classify, display_text, hyphen_join, hyphens_to_spaces, is_digit, lemma_decimal_digits,
    lemma_first_open_word_at, lemma_first_open_word_none, lemma_hyphen_join_split, lemma_spaces_hyphens_inverse,
    lemma_strip_parens_none, lenient_fields, semver_chars, numeric_text, paren_piece, release_view, title_parts,
    version_literal, SoftwareRelease, VersionFields,
};
use vstd::prelude::*;

verus! {

/// Why one announcement block gave no article.
#[derive(Debug, Clone, Copy, PartialEq, Eq, Structural)]
pub enum ArticleError {
    /// The block holds no title.
    MissingTitle,
    /// The block holds no date.
    MissingDate,
    /// The date text does not name a date in the long form.
    DateParseFailure,
    /// A structural pattern of the page does not parse.
    InvalidSelector,
}

/// An announcement of the releases page.
#[derive(Debug)]
pub struct Article {
    /// The article title, such as "iOS 16.2 beta 3 (20C5049e)".
    pub title: String,
    /// The product and version that the title names, if it names one.
    pub software_release: Option<SoftwareRelease>,
    /// The publication date.
    pub date: Date,
    /// The release-notes link, only ever on the vendor's host.
    pub release_notes_url: Option<String>,
}

/// An article as plain values: title, release, date and link.
pub type ArticleView = (Seq<char>, Option<(Product, VersionFields)>, (int, int, int), Option<Seq<char>>);

impl View for Article {
    type V = ArticleView;

    open spec fn view(&self) -> ArticleView {
        (self.title@, release_view(self.software_release), self.date@, opt_text(self.release_notes_url))
    }
}

/// The article that a title, a date text and an optional link stand for: the
/// title's release, the date the text names, and the link resolved and kept
/// only on the vendor's host; none where the date text names no date.
pub open spec fn assembled(title: Seq<char>, date_text: Seq<char>, href: Option<Seq<char>>) -> Option<
    ArticleView,
> {
    match date_of_text(date_text) {
        None => None,
        Some(d) => Some((title, classify(title), d, notes_link(href))),
    }
}

/// The line that stands for an article: its date, then the product and
/// version when the title names a release, else the title.
pub open spec fn render_text(
    title: Seq<char>,
    release: Option<(Product, VersionFields)>,
    date: (int, int, int),
) -> Seq<char> {
    iso_text(date) + seq![' ', '-', ' '] + match release {
        Some((p, v)) => name_of(p) + seq![' '] + display_text(v),
        None => title,
    }
}

impl Article {
    /// Builds the article of one announcement block from its title, date text
    /// and optional link; only a date text that names no date makes it fail.
    pub fn assemble(title: String, date_text: &str, href: Option<String>) -> (r: Result<
        Article,
        ArticleError,
    >)
        ensures
            r matches Ok(a) ==> assembled(title@, date_text@, opt_text(href)) == Some(a@),
            r matches Err(e) ==> e == ArticleError::DateParseFailure,
            r is Err <==> assembled(title@, date_text@, opt_text(href)) is None,
    {
        let date = match Date::parse_long(date_text) {
            Ok(d) => d,
            Err(_) => return Err(ArticleError::DateParseFailure),
        };
        let software_release = SoftwareRelease::software_release(title.clone());
        let release_notes_url = release_notes_link(href);
        Ok(Article { title, software_release, date, release_notes_url })
    }

    /// The one-line form of the article.
    pub fn to_string(&self) -> (r: String)
        ensures
            r@ == render_text(self.title@, release_view(self.software_release), self.date@),
    {
        let mut r = self.date.iso();
        push_chars(&mut r, &vec![' ', '-', ' ']);
        let ghost head = r@;
        match &self.software_release {
            Some(rel) => {
                push_chars(&mut r, &rel.product.name_chars());
                push_chars(&mut r, &vec![' ']);
                let v = rel.version.display();
                push_chars(&mut r, &chars_of(v.as_str()));
                assert(r@ == head + (name_of(rel.product) + seq![' '] + display_text(rel.version@)));
            },
            None => {
                push_chars(&mut r, &chars_of(self.title.as_str()));
            },
        }
        r
    }

    /// The line that the listing prints for this article, if it prints one:
    /// an article without a release only when every article is shown; a
    /// release's line ends with ` - ` and `link` when a link is given.
    pub fn listing_line(&self, show_all: bool, link: &Option<String>) -> (r: Option<String>)
        ensures
            self.software_release is None && !show_all ==> r is None,
            self.software_release is None && show_all ==> (r matches Some(l) && l@ == render_text(
                self.title@,
                None,
                self.date@,
            )),
            self.software_release is Some ==> (r matches Some(l) && l@ == render_text(
                self.title@,
                release_view(self.software_release),
                self.date@,
            ) + match link {
                Some(u) => seq![' ', '-', ' '] + u@,
                None => Seq::empty(),
            }),
    {
        match &self.software_release {
            None => {
                if show_all {
                    Some(self.to_string())
                } else {
                    None
                }
            },
            Some(_) => {
                let mut r = self.to_string();
                match link {
                    Some(u) => {
                        push_chars(&mut r, &vec![' ', '-', ' ']);
                        push_chars(&mut r, &chars_of(u.as_str()));
                    },
                    None => {},
                }
                Some(r)
            },
        }
    }
}

/// A text that a title word can carry whole: no spaces, no parentheses.
pub open spec fn title_safe(s: Seq<char>) -> bool {
    lacks(s, ' ') && lacks(s, '(') && lacks(s, ')')
}

/// The version literal that the rendered form of `v` reads back as.
pub open spec fn short_literal(v: VersionFields) -> Seq<char> {
    numeric_text(v) + (if v.3.len() > 0 {
        seq!['-'] + v.3
    } else {
        Seq::empty()
    }) + seq!['+'] + v.4
}

proof fn lemma_lacks_append(x: Seq<char>, y: Seq<char>, c: char)
    requires
        lacks(x, c),
        lacks(y, c),
    ensures
        lacks(x + y, c),
{
    assert forall|i: int| 0 <= i < (x + y).len() implies (x + y)[i] != c by {
        if i >= x.len() {
            assert((x + y)[i] == y[i - x.len()]);
        }
    }
}

proof fn lemma_numeric_safe(v: VersionFields)
    ensures
        title_safe(numeric_text(v)),
{
    let dot = seq!['.'];
    assert(lacks(dot, ' ') && lacks(dot, '(') && lacks(dot, ')'));
    let e = Seq::<char>::empty();
    assert(lacks(e, ' ') && lacks(e, '(') && lacks(e, ')'));
    let cs = seq![' ', '(', ')'];
    assert forall|k: int| 0 <= k < 3 implies lacks(numeric_text(v), #[trigger] cs[k]) by {
        let c = cs[k];
        assert(!is_digit(c));
        lemma_decimal_digits(v.0 as nat, c);
        lemma_decimal_digits(v.1 as nat, c);
        lemma_decimal_digits(v.2 as nat, c);
        lemma_lacks_append(dot, decimal(v.1 as nat), c);
        lemma_lacks_append(dot, decimal(v.2 as nat), c);
        let m = if v.1 > 0 || v.2 > 0 {
            dot + decimal(v.1 as nat)
        } else {
            e
        };
        let q = if v.2 > 0 {
            dot + decimal(v.2 as nat)
        } else {
            e
        };
        lemma_lacks_append(decimal(v.0 as nat), m, c);
        lemma_lacks_append(decimal(v.0 as nat) + m, q, c);
    }
    assert(lacks(numeric_text(v), cs[0]));
    assert(lacks(numeric_text(v), cs[1]));
    assert(lacks(numeric_text(v), cs[2]));
}

proof fn lemma_name_has_no_space(p: Product)
    ensures
        lacks(name_of(p), ' '),
{
}

/// A release without build metadata renders to a product and version text
/// with no parenthesis, which the title grammar reads as no release; an
/// article titled with that text renders to the very same line, so rendering
/// after classifying changes nothing here either.
pub proof fn lemma_rendered_release_without_build(
    title: Seq<char>,
    p: Product,
    v: VersionFields,
    date: (int, int, int),
)
    requires
        classify(title) == Some((p, v)),
        semver_chars(v.3),
        v.4.len() == 0,
    ensures
        classify(name_of(p) + seq![' '] + display_text(v)) is None,
        render_text(
            name_of(p) + seq![' '] + display_text(v),
            classify(name_of(p) + seq![' '] + display_text(v)),
            date,
        ) == render_text(title, classify(title), date),
{
    let name = name_of(p);
    let line = name + seq![' '] + display_text(v);
    lemma_semver_chars_title_safe(v.3);
    lemma_numeric_safe(v);
    assert(lacks(name, '('));
    let h = hyphens_to_spaces(v.3);
    assert(lacks(h, '('));
    let pre = if v.3.len() > 0 {
        seq![' '] + h
    } else {
        Seq::<char>::empty()
    };
    assert(lacks(pre, '('));
    assert(display_text(v) == numeric_text(v) + pre);
    lemma_lacks_append(numeric_text(v), pre, '(');
    lemma_lacks_append(name, seq![' '], '(');
    lemma_lacks_append(name + seq![' '], display_text(v), '(');
    lemma_split_pieces_lack(line, '(');
    lemma_split_spaces_nonempty(line);
    let words = split_spaces(line);
    let a = words.drop_first();
    assert forall|j: int| 1 <= j < a.len() implies !(#[trigger] a[j]).contains('(') by {
        assert(a[j] == words[j + 1]);
        assert(lacks(words[j + 1], '('));
    }
    lemma_first_open_word_none(a, 1);
    assert(version_literal(a) is None);
    assert(title_parts(line) is None);
}

/// Semver identifier text carries no spaces and no parentheses.
proof fn lemma_semver_chars_title_safe(s: Seq<char>)
    requires
        semver_chars(s),
    ensures
        title_safe(s),
{
    assert forall|i: int| 0 <= i < s.len() implies s[i] != ' ' && s[i] != '(' && s[i] != ')' by {
        let c = s[i];
        assert(('0' <= c <= '9') || ('A' <= c <= 'Z') || ('a' <= c <= 'z') || c == '-' || c == '.');
    }
}

/// Rendering a release and reading the rendered product and version back as
/// a title gives the same product and the literal `short_literal(v)`, whose
/// pre-release and build are those of `v`. Where the lenient parser reads
/// that literal back as `v`, the rendered text classifies as the same
/// release, so rendering it once more yields the same line. The pre-release
/// and build hold semver identifier characters, as every release that
/// `software_release` returns does; the build must not be empty, since a
/// rendered version without one has no parenthesised word to end the title
/// grammar.
pub proof fn lemma_rendered_release_reads_back(
    title: Seq<char>,
    p: Product,
    v: VersionFields,
    date: (int, int, int),
)
    requires
        classify(title) == Some((p, v)),
        semver_chars(v.3),
        semver_chars(v.4),
        v.4.len() > 0,
    ensures
        title_parts(name_of(p) + seq![' '] + display_text(v)) == Some((p, short_literal(v))),
        lenient_fields(short_literal(v)) == Some(v) ==> classify(
            name_of(p) + seq![' '] + display_text(v),
        ) == Some((p, v)) && render_text(
            name_of(p) + seq![' '] + display_text(v),
            classify(name_of(p) + seq![' '] + display_text(v)),
            date,
        ) == render_text(title, classify(title), date),
{
    let name = name_of(p);
    let core = numeric_text(v);
    let b = seq!['('] + v.4 + seq![')'];
    let line = name + seq![' '] + display_text(v);
    lemma_semver_chars_title_safe(v.3);
    lemma_semver_chars_title_safe(v.4);
    lemma_name_has_no_space(p);
    lemma_name_round_trip(p);
    lemma_numeric_safe(v);
    lemma_split_without_spaces(name);
    lemma_split_without_spaces(core);
    assert(lacks(b, ' '));
    lemma_split_without_spaces(b);
    assert(b[0] == '(');
    assert(b.contains('('));
    assert(paren_piece(b) == seq!['+'] + v.4) by {
        assert(b.subrange(1, b.len() - 1) == v.4);
        assert(b.take(0) == Seq::<char>::empty());
    }
    lemma_lacks_append(core, seq!['+'] + v.4, '(');
    lemma_lacks_append(core, seq!['+'] + v.4, ')');
    if v.3.len() > 0 {
        let h = hyphens_to_spaces(v.3);
        assert(lacks(h, '('));
        assert(line == name + seq![' '] + (core + seq![' '] + (h + seq![' '] + b)));
        lemma_split_at_space(name, core + seq![' '] + (h + seq![' '] + b));
        lemma_split_at_space(core, h + seq![' '] + b);
        lemma_split_at_space(h, b);
        let words = split_spaces(line);
        let hs = split_spaces(h);
        assert(words == seq![name] + (seq![core] + (hs + seq![b])));
        let a = words.drop_first();
        assert(a == seq![core] + hs + seq![b]);
        let k = (hs.len() + 1) as int;
        lemma_split_pieces_lack(h, '(');
        assert forall|j: int| 1 <= j < k implies !(#[trigger] a[j]).contains('(') by {
            assert(a[j] == hs[j - 1]);
            assert(lacks(hs[j - 1], '('));
        }
        assert(a[k] == b);
        lemma_first_open_word_at(a, 1, k);
        assert(a.subrange(1, k) == hs);
        lemma_hyphen_join_split(h);
        lemma_spaces_hyphens_inverse(v.3);
        let lit = core + (seq!['-'] + v.3) + (seq!['+'] + v.4);
        assert(a[0] + hyphen_join(a.subrange(1, k)) + paren_piece(a[k]) == lit);
        lemma_lacks_append(seq!['-'], v.3, '(');
        lemma_lacks_append(seq!['-'], v.3, ')');
        lemma_lacks_append(core, seq!['-'] + v.3, '(');
        lemma_lacks_append(core, seq!['-'] + v.3, ')');
        lemma_lacks_append(core + (seq!['-'] + v.3), seq!['+'] + v.4, '(');
        lemma_lacks_append(core + (seq!['-'] + v.3), seq!['+'] + v.4, ')');
        lemma_strip_parens_none(lit);
        assert(lit == short_literal(v));
        assert(version_literal(a) == Some(short_literal(v)));
    } else {
        assert(line == name + seq![' '] + (core + seq![' '] + b));
        lemma_split_at_space(name, core + seq![' '] + b);
        lemma_split_at_space(core, b);
        let words = split_spaces(line);
        assert(words == seq![name] + (seq![core] + seq![b]));
        let a = words.drop_first();
        assert(a == seq![core, b]);
        lemma_first_open_word_at(a, 1, 1);
        assert(a.subrange(1, 1) == Seq::<Seq<char>>::empty());
        let lit = core + (seq!['+'] + v.4);
        assert(a[0] + hyphen_join(a.subrange(1, 1)) + paren_piece(a[1]) == lit);
        lemma_strip_parens_none(lit);
        assert(lit == short_literal(v));
        assert(version_literal(a) == Some(short_literal(v)));
    }
}

} // verus!
