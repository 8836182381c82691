//! Extraction of announcement blocks from the releases page: the structural
//! patterns, the raw fields of each block, and the articles they make.

use crate::article::{assembled, Article, ArticleError, ArticleView};
use crate::date::{date_of_text, Date};
use crate::links::{opt_text, unfurl_link, unfurled_link};
use crate::text::{chars_of, push_chars};
use vstd::prelude::*;

verus! {

#[verifier::external_type_specification]
#[verifier::external_body]
pub struct ExSelectorErrorKind<'a>(scraper::error::SelectorErrorKind<'a>);

/// An announcement block of the releases page.
pub const ARTICLE_PATTERN: &'static str = "section.article-content-container";

/// The title inside a block.
pub const TITLE_PATTERN: &'static str = "a.article-title h2";

/// The date inside a block.
pub const DATE_PATTERN: &'static str = "p.article-date";

/// The short release-notes link inside a block.
pub const NOTES_LINK_PATTERN: &'static str = "span.article-text ul.links-stacked li:nth-child(2) a.more";

/// The attribute of the release-notes link that holds its target.
pub const LINK_ATTRIBUTE: &'static str = "href";

/// The scripts of a short link's page.
pub const SCRIPT_PATTERN: &'static str = "script";

/// Which script of a short link's page holds the redirect, counting from 0.
pub const REDIRECT_SCRIPT_INDEX: usize = 3;

/// Whether `scraper::Selector::parse` accepts `text`.
pub uninterp spec fn pattern_parses(text: Seq<char>) -> bool;

/// What the structural extractor finds in the page `content` with the block,
/// title, date and link patterns `patterns`: for each block, in document
/// order, the markup of its first title match, of its first date match, and
/// the `attribute` of its first link match; none where a pattern does not
/// parse.
pub uninterp spec fn page_blocks(
    content: Seq<char>,
    patterns: (Seq<char>, Seq<char>, Seq<char>, Seq<char>),
    attribute: Seq<char>,
) -> Option<Seq<(Option<Seq<char>>, Option<Seq<char>>, Option<Seq<char>>)>>;

/// The same fields as `page_blocks` gives for one block, read from the whole
/// of the fragment `html`; none where a field pattern does not parse.
pub uninterp spec fn fragment_block(
    html: Seq<char>,
    patterns: (Seq<char>, Seq<char>, Seq<char>, Seq<char>),
    attribute: Seq<char>,
) -> Option<(Option<Seq<char>>, Option<Seq<char>>, Option<Seq<char>>)>;

/// The markup of every element of the page `page` that `pattern` matches, in
/// document order; none where the pattern does not parse.
pub uninterp spec fn matched_texts(page: Seq<char>, pattern: Seq<char>) -> Option<Seq<Seq<char>>>;

/// The structural patterns that locate the fields of announcement blocks.
pub struct Selectors {
    /// The block that holds one announcement.
    pub article: String,
    /// The article title.
    pub title: String,
    /// The article date.
    pub date: String,
    /// The short release-notes link.
    pub release_notes_short_url: String,
}

impl View for Selectors {
    type V = (Seq<char>, Seq<char>, Seq<char>, Seq<char>);

    open spec fn view(&self) -> (Seq<char>, Seq<char>, Seq<char>, Seq<char>) {
        (self.article@, self.title@, self.date@, self.release_notes_short_url@)
    }
}

/// The fields of one announcement block, as the page holds them.
#[derive(Debug, PartialEq, Eq)]
pub struct RawBlock {
    /// The markup of the title, if the block has one.
    pub title: Option<String>,
    /// The text of the date, if the block has one.
    pub date: Option<String>,
    /// The target of the release-notes link, if the block has one.
    pub href: Option<String>,
}

/// The fields of a block as plain values.
pub type BlockView = (Option<Seq<char>>, Option<Seq<char>>, Option<Seq<char>>);

impl View for RawBlock {
    type V = BlockView;

    open spec fn view(&self) -> BlockView {
        (opt_text(self.title), opt_text(self.date), opt_text(self.href))
    }
}

/// The views of a list of blocks.
pub open spec fn block_views(v: Seq<RawBlock>) -> Seq<BlockView> {
    v.map_values(|b: RawBlock| b@)
}

/// The views of a list of texts.
pub open spec fn text_views(v: Seq<String>) -> Seq<Seq<char>> {
    v.map_values(|t: String| t@)
}

/// The views of a list of articles.
pub open spec fn article_views(v: Seq<Article>) -> Seq<ArticleView> {
    v.map_values(|a: Article| a@)
}

/// The patterns of the releases page.
pub open spec fn page_patterns() -> (Seq<char>, Seq<char>, Seq<char>, Seq<char>) {
    (ARTICLE_PATTERN@, TITLE_PATTERN@, DATE_PATTERN@, NOTES_LINK_PATTERN@)
}

/// Whether all four patterns parse.
pub open spec fn patterns_parse(p: (Seq<char>, Seq<char>, Seq<char>, Seq<char>)) -> bool {
    pattern_parses(p.0) && pattern_parses(p.1) && pattern_parses(p.2) && pattern_parses(p.3)
}

/// Relies on `scraper::Selector::parse` accepting or rejecting `text`.
#[verifier::external_body]
fn pattern_ok(text: &str) -> (r: bool)
    ensures
        r == pattern_parses(text@),
{
    scraper::Selector::parse(text).is_ok()
}

/// Relies on `scraper::Selector::parse` for the patterns,
/// `scraper::Html::parse_document` (which never fails) for the page, `select`
/// for the blocks and their first matches, `inner_html` and `Element::attr`
/// for the fields. scraper is built with its `deterministic` feature, so
/// attributes keep their source order and the markup depends on the page
/// alone.
#[verifier::external_body]
fn extract_page_blocks<'a>(content: &str, p: &'a Selectors, attribute: &str) -> (r: Result<
    Vec<RawBlock>,
    scraper::error::SelectorErrorKind<'a>,
>)
    ensures
        r matches Ok(v) ==> page_blocks(content@, p@, attribute@) == Some(block_views(v@)),
        r is Err <==> page_blocks(content@, p@, attribute@) is None,
        r is Err <==> !patterns_parse(p@),
{
    let (a, t) = (scraper::Selector::parse(&p.article)?, scraper::Selector::parse(&p.title)?);
    let d = scraper::Selector::parse(&p.date)?;
    let l = scraper::Selector::parse(&p.release_notes_short_url)?;
    let doc = scraper::Html::parse_document(content);
    Ok(doc.select(&a).map(|e| RawBlock {
        title: e.select(&t).next().map(|x| x.inner_html()),
        date: e.select(&d).next().map(|x| x.inner_html()),
        href: e.select(&l).next().and_then(|x| x.value().attr(attribute)).map(String::from),
    }).collect())
}

/// Relies on `scraper::Selector::parse` for the field patterns,
/// `scraper::Html::parse_fragment` for the fragment, `select` from its root
/// for the first matches, `inner_html` and `Element::attr` for the fields;
/// with the `deterministic` feature the markup depends on the fragment alone.
#[verifier::external_body]
fn extract_fragment_block<'a>(html: &str, p: &'a Selectors, attribute: &str) -> (r: Result<
    RawBlock,
    scraper::error::SelectorErrorKind<'a>,
>)
    ensures
        r matches Ok(b) ==> fragment_block(html@, p@, attribute@) == Some(b@),
        r is Err <==> fragment_block(html@, p@, attribute@) is None,
        r is Err <==> !(pattern_parses(p@.1) && pattern_parses(p@.2) && pattern_parses(p@.3)),
{
    let (t, d) = (scraper::Selector::parse(&p.title)?, scraper::Selector::parse(&p.date)?);
    let l = scraper::Selector::parse(&p.release_notes_short_url)?;
    let doc = scraper::Html::parse_fragment(html);
    let e = doc.root_element();
    Ok(RawBlock {
        title: e.select(&t).next().map(|x| x.inner_html()),
        date: e.select(&d).next().map(|x| x.inner_html()),
        href: e.select(&l).next().and_then(|x| x.value().attr(attribute)).map(String::from),
    })
}

/// Relies on `scraper::Selector::parse` for the pattern,
/// `scraper::Html::parse_document` for the page, `select` and `inner_html`
/// for the markup of each match; with the `deterministic` feature the markup
/// depends on the page alone.
#[verifier::external_body]
fn extract_texts<'a>(page: &str, pattern: &'a str) -> (r: Result<
    Vec<String>,
    scraper::error::SelectorErrorKind<'a>,
>)
    ensures
        r matches Ok(v) ==> matched_texts(page@, pattern@) == Some(text_views(v@)),
        r is Err <==> matched_texts(page@, pattern@) is None,
        r is Err <==> !pattern_parses(pattern@),
{
    let s = scraper::Selector::parse(pattern)?;
    let doc = scraper::Html::parse_document(page);
    let texts = doc.select(&s).map(|e| e.inner_html());
    Ok(texts.collect())
}

fn owned(s: &str) -> (r: String)
    ensures
        r@ == s@,
{
    let mut r = String::new();
    push_chars(&mut r, &chars_of(s));
    r
}

impl Selectors {
    /// The patterns of the releases page, when every one of them parses.
    pub fn new() -> (r: Result<Selectors, ArticleError>)
        ensures
            r matches Ok(s) ==> s@ == page_patterns(),
            r matches Err(e) ==> e == ArticleError::InvalidSelector,
            r is Err <==> !patterns_parse(page_patterns()),
    {
        if pattern_ok(ARTICLE_PATTERN) && pattern_ok(TITLE_PATTERN) && pattern_ok(DATE_PATTERN)
            && pattern_ok(NOTES_LINK_PATTERN) {
            Ok(Selectors {
                article: owned(ARTICLE_PATTERN),
                title: owned(TITLE_PATTERN),
                date: owned(DATE_PATTERN),
                release_notes_short_url: owned(NOTES_LINK_PATTERN),
            })
        } else {
            Err(ArticleError::InvalidSelector)
        }
    }
}

/// The fields of a fragment that holds one announcement block.
pub fn read_block(html: &str) -> (r: Result<RawBlock, ArticleError>)
    ensures
        r matches Ok(b) ==> fragment_block(html@, page_patterns(), LINK_ATTRIBUTE@) == Some(b@),
        r matches Err(e) ==> e == ArticleError::InvalidSelector,
        r is Err <==> !patterns_parse(page_patterns()),
{
    let selectors = Selectors::new()?;
    let block = match extract_fragment_block(html, &selectors, LINK_ATTRIBUTE) {
        Ok(b) => Ok(b),
        Err(_) => Err(ArticleError::InvalidSelector),
    };
    block
}

/// The title markup of a block.
pub fn parse_article_title(block: &RawBlock) -> (r: Result<String, ArticleError>)
    ensures
        r matches Ok(t) ==> block@.0 == Some(t@),
        r matches Err(e) ==> e == ArticleError::MissingTitle,
        r is Err <==> block@.0 is None,
{
    match &block.title {
        Some(t) => Ok(owned(t.as_str())),
        None => Err(ArticleError::MissingTitle),
    }
}

/// The date of a block, read in the long form.
pub fn parse_article_date(block: &RawBlock) -> (r: Result<Date, ArticleError>)
    ensures
        block@.1 is None ==> r == Err::<Date, ArticleError>(ArticleError::MissingDate),
        block@.1 matches Some(text) ==> match r {
            Ok(d) => date_of_text(text) == Some(d@),
            Err(e) => e == ArticleError::DateParseFailure && date_of_text(text) is None,
        },
{
    match &block.date {
        None => Err(ArticleError::MissingDate),
        Some(text) => match Date::parse_long(text.as_str()) {
            Ok(d) => Ok(d),
            Err(_) => Err(ArticleError::DateParseFailure),
        },
    }
}

/// The target of a block's release-notes link, if it has one.
pub fn parse_release_notes_link(block: &RawBlock) -> (r: Option<String>)
    ensures
        opt_text(r) == block@.2,
{
    match &block.href {
        Some(h) => Some(owned(h.as_str())),
        None => None,
    }
}

/// The article that a block stands for, or why it stands for none.
pub open spec fn block_article(b: BlockView) -> Result<ArticleView, ArticleError> {
    match b.0 {
        None => Err(ArticleError::MissingTitle),
        Some(title) => match b.1 {
            None => Err(ArticleError::MissingDate),
            Some(date_text) => match assembled(title, date_text, b.2) {
                None => Err(ArticleError::DateParseFailure),
                Some(a) => Ok(a),
            },
        },
    }
}

/// The articles that a page's blocks stand for, in page order; blocks that
/// stand for none are skipped.
pub open spec fn page_articles(blocks: Seq<BlockView>) -> Seq<ArticleView>
    decreases blocks.len(),
{
    if blocks.len() == 0 {
        Seq::empty()
    } else {
        let init = page_articles(blocks.drop_last());
        match block_article(blocks.last()) {
            Ok(a) => init.push(a),
            Err(_) => init,
        }
    }
}

/// The article of one announcement block.
pub fn parse_article(block: &RawBlock) -> (r: Result<Article, ArticleError>)
    ensures
        r matches Ok(a) ==> block_article(block@) == Ok::<ArticleView, ArticleError>(a@),
        r matches Err(e) ==> block_article(block@) == Err::<ArticleView, ArticleError>(e),
{
    let title = parse_article_title(block)?;
    let date_text = match &block.date {
        Some(t) => t,
        None => return Err(ArticleError::MissingDate),
    };
    let href = parse_release_notes_link(block);
    Article::assemble(title, date_text.as_str(), href)
}

/// The articles of the releases page `content`, in page order: one for each
/// block with a title and a date in the long form.
pub fn parse_articles(content: String) -> (r: Result<Vec<Article>, ArticleError>)
    ensures
        r matches Ok(articles) ==> page_blocks(content@, page_patterns(), LINK_ATTRIBUTE@) matches Some(
            blocks,
        ) && article_views(articles@) == page_articles(blocks),
        r matches Err(e) ==> e == ArticleError::InvalidSelector,
        r is Err <==> !patterns_parse(page_patterns()),
{
    let selectors = Selectors::new()?;
    let blocks = match extract_page_blocks(content.as_str(), &selectors, LINK_ATTRIBUTE) {
        Ok(b) => b,
        Err(_) => return Err(ArticleError::InvalidSelector),
    };
    let ghost bs = block_views(blocks@);
    let mut articles: Vec<Article> = Vec::new();
    for i in 0..blocks.len()
        invariant
            bs == block_views(blocks@),
            article_views(articles@) == page_articles(bs.take(i as int)),
    {
        assert(bs.take(i + 1).drop_last() == bs.take(i as int));
        assert(bs.take(i + 1).last() == blocks@[i as int]@);
        let ghost before = articles@;
        match parse_article(&blocks[i]) {
            Ok(a) => {
                articles.push(a);
                assert(article_views(articles@) == article_views(before).push(a@));
            },
            Err(_) => {},
        }
    }
    assert(bs.take(blocks.len() as int) == bs);
    Ok(articles)
}

/// The final documentation link that a short link's page leads to: the
/// redirect of its fourth script, resolved and kept only on the vendor's
/// host.
pub fn unfurl_page(page: &str) -> (r: Option<String>)
    ensures
        opt_text(r) == match matched_texts(page@, SCRIPT_PATTERN@) {
            Some(texts) => if texts.len() > REDIRECT_SCRIPT_INDEX {
                unfurled_link(texts[REDIRECT_SCRIPT_INDEX as int])
            } else {
                None
            },
            None => None,
        },
{
    let scripts = match extract_texts(page, SCRIPT_PATTERN) {
        Ok(s) => s,
        Err(_) => return None,
    };
    if scripts.len() <= REDIRECT_SCRIPT_INDEX {
        return None;
    }
    assert(text_views(scripts@)[REDIRECT_SCRIPT_INDEX as int] == scripts@[REDIRECT_SCRIPT_INDEX as int]@);
    unfurl_link(scripts[REDIRECT_SCRIPT_INDEX].as_str())
}

} // verus!
