use apple_releases::article::ArticleError;
use apple_releases::date::Date;
use apple_releases::parse::{
    parse_article, parse_article_date, parse_article_title, parse_articles,
    parse_release_notes_link, read_block, unfurl_page, RawBlock, Selectors,
};
use apple_releases::product::Product;
use scraper::{Html, Selector};

#[test]
fn test_parse() {
    let html = r###"
<section class="article-content-container column large-9 medium-9 small-12 no-padding-left padding-right-small padding-top padding-bottom-small divider-top">
    <a class="article-title external-link" href="/download/"><h2>Xcode 14 beta 5 (14A5294e)</h2></a>
    <div class="article-text-wrapper">
        <p class="lighter  article-date">August 8, 2022</p>
        <span class="article-text">
            <p> <a href="/download/applications" class="more">View downloads</a></p>
            <il>
                <p><a href="/go/?id=xcode-14-sdk-rn" class="more">View release notes</a></p>
            </il>
        </span>
    </div>
    <section class="social-share-container">
        <ul class="sharesheet-options">
            <li class="social-option">
                <button class="icon icon-facebook social-icon" data-href="https://developer.apple.com/news/releases/?id=08082022a" data-share-type="facebook" aria-label="Share via Facebook"> </button>
            </li>
            <li class="social-option">
                <button class="icon icon-twitter social-icon" data-href="https://developer.apple.com/news/releases/?id=08082022a" data-share-type="twitter" aria-label="Share via Twitter"></button>
            </li>
            <li class="social-option">
                <button class="icon icon-mail social-icon" data-href="https://developer.apple.com/news/releases/?id=08082022a" data-share-type="mail" data-title="Xcode 14 beta 5 (14A5294e) - Releases - Apple Developer" data-description="https://developer.apple.com/news/releases/?id=08082022a" aria-label="Share via mail"></button>
            </li>
            <li class="social-option">
                <button class="icon icon-link social-icon" data-href="https://developer.apple.com/news/releases/?id=08082022a" data-share-type="copy" data-copy-title="Copied to clipboard" aria-label="Share via link"></button>
            </li>
        </ul>
    </section>
</section>
    "###.to_string();

    let articles = parse_articles(html).expect("Err collecting articles");
    assert_eq!(articles.len(), 1);
}

#[test]
fn test_parse_title() {
    let html = r###"
    <a class="article-title external-link" href="/download/"><h2>Xcode 14 beta 5 (14A5294e)</h2></a>
    "###
    .to_string();

    let fragment = Html::parse_fragment(&html);

    // test parsing using local selector
    let selector = Selector::parse(r#"a.article-title h2"#).unwrap();
    let element = fragment.select(&selector).next().unwrap();
    println!("{}", element.inner_html());

    let block = read_block(&html).unwrap();
    let title = parse_article_title(&block).unwrap();

    assert_eq!(title, "Xcode 14 beta 5 (14A5294e)");
}

#[test]
fn test_parse_date() {
    let html = r###"
        <p class="lighter  article-date">August 8, 2022</p>
    "###
    .to_string();

    let fragment = Html::parse_fragment(&html);

    // test parsing using local selector
    let selector = Selector::parse(r#"p.article-date"#).unwrap();
    let element = fragment.select(&selector).next().unwrap();
    println!("{}", element.inner_html());

    let block = read_block(&html).unwrap();
    let date = parse_article_date(&block).unwrap();
    let expected_date = Date::parse_long("August 8, 2022").unwrap();

    assert_eq!(date, expected_date);
}

#[test]
fn test_parse_release_notes_link() {
    let html = r###"
        <span class="article-text">
            <ul class="links-stacked">
                <li><a href="/download/applications" class="more">View downloads</a></li>
                <li><a href="/go/?id=xcode-16_1-sdk-rn" class="more">View release notes</a></li>
            </ul>
        </span>
    "###
    .to_string();

    let fragment = Html::parse_fragment(&html);

    // test parsing using local selector
    let selector = Selector::parse(r#"span.article-text ul.links-stacked li:nth-child(2) a.more"#).unwrap();
    let element = fragment.select(&selector).next().unwrap().value();
    println!("{}", element.attr("href").unwrap());

    let block = read_block(&html).unwrap();
    let notes_url = parse_release_notes_link(&block).unwrap();

    assert_eq!(notes_url, "/go/?id=xcode-16_1-sdk-rn");
}

#[test]
fn blocks_are_assembled_and_bad_ones_skipped() {
    let html = r###"
<section class="article-content-container">
    <a class="article-title"><h2>iOS 16.2 beta 3 (20C5049e)</h2></a>
    <p class="article-date">November 15, 2022</p>
    <span class="article-text"><ul class="links-stacked">
        <li><a href="/download" class="more">Downloads</a></li>
        <li><a href="/go/?id=ios-16.2-rn" class="more">Notes</a></li>
    </ul></span>
</section>
<section class="article-content-container">
    <a class="article-title"><h2>Transporter 1.2</h2></a>
    <p class="article-date">November 16, 2022</p>
    <span class="article-text"><ul class="links-stacked">
        <li><a href="/download" class="more">Downloads</a></li>
        <li><a href="https://apps.apple.com/app/id1450874784" class="more">Store</a></li>
    </ul></span>
</section>
<section class="article-content-container">
    <a class="article-title"><h2>macOS 13.1 (22C65)</h2></a>
    <p class="article-date">sometime in December</p>
</section>
<section class="article-content-container">
    <p class="article-date">December 13, 2022</p>
</section>
    "###
    .to_string();

    let articles = parse_articles(html).unwrap();
    assert_eq!(articles.len(), 2);
    assert_eq!(articles[0].software_release.as_ref().unwrap().product, Product::iOS);
    assert_eq!(
        articles[0].release_notes_url.as_deref(),
        Some("https://developer.apple.com/go/?id=ios-16.2-rn")
    );
    assert_eq!(articles[0].to_string(), "2022-11-15 - iOS 16.2 beta 3 (20C5049e)");
    assert!(articles[1].software_release.is_none());
    assert!(articles[1].release_notes_url.is_none());
    assert_eq!(articles[1].to_string(), "2022-11-16 - Transporter 1.2");
}

#[test]
fn unfurl_reads_fourth_script() {
    let page = r###"<html><head>
<script>var a = 1;</script>
<script>location.replace('/wrong');</script>
<script>var c = 3;</script>
<script>window.location.replace('/documentation/ios-ipados-release-notes');</script>
</head><body></body></html>"###;
    assert_eq!(
        unfurl_page(page).as_deref(),
        Some("https://developer.apple.com/documentation/ios-ipados-release-notes")
    );
    assert_eq!(unfurl_page("<html><script>location.replace('/x');</script></html>"), None);
}

#[test]
fn missing_fields_are_reported() {
    let block = read_block("<p class=\"article-date\">late 2022</p>").unwrap();
    assert_eq!(parse_article_title(&block), Err(ArticleError::MissingTitle));
    assert_eq!(parse_article_date(&block), Err(ArticleError::DateParseFailure));
    let empty = read_block("<div></div>").unwrap();
    assert_eq!(empty, RawBlock { title: None, date: None, href: None });
    assert_eq!(parse_article_date(&empty), Err(ArticleError::MissingDate));
    assert_eq!(parse_release_notes_link(&empty), None);
}

#[test]
fn block_errors_come_in_field_order() {
    let no_title = RawBlock {
        title: None,
        date: Some("August 8, 2022".to_string()),
        href: None,
    };
    assert_eq!(parse_article(&no_title).unwrap_err(), ArticleError::MissingTitle);
    let no_date = RawBlock {
        title: Some("iOS 16.2 (20C65)".to_string()),
        date: None,
        href: None,
    };
    assert_eq!(parse_article(&no_date).unwrap_err(), ArticleError::MissingDate);
    let short_date = RawBlock {
        title: Some("iOS 16.2 (20C65)".to_string()),
        date: Some("Aug 8, 22".to_string()),
        href: None,
    };
    assert_eq!(parse_article(&short_date).unwrap_err(), ArticleError::DateParseFailure);
    let good = RawBlock {
        title: Some("iOS 16.2 (20C65)".to_string()),
        date: Some("December 13, 2022".to_string()),
        href: Some("/go/?id=ios-16.2-rn".to_string()),
    };
    let a = parse_article(&good).unwrap();
    assert_eq!(a.to_string(), "2022-12-13 - iOS 16.2 (20C65)");
    assert_eq!(
        a.release_notes_url.as_deref(),
        Some("https://developer.apple.com/go/?id=ios-16.2-rn")
    );
}

#[test]
fn page_patterns_parse() {
    let s = Selectors::new().unwrap();
    assert_eq!(s.article, "section.article-content-container");
    assert_eq!(s.title, "a.article-title h2");
}

#[test]
fn attribute_order_is_kept_in_markup() {
    let block = read_block(
        "<a class=\"article-title\"><h2><span class=\"a\" id=\"b\" title=\"c\">x</span></h2></a>",
    )
    .unwrap();
    assert_eq!(
        block.title.as_deref(),
        Some("<span class=\"a\" id=\"b\" title=\"c\">x</span>")
    );
}

#[test]
fn off_vendor_link_in_page_is_absent() {
    let html = r###"
<section class="article-content-container">
    <a class="article-title"><h2>Xcode 14 beta 5 (14A5294e)</h2></a>
    <p class="article-date">August 8, 2022</p>
    <span class="article-text"><ul class="links-stacked">
        <li><a href="/download" class="more">Downloads</a></li>
        <li><a href="https://apps.apple.com/us/app/transporter/id1450874784" class="more">Store</a></li>
    </ul></span>
</section>"###
        .to_string();
    let articles = parse_articles(html).unwrap();
    assert_eq!(articles.len(), 1);
    assert!(articles[0].release_notes_url.is_none());
}
