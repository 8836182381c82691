use apple_releases::article::{Article, ArticleError};
use apple_releases::date::Date;
use apple_releases::product::Product;
use apple_releases::version::{SemanticVersion, SoftwareRelease};

fn november_15() -> Date {
    Date::parse_long("November 15, 2022").unwrap()
}

#[test]
fn test_article_display() {
    let date = november_15();

    let article = Article {
        title: "iOS 16.2 beta 3 (20C5049e)".to_string(),
        software_release: None,
        date,
        release_notes_url: Some("https://developer.apple.com/go/?id=ios-16.2-rn".to_string()),
    };

    assert_eq!(
        article.to_string(),
        "2022-11-15 - iOS 16.2 beta 3 (20C5049e)"
    );
}

#[test]
fn test_article_display_software_release() {
    let title = "iOS 16.2 beta 3 (20C5049e)";
    let date = november_15();
    let release = SoftwareRelease::software_release(title.to_string()).unwrap();

    let article = Article {
        title: title.to_string(),
        software_release: Some(release),
        date,
        release_notes_url: Some("https://developer.apple.com/go/?id=ios-16.2-rn".to_string()),
    };

    assert_eq!(
        article.to_string(),
        "2022-11-15 - iOS 16.2 beta 3 (20C5049e)"
    );
}

#[test]
fn test_article_display_without_url() {
    let date = november_15();
    let article = Article {
        title: "App Store Connect 1.11".to_string(),
        software_release: None,
        date,
        release_notes_url: None,
    };

    assert_eq!(article.to_string(), "2022-11-15 - App Store Connect 1.11");
}

#[test]
fn render_release_without_suffixes() {
    let article = Article {
        title: "iOS 16.2".to_string(),
        software_release: Some(SoftwareRelease {
            product: Product::iOS,
            version: SemanticVersion {
                major: 16,
                minor: 2,
                patch: 0,
                pre: String::new(),
                build: String::new(),
            },
        }),
        date: Date::new(2022, 11, 15).unwrap(),
        release_notes_url: None,
    };
    assert_eq!(article.to_string(), "2022-11-15 - iOS 16.2");
}

#[test]
fn assemble_classifies_and_filters() {
    let a = Article::assemble(
        "Xcode 14 beta 5 (14A5294e)".to_string(),
        "August 8, 2022",
        Some("/go/?id=xcode-14-sdk-rn".to_string()),
    )
    .unwrap();
    assert_eq!(a.title, "Xcode 14 beta 5 (14A5294e)");
    assert_eq!(a.software_release.as_ref().unwrap().product, Product::Xcode);
    assert_eq!(a.date, Date::new(2022, 8, 8).unwrap());
    assert_eq!(
        a.release_notes_url.as_deref(),
        Some("https://developer.apple.com/go/?id=xcode-14-sdk-rn")
    );
    assert_eq!(a.to_string(), "2022-08-08 - Xcode 14 beta 5 (14A5294e)");

    let b = Article::assemble(
        "Transporter 1.2".to_string(),
        "August 8, 2022",
        Some("https://apps.apple.com/app/transporter/id1450874784".to_string()),
    )
    .unwrap();
    assert!(b.software_release.is_none());
    assert!(b.release_notes_url.is_none());
}

#[test]
fn assemble_rejects_bad_date() {
    let r = Article::assemble("iOS 16.2 (20C65)".to_string(), "2022-11-15", None);
    assert_eq!(r.unwrap_err(), ArticleError::DateParseFailure);
}

#[test]
fn listing_shows_releases_and_all_on_request() {
    let plain = Article {
        title: "App Store Connect 1.11".to_string(),
        software_release: None,
        date: Date::new(2022, 11, 15).unwrap(),
        release_notes_url: None,
    };
    let link = Some("https://developer.apple.com/documentation/x".to_string());
    assert_eq!(plain.listing_line(false, &None), None);
    assert_eq!(
        plain.listing_line(true, &link).as_deref(),
        Some("2022-11-15 - App Store Connect 1.11")
    );
    let release = Article {
        title: "iOS 16.2 (20C65)".to_string(),
        software_release: SoftwareRelease::software_release("iOS 16.2 (20C65)".to_string()),
        date: Date::new(2022, 12, 13).unwrap(),
        release_notes_url: None,
    };
    assert_eq!(
        release.listing_line(false, &None).as_deref(),
        Some("2022-12-13 - iOS 16.2 (20C65)")
    );
    assert_eq!(
        release.listing_line(false, &link).as_deref(),
        Some("2022-12-13 - iOS 16.2 (20C65) - https://developer.apple.com/documentation/x")
    );
}

#[test]
fn release_without_build_renders_stably() {
    let title = "iOS 16.2 beta (";
    let release = SoftwareRelease::software_release(title.to_string()).unwrap();
    assert_eq!(release.version.build, "");
    let date = Date::new(2022, 11, 15).unwrap();
    let first = Article {
        title: title.to_string(),
        software_release: Some(release),
        date,
        release_notes_url: None,
    }
    .to_string();
    assert_eq!(first, "2022-11-15 - iOS 16.2 beta");
    let rendered = "iOS 16.2 beta".to_string();
    let again = Article {
        title: rendered.clone(),
        software_release: SoftwareRelease::software_release(rendered),
        date: Date::new(2022, 11, 15).unwrap(),
        release_notes_url: None,
    };
    assert!(again.software_release.is_none());
    assert_eq!(again.to_string(), first);
}
