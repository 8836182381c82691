use apple_releases::product::Product;
use apple_releases::version::{title_literal, SemanticVersion, SoftwareRelease};

#[test]
fn test_semver_prerelease_parsing() {
    // iOS 16.2 beta 4 (20C5058d)
    let version_string = "16.2-beta.4+20C5058d";
    let version = lenient_semver::parse(version_string).unwrap();
    assert_eq!(version.major, 16);
    assert_eq!(version.minor, 2);
    assert_eq!(version.patch, 0);
    assert_eq!(version.pre, semver::Prerelease::new("beta.4").unwrap());
    assert_eq!(
        version.build,
        semver::BuildMetadata::new("20C5058d").unwrap()
    );
}

#[test]
fn test_software_prerelease() {
    let title = "iOS 16.2 beta 3 (20C5049e)";
    let release = SoftwareRelease::software_release(title.into()).unwrap();

    assert_eq!(release.product, Product::iOS);
    assert_eq!(release.version.major, 16);
    assert_eq!(release.version.minor, 2);
    assert_eq!(release.version.patch, 0);
    assert_eq!(release.version.pre, "beta-3");
    assert_eq!(release.version.build, "20C5049e");
    assert_eq!(release.version.to_string(), "16.2.0-beta-3+20C5049e");
}

#[test]
fn software_release_test_software_release() {
    let title = "iOS 16.1.2 (20B110)";
    let release = SoftwareRelease::software_release(title.into()).unwrap();

    assert_eq!(release.product, Product::iOS);
    assert_eq!(release.version.major, 16);
    assert_eq!(release.version.minor, 1);
    assert_eq!(release.version.patch, 2);
    assert_eq!(release.version.pre, "");
    assert_eq!(release.version.build, "20B110");
    assert_eq!(release.version.to_string(), "16.1.2+20B110");
}

#[test]
fn parse_test_software_release() {
    let title = String::from("Xcode 14 beta 5 (14A5294e)");
    let release = SoftwareRelease::software_release(title).unwrap();

    assert_eq!(release.product, Product::Xcode);

    let expected_version = SemanticVersion {
        major: 14,
        minor: 0,
        patch: 0,
        pre: "beta-5".to_string(),
        build: "14A5294e".to_string(),
    };
    assert_eq!(release.version, expected_version);
}

#[test]
fn unknown_product_is_no_release() {
    assert!(SoftwareRelease::software_release("blah 1.0".to_string()).is_none());
    assert!(title_literal("blah 1.0").is_none());
}

#[test]
fn exhausted_words_are_no_release() {
    assert!(SoftwareRelease::software_release("".to_string()).is_none());
    assert!(SoftwareRelease::software_release("iOS".to_string()).is_none());
    assert!(SoftwareRelease::software_release("iOS 16.2".to_string()).is_none());
    assert!(SoftwareRelease::software_release("iOS 16.2 beta 3".to_string()).is_none());
}

#[test]
fn literal_of_prerelease_title() {
    let (p, lit) = title_literal("iOS 16.2 beta 3 (20C5049e)").unwrap();
    assert_eq!(p, Product::iOS);
    assert_eq!(lit, "16.2-beta-3+20C5049e");
}

#[test]
fn literal_of_patch_title() {
    let (p, lit) = title_literal("iOS 16.1.2 (20B110)").unwrap();
    assert_eq!(p, Product::iOS);
    assert_eq!(lit, "16.1.2+20B110");
}

#[test]
fn literal_without_closing_parenthesis() {
    let (_, lit) = title_literal("macOS 13.1 (22C65").unwrap();
    assert_eq!(lit, "13.1+22C65");
}

#[test]
fn literal_crops_at_last_closing_parenthesis() {
    let (_, lit) = title_literal("tvOS 16.2 (20K)x)").unwrap();
    assert_eq!(lit, "16.2+20Kx");
}

#[test]
fn literal_folds_text_before_parenthesis() {
    let (_, lit) = title_literal("watchOS 9.2 beta(20S5)").unwrap();
    assert_eq!(lit, "9.2-beta+20S5");
}

#[test]
fn literal_with_bare_parenthesis_has_no_build() {
    let (_, lit) = title_literal("iOS 16.2 beta (").unwrap();
    assert_eq!(lit, "16.2-beta");
}

#[test]
fn literal_keeps_empty_words() {
    let (_, lit) = title_literal("iOS 16.2  rc (1)").unwrap();
    assert_eq!(lit, "16.2--rc+1");
}

#[test]
fn major_only_title() {
    let release = SoftwareRelease::software_release("Xcode 14 (14A309)".to_string()).unwrap();
    assert_eq!(release.version.major, 14);
    assert_eq!(release.version.minor, 0);
    assert_eq!(release.version.patch, 0);
    assert_eq!(release.version.build, "14A309");
    assert_eq!(release.version.display(), "14 (14A309)");
}

#[test]
fn display_drops_trailing_zeros() {
    let v = SemanticVersion {
        major: 16,
        minor: 0,
        patch: 1,
        pre: String::new(),
        build: String::new(),
    };
    assert_eq!(v.display(), "16.0.1");
    assert_eq!(v.to_string(), "16.0.1");
    let w = SemanticVersion {
        major: 7,
        minor: 10,
        patch: 0,
        pre: "release-candidate-2".to_string(),
        build: "b.7".to_string(),
    };
    assert_eq!(w.display(), "7.10 release candidate 2 (b.7)");
    assert_eq!(w.to_string(), "7.10.0-release-candidate-2+b.7");
}

#[test]
fn rendered_release_reads_back() {
    let title = "iOS 16.2 beta 3 (20C5049e)";
    let release = SoftwareRelease::software_release(title.to_string()).unwrap();
    let rendered = format!("{} {}", release.product.name(), release.version.display());
    let again = SoftwareRelease::software_release(rendered.clone()).unwrap();
    assert_eq!(again, release);
    assert_eq!(
        format!("{} {}", again.product.name(), again.version.display()),
        rendered
    );
}
