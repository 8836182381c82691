use apple_releases::product::{Product, UnknownProduct};

#[test]
fn parse_product_existing_variants() {
    assert_eq!(Product::iOS, "iOS".parse().unwrap());
    assert_eq!(Product::macOS, "macOS".parse().unwrap());
    assert_eq!(Product::tvOS, "tvOS".parse().unwrap());
    assert_eq!(Product::visionOS, "visionOS".parse().unwrap());
    assert_eq!(Product::watchOS, "watchOS".parse().unwrap());
    assert_eq!(Product::Xcode, "Xcode".parse().unwrap());
}

#[test]
fn parse_product_nonexistent_variant() {
    let result = "blah".parse::<Product>();
    assert!(result.is_err());
    assert_eq!(result.unwrap_err(), ());
}

#[test]
fn lookup_is_exact() {
    assert_eq!(Product::lookup("iPadOS"), Ok(Product::iPadOS));
    assert_eq!(Product::lookup("ios"), Err(UnknownProduct));
    assert_eq!(Product::lookup("iOS "), Err(UnknownProduct));
    assert_eq!(Product::lookup("iO"), Err(UnknownProduct));
    assert_eq!(Product::lookup(""), Err(UnknownProduct));
    assert_eq!(Product::lookup("XcodeX"), Err(UnknownProduct));
}

#[test]
fn names_read_back() {
    let all = [
        Product::iOS,
        Product::iPadOS,
        Product::macOS,
        Product::tvOS,
        Product::visionOS,
        Product::watchOS,
        Product::Xcode,
    ];
    for p in all {
        assert_eq!(Product::lookup(&p.name()), Ok(p));
    }
    assert_eq!(Product::visionOS.name(), "visionOS");
}
