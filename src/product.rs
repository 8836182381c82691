//! The closed catalog of product families that release titles name.

use crate::text::{chars_of, push_chars, same_chars};
use vstd::prelude::*;

verus! {

/// A product family whose releases carry a structured version.
#[allow(non_camel_case_types)]
#[derive(Debug, Clone, Copy, PartialEq, Eq, Structural)]
pub enum Product {
    iOS,
    iPadOS,
    macOS,
    tvOS,
    visionOS,
    watchOS,
    Xcode,
}

/// The leading word of a title that has no entry in the catalog.
#[derive(Debug, Clone, Copy, PartialEq, Eq, Structural)]
pub struct UnknownProduct;

/// The exact name under which a product appears in titles.
pub open spec fn name_of(p: Product) -> Seq<char> {
    match p {
        Product::iOS => seq!['i', 'O', 'S'],
        Product::iPadOS => seq!['i', 'P', 'a', 'd', 'O', 'S'],
        Product::macOS => seq!['m', 'a', 'c', 'O', 'S'],
        Product::tvOS => seq!['t', 'v', 'O', 'S'],
        Product::visionOS => seq!['v', 'i', 's', 'i', 'o', 'n', 'O', 'S'],
        Product::watchOS => seq!['w', 'a', 't', 'c', 'h', 'O', 'S'],
        Product::Xcode => seq!['X', 'c', 'o', 'd', 'e'],
    }
}

/// The product whose name is exactly `s`, if any: no case folding, no
/// prefixes, no aliases.
pub open spec fn product_named(s: Seq<char>) -> Option<Product> {
    if s == name_of(Product::iOS) {
        Some(Product::iOS)
    } else if s == name_of(Product::iPadOS) {
        Some(Product::iPadOS)
    } else if s == name_of(Product::macOS) {
        Some(Product::macOS)
    } else if s == name_of(Product::tvOS) {
        Some(Product::tvOS)
    } else if s == name_of(Product::visionOS) {
        Some(Product::visionOS)
    } else if s == name_of(Product::watchOS) {
        Some(Product::watchOS)
    } else if s == name_of(Product::Xcode) {
        Some(Product::Xcode)
    } else {
        None
    }
}

/// Every product is found again under its own name.
pub proof fn lemma_name_round_trip(p: Product)
    ensures
        product_named(name_of(p)) == Some(p),
{
    match p {
        Product::iOS => {},
        Product::iPadOS => {
            assert(name_of(p) != name_of(Product::iOS));
        },
        Product::macOS => {
            assert(name_of(p) != name_of(Product::iOS));
            assert(name_of(p) != name_of(Product::iPadOS));
        },
        Product::tvOS => {
            assert(name_of(p) != name_of(Product::iOS));
            assert(name_of(p) != name_of(Product::iPadOS));
            assert(name_of(p) != name_of(Product::macOS));
        },
        Product::visionOS => {
            assert(name_of(p) != name_of(Product::iOS));
            assert(name_of(p) != name_of(Product::iPadOS));
            assert(name_of(p) != name_of(Product::macOS));
            assert(name_of(p) != name_of(Product::tvOS));
        },
        Product::watchOS => {
            assert(name_of(p) != name_of(Product::iOS));
            assert(name_of(p) != name_of(Product::iPadOS));
            assert(name_of(p) != name_of(Product::macOS));
            assert(name_of(p) != name_of(Product::tvOS));
            assert(name_of(p) != name_of(Product::visionOS));
        },
        Product::Xcode => {
            assert(name_of(p) != name_of(Product::iOS));
            assert(name_of(p) != name_of(Product::iPadOS));
            assert(name_of(p) != name_of(Product::macOS));
            assert(name_of(p) != name_of(Product::tvOS));
            assert(name_of(p) != name_of(Product::visionOS));
            assert(name_of(p) != name_of(Product::watchOS));
        },
    }
}

impl Product {
    /// Every product of the catalog, in declaration order.
    fn all() -> (r: Vec<Product>)
        ensures
            r@ == seq![
                Product::iOS,
                Product::iPadOS,
                Product::macOS,
                Product::tvOS,
                Product::visionOS,
                Product::watchOS,
                Product::Xcode,
            ],
    {
        vec![
            Product::iOS,
            Product::iPadOS,
            Product::macOS,
            Product::tvOS,
            Product::visionOS,
            Product::watchOS,
            Product::Xcode,
        ]
    }

    /// The characters of the product's name.
    pub fn name_chars(&self) -> (r: Vec<char>)
        ensures
            r@ == name_of(*self),
    {
        let r = match self {
            Product::iOS => vec!['i', 'O', 'S'],
            Product::iPadOS => vec!['i', 'P', 'a', 'd', 'O', 'S'],
            Product::macOS => vec!['m', 'a', 'c', 'O', 'S'],
            Product::tvOS => vec!['t', 'v', 'O', 'S'],
            Product::visionOS => vec!['v', 'i', 's', 'i', 'o', 'n', 'O', 'S'],
            Product::watchOS => vec!['w', 'a', 't', 'c', 'h', 'O', 'S'],
            Product::Xcode => vec!['X', 'c', 'o', 'd', 'e'],
        };
        assert(r@ == name_of(*self));
        r
    }

    /// The product's name, as titles and rendered lines spell it.
    pub fn name(&self) -> (r: String)
        ensures
            r@ == name_of(*self),
    {
        let mut r = String::new();
        push_chars(&mut r, &self.name_chars());
        r
    }

    /// Looks up the product named exactly by `token`.
    pub fn from_chars(token: &Vec<char>) -> (r: Option<Product>)
        ensures
            r == product_named(token@),
    {
        let all = Product::all();
        for i in 0..all.len()
            invariant
                all@ == seq![
                    Product::iOS,
                    Product::iPadOS,
                    Product::macOS,
                    Product::tvOS,
                    Product::visionOS,
                    Product::watchOS,
                    Product::Xcode,
                ],
                forall|j: int| 0 <= j < i ==> token@ != name_of(#[trigger] all@[j]),
        {
            let p = all[i];
            if same_chars(token, &p.name_chars()) {
                return Some(p);
            }
        }
        assert(token@ != name_of(all@[6]));
        assert(token@ != name_of(all@[5]));
        assert(token@ != name_of(all@[4]));
        assert(token@ != name_of(all@[3]));
        assert(token@ != name_of(all@[2]));
        assert(token@ != name_of(all@[1]));
        assert(token@ != name_of(all@[0]));
        None
    }

    /// Looks up the product named exactly by `token`.
    pub fn lookup(token: &str) -> (r: Result<Product, UnknownProduct>)
        ensures
            r matches Ok(p) ==> product_named(token@) == Some(p),
            r is Err <==> product_named(token@) is None,
    {
        match Product::from_chars(&chars_of(token)) {
            Some(p) => Ok(p),
            None => Err(UnknownProduct),
        }
    }
}

impl std::str::FromStr for Product {
    type Err = ();

    fn from_str(s: &str) -> Result<Product, ()> {
        match Product::lookup(s) {
            Ok(p) => Ok(p),
            Err(_) => Err(()),
        }
    }
}

} // verus!
