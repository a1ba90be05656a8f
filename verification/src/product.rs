//! Products: what the shop sells.

use vstd::prelude::*;

verus! {

/// What a product is, as plain mathematical values.
pub struct ProductView {
    pub code: Seq<char>,
    pub name: Seq<char>,
    pub unit_price: nat,
}

/// A product of the catalog: a code that identifies it, a display name and
/// the price of one unit, counted in the smallest unit of the currency.
///
/// A product never changes once it is made.
#[derive(Debug, PartialEq, Eq)]
pub struct Product {
    code: String,
    name: String,
    unit_price: u32,
}

impl View for Product {
    type V = ProductView;

    closed spec fn view(&self) -> ProductView {
        ProductView { code: self.code@, name: self.name@, unit_price: self.unit_price as nat }
    }
}

impl Clone for Product {
    fn clone(&self) -> (r: Self)
        ensures
            r@ == self@,
    {
        proof {
            use_type_invariant(self);
        }
        Product { code: self.code.clone(), name: self.name.clone(), unit_price: self.unit_price }
    }
}

impl Product {
    #[verifier::type_invariant]
    spec fn has_code(&self) -> bool {
        self.code@.len() > 0
    }

    /// Makes a product from its code, its name and its unit price. A product
    /// needs a code: with an empty one, none is made.
    pub fn new(code: String, name: String, unit_price: u32) -> (r: Option<Self>)
        ensures
            r is Some <==> code@.len() > 0,
            r is Some ==> r.unwrap()@ == (ProductView {
                code: code@,
                name: name@,
                unit_price: unit_price as nat,
            }),
    {
        if code.as_str().is_empty() {
            None
        } else {
            Some(Product { code, name, unit_price })
        }
    }

    /// The code that identifies the product. It is never empty.
    pub fn code(&self) -> (r: &str)
        ensures
            r@ == self@.code,
            r@.len() > 0,
    {
        proof {
            use_type_invariant(self);
        }
        self.code.as_str()
    }

    /// The display name.
    pub fn name(&self) -> (r: &str)
        ensures
            r@ == self@.name,
    {
        self.name.as_str()
    }

    /// The price of one unit.
    pub fn unit_price(&self) -> (r: u32)
        ensures
            r as nat == self@.unit_price,
    {
        self.unit_price
    }
}

} // verus!
