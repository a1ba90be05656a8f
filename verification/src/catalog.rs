//! The catalog: the products that are on offer.

use crate::product::{Product, ProductView};
use crate::text::same_text;
use vstd::prelude::*;

verus! {

/// The views of a sequence of products, in the same order.
pub open spec fn product_views(products: Seq<Product>) -> Seq<ProductView> {
    Seq::new(products.len(), |i: int| products[i]@)
}

/// The products without those that have the given code.
pub open spec fn without_product(products: Seq<ProductView>, code: Seq<char>) -> Seq<ProductView> {
    products.filter(|product: ProductView| product.code != code)
}

/// Whether some product has the given code.
pub open spec fn offers(products: Seq<ProductView>, code: Seq<char>) -> bool {
    exists|i: int| 0 <= i < products.len() && (#[trigger] products[i]).code == code
}

/// Removing a code that no product has leaves the products as they are, and
/// once a code is removed, no product has it.
pub proof fn lemma_without_product(products: Seq<ProductView>, code: Seq<char>)
    ensures
        !offers(products, code) ==> without_product(products, code) == products,
        !offers(without_product(products, code), code),
    decreases products.len(),
{
    reveal(Seq::filter);
    let differs = |product: ProductView| product.code != code;
    let rest = without_product(products, code);
    if offers(rest, code) {
        let k = choose|k: int| 0 <= k < rest.len() && (#[trigger] rest[k]).code == code;
        products.lemma_filter_pred(differs, k);
    }
    if products.len() > 0 && !offers(products, code) {
        let front = products.drop_last();
        lemma_without_product(front, code);
    }
}

/// The product that a shopper picks by its number in the list, where the
/// first product has number 1.
pub open spec fn selected(products: Seq<ProductView>, number: int) -> Option<ProductView> {
    if 1 <= number <= products.len() {
        Some(products[number - 1])
    } else {
        None
    }
}

/// The products on offer, in the order in which they were added. The
/// catalog takes what it is given: it may hold several products with one
/// code, and removing a code removes them all.
#[derive(Debug, PartialEq, Eq)]
pub struct Catalog {
    products: Vec<Product>,
}

impl View for Catalog {
    type V = Seq<ProductView>;

    closed spec fn view(&self) -> Seq<ProductView> {
        product_views(self.products@)
    }
}

impl Default for Catalog {
    fn default() -> (r: Self)
        ensures
            r@ == Seq::<ProductView>::empty(),
    {
        Catalog::new()
    }
}

impl Catalog {
    /// A catalog without products.
    pub fn new() -> (r: Self)
        ensures
            r@ == Seq::<ProductView>::empty(),
    {
        let r = Catalog { products: Vec::new() };
        r
    }

    /// A catalog of the given products.
    pub fn from_products(products: Vec<Product>) -> (r: Self)
        ensures
            r@ == product_views(products@),
    {
        Catalog { products }
    }

    /// A copy of the products, in order.
    pub fn clone_products(&self) -> (r: Vec<Product>)
        ensures
            product_views(r@) == self@,
    {
        let mut copy: Vec<Product> = Vec::new();
        let mut i: usize = 0;
        while i < self.products.len()
            invariant
                i <= self.products.len(),
                product_views(copy@) == self@.take(i as int),
            decreases self.products.len() - i,
        {
            let one = self.products[i].clone();
            copy.push(one);
            proof {
                assert(self@.take(i as int + 1) =~= self@.take(i as int).push(
                    self.products@[i as int]@,
                ));
            }
            i += 1;
        }
        copy
    }

    /// Adds a product at the end, whatever the catalog holds already.
    pub fn add_product(&mut self, product: Product)
        ensures
            final(self)@ == old(self)@.push(product@),
    {
        self.products.push(product);
    }

    /// Removes every product that has the given code. A catalog without such
    /// a product stays as it is.
    pub fn remove_product(&mut self, code: &str)
        ensures
            final(self)@ == without_product(old(self)@, code@),
            !offers(old(self)@, code@) ==> final(self)@ == old(self)@,
            !offers(final(self)@, code@),
    {
        let ghost before = self@;
        let ghost differs = |product: ProductView| product.code != code@;
        let ghost done: int = 0;
        let mut at: usize = 0;
        while at < self.products.len()
            invariant
                at <= self.products.len(),
                0 <= done <= before.len(),
                self.products.len() - at == before.len() - done,
                differs == |product: ProductView| product.code != code@,
                self@.take(at as int) == before.take(done).filter(differs),
                self@.skip(at as int) == before.skip(done),
            decreases self.products.len() - at,
        {
            let ghost views = self@;
            proof {
                assert(views[at as int] == views.skip(at as int)[0]);
                assert(before.take(done + 1) =~= before.take(done).push(before[done]));
                before.take(done).lemma_filter_push(before[done], differs);
                assert(before.skip(done).skip(1) =~= before.skip(done + 1));
            }
            if same_text(self.products[at].code(), code) {
                self.products.remove(at);
            } else {
                at += 1;
            }
            proof {
                done = done + 1;
            }
        }
        proof {
            assert(self@.take(at as int) =~= self@);
            assert(before.take(done) =~= before);
            lemma_without_product(before, code@);
        }
    }

    /// The products, in order.
    pub fn products(&self) -> (r: &[Product])
        ensures
            product_views(r@) == self@,
    {
        self.products.as_slice()
    }

    /// The product with the given number in the list, counted from 1.
    pub fn select(&self, number: usize) -> (r: Option<&Product>)
        ensures
            match r {
                Some(product) => selected(self@, number as int) == Some(product@),
                None => selected(self@, number as int) is None,
            },
    {
        if 1 <= number && number <= self.products.len() {
            Some(&self.products[number - 1])
        } else {
            None
        }
    }
}

} // verus!
