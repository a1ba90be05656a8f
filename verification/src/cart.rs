//! Order items and the cart that collects them.

use crate::find::{first_match, lemma_first_match, lemma_first_match_is};
use crate::product::{Product, ProductView};
use crate::text::same_text;
use vstd::prelude::*;

verus! {

/// An order item as plain mathematical values.
pub struct ItemView {
    pub product: ProductView,
    pub quantity: int,
}

/// A product as it was when it was chosen, with how much of it is wanted.
///
/// The product is held by value, so that later changes to the catalog do not
/// reach items that are already in a cart or an order. The quantity is a
/// signed count of the smallest amount the shop trades in.
#[derive(Debug, PartialEq, Eq)]
pub struct OrderItem {
    product: Product,
    quantity: i32,
}

impl View for OrderItem {
    type V = ItemView;

    closed spec fn view(&self) -> ItemView {
        ItemView { product: self.product@, quantity: self.quantity as int }
    }
}

impl Clone for OrderItem {
    fn clone(&self) -> (r: Self)
        ensures
            r@ == self@,
    {
        OrderItem { product: self.product.clone(), quantity: self.quantity }
    }
}

/// The views of a sequence of items, in the same order.
pub open spec fn item_views(items: Seq<OrderItem>) -> Seq<ItemView> {
    Seq::new(items.len(), |i: int| items[i]@)
}

/// What one item costs: its quantity times the price of a unit.
pub open spec fn item_cost(item: ItemView) -> int {
    item.quantity * item.product.unit_price
}

/// The sum of the costs of all the items.
pub open spec fn total_cost(items: Seq<ItemView>) -> int
    decreases items.len(),
{
    if items.len() == 0 {
        0
    } else {
        total_cost(items.drop_last()) + item_cost(items.last())
    }
}

/// The condition that an item has the given code.
pub open spec fn has_code(code: Seq<char>) -> spec_fn(ItemView) -> bool {
    |item: ItemView| item.product.code == code
}

/// The first position whose item has the given code, or the length of the
/// sequence if no item has it.
pub open spec fn position(items: Seq<ItemView>, code: Seq<char>) -> int {
    first_match(items, has_code(code))
}

/// Whether some item has the given code.
pub open spec fn holds(items: Seq<ItemView>, code: Seq<char>) -> bool {
    position(items, code) < items.len()
}

/// The quantity held of the given code: that of its first item, or zero.
pub open spec fn quantity_of(items: Seq<ItemView>, code: Seq<char>) -> int {
    if holds(items, code) {
        items[position(items, code)].quantity
    } else {
        0
    }
}

/// How many items have the given code.
pub open spec fn count_of(items: Seq<ItemView>, code: Seq<char>) -> nat {
    items.filter(has_code(code)).len()
}

/// No two items have the same code.
pub open spec fn distinct_codes(items: Seq<ItemView>) -> bool {
    forall|i: int, j: int|
        0 <= i < j < items.len() ==> (#[trigger] items[i]).product.code != (
        #[trigger] items[j]).product.code
}

/// Whether a quantity can be recorded in an item.
pub open spec fn recordable(quantity: int) -> bool {
    i32::MIN <= quantity <= i32::MAX
}

/// Whether the items can take `quantity` more of the given code: the sum
/// with what is held of it, which is zero for a new code, must be recordable.
pub open spec fn can_take(items: Seq<ItemView>, code: Seq<char>, quantity: int) -> bool {
    recordable(quantity_of(items, code) + quantity)
}

/// The items after `quantity` of `product` was added: the item that has the
/// product's code keeps its own snapshot and gains the quantity; if there is
/// none, a new item with the product as it is now goes to the end.
pub open spec fn with_added(items: Seq<ItemView>, product: ProductView, quantity: int) -> Seq<
    ItemView,
> {
    if holds(items, product.code) {
        let at = position(items, product.code);
        items.update(
            at,
            ItemView { product: items[at].product, quantity: items[at].quantity + quantity },
        )
    } else {
        items.push(ItemView { product, quantity })
    }
}

/// The items without those that have the given code.
pub open spec fn without(items: Seq<ItemView>, code: Seq<char>) -> Seq<ItemView> {
    items.filter(|item: ItemView| item.product.code != code)
}

/// Removing a code that no item has leaves the items as they are.
pub proof fn lemma_without_absent(items: Seq<ItemView>, code: Seq<char>)
    requires
        !holds(items, code),
    ensures
        without(items, code) == items,
    decreases items.len(),
{
    reveal(Seq::filter);
    lemma_first_match(items, has_code(code));
    if items.len() > 0 {
        let front = items.drop_last();
        lemma_first_match_is(front, has_code(code), front.len() as int);
        lemma_without_absent(front, code);
    }
}

/// Adding to items with distinct codes leaves the codes distinct.
pub proof fn lemma_with_added_distinct(items: Seq<ItemView>, product: ProductView, quantity: int)
    requires
        distinct_codes(items),
    ensures
        distinct_codes(with_added(items, product, quantity)),
{
    lemma_first_match(items, has_code(product.code));
}

/// Removing a code from items with distinct codes leaves the codes distinct.
pub proof fn lemma_without_distinct(items: Seq<ItemView>, code: Seq<char>)
    requires
        distinct_codes(items),
    ensures
        distinct_codes(without(items, code)),
    decreases items.len(),
{
    reveal(Seq::filter);
    let differs = |item: ItemView| item.product.code != code;
    if items.len() > 0 {
        let front = items.drop_last();
        lemma_without_distinct(front, code);
        let kept = front.filter(differs);
        let after = without(items, code);
        if differs(items.last()) {
            assert forall|i: int, j: int| 0 <= i < j < after.len() implies (
            #[trigger] after[i]).product.code != (#[trigger] after[j]).product.code by {
                if j == kept.len() {
                    front.lemma_filter_contains_rev(differs, kept[i]);
                }
            }
        }
    }
}

impl OrderItem {
    /// An item of `quantity` of the given product.
    pub fn new(product: Product, quantity: i32) -> (r: Self)
        ensures
            r@ == (ItemView { product: product@, quantity: quantity as int }),
    {
        OrderItem { product, quantity }
    }

    /// The product as it was when the item was made.
    pub fn product(&self) -> (r: &Product)
        ensures
            r@ == self@.product,
    {
        &self.product
    }

    /// The display name of the product.
    pub fn name(&self) -> (r: &str)
        ensures
            r@ == self@.product.name,
    {
        self.product.name()
    }

    /// The code of the product.
    pub fn code(&self) -> (r: &str)
        ensures
            r@ == self@.product.code,
    {
        self.product.code()
    }

    /// How much of the product is wanted.
    pub fn quantity(&self) -> (r: i32)
        ensures
            r as int == self@.quantity,
    {
        self.quantity
    }

    /// The cost of the item: quantity times unit price.
    pub fn total_price(&self) -> (r: i64)
        ensures
            r as int == item_cost(self@),
    {
        let q: i64 = self.quantity as i64;
        let p: i64 = self.product.unit_price() as i64;
        assert(-0x8000_0000 * 0xffff_ffff <= q * p <= 0x7fff_ffff * 0xffff_ffff)
            by (nonlinear_arith)
            requires
                -0x8000_0000 <= q <= 0x7fff_ffff,
                0 <= p <= 0xffff_ffff,
        ;
        q * p
    }
}

/// The total cost of a list of items, exactly.
pub fn total_of(items: &[OrderItem]) -> (r: i128)
    ensures
        r as int == total_cost(item_views(items@)),
{
    let ghost views = item_views(items@);
    let mut sum: i128 = 0;
    let mut i: usize = 0;
    while i < items.len()
        invariant
            i <= items.len(),
            views == item_views(items@),
            sum as int == total_cost(views.take(i as int)),
            -0x8000_0000_0000_0000 * i <= sum <= 0x8000_0000_0000_0000 * i,
        decreases items.len() - i,
    {
        let cost = items[i].total_price();
        proof {
            let next = views.take(i as int + 1);
            assert(next.drop_last() =~= views.take(i as int));
        }
        sum = sum + cost as i128;
        i += 1;
    }
    proof {
        assert(views.take(i as int) =~= views);
    }
    sum
}

/// A copy of a list of items.
pub fn clone_items(items: &[OrderItem]) -> (r: Vec<OrderItem>)
    ensures
        item_views(r@) == item_views(items@),
{
    let mut copy: Vec<OrderItem> = Vec::new();
    let mut i: usize = 0;
    while i < items.len()
        invariant
            i <= items.len(),
            item_views(copy@) == item_views(items@).take(i as int),
        decreases items.len() - i,
    {
        let item = items[i].clone();
        copy.push(item);
        proof {
            assert(item_views(items@).take(i as int + 1) =~= item_views(items@).take(i as int).push(
                items@[i as int]@,
            ));
        }
        i += 1;
    }
    copy
}

/// The items a user has chosen and not yet ordered, in the order in which
/// their products were first added. No two items have the same code.
#[derive(Debug, PartialEq, Eq)]
pub struct Cart {
    items: Vec<OrderItem>,
}

impl View for Cart {
    type V = Seq<ItemView>;

    closed spec fn view(&self) -> Seq<ItemView> {
        item_views(self.items@)
    }
}

impl Clone for Cart {
    fn clone(&self) -> (r: Self)
        ensures
            r@ == self@,
    {
        proof {
            use_type_invariant(self);
        }
        Cart { items: clone_items(self.items.as_slice()) }
    }
}

impl Default for Cart {
    fn default() -> (r: Self)
        ensures
            r@ == Seq::<ItemView>::empty(),
    {
        Cart::new()
    }
}

impl Cart {
    #[verifier::type_invariant]
    spec fn one_item_per_code(&self) -> bool {
        distinct_codes(item_views(self.items@))
    }

    /// An empty cart.
    pub fn new() -> (r: Self)
        ensures
            r@ == Seq::<ItemView>::empty(),
    {
        let r = Cart { items: Vec::new() };
        r
    }

    /// A cart of the given items, if no two of them have the same code.
    pub fn from_items(items: Vec<OrderItem>) -> (r: Option<Self>)
        ensures
            r is Some <==> distinct_codes(item_views(items@)),
            r is Some ==> r.unwrap()@ == item_views(items@),
    {
        let ghost views = item_views(items@);
        let mut j: usize = 0;
        while j < items.len()
            invariant
                j <= items.len(),
                views == item_views(items@),
                distinct_codes(views.take(j as int)),
            decreases items.len() - j,
        {
            let mut i: usize = 0;
            while i < j
                invariant
                    i <= j < items.len(),
                    views == item_views(items@),
                    forall|k: int|
                        0 <= k < i ==> (#[trigger] views[k]).product.code
                            != views[j as int].product.code,
                decreases j - i,
            {
                if same_text(items[i].code(), items[j].code()) {
                    proof {
                        assert(views[i as int].product.code == views[j as int].product.code);
                    }
                    return None;
                }
                i += 1;
            }
            j += 1;
        }
        proof {
            assert(views.take(j as int) =~= views);
        }
        Some(Cart { items })
    }

    /// The items of the cart, in order. No two have the same code.
    pub fn items(&self) -> (r: &[OrderItem])
        ensures
            item_views(r@) == self@,
            distinct_codes(self@),
    {
        proof {
            use_type_invariant(self);
        }
        self.items.as_slice()
    }

    /// The sum of the costs of the items.
    pub fn total_cost(&self) -> (r: i128)
        ensures
            r as int == total_cost(self@),
    {
        total_of(self.items.as_slice())
    }

    /// Adds `quantity` of a product. If the cart has an item with the
    /// product's code, that item gains the quantity; otherwise a new item
    /// with a copy of the product goes to the end. Any quantity is taken,
    /// also zero or less.
    ///
    /// Returns whether the quantity was added. It is not, and the cart stays
    /// as it was, only when the sum with the quantity already held cannot be
    /// recorded.
    pub fn add_item(&mut self, product: &Product, quantity: i32) -> (r: bool)
        ensures
            r == can_take(old(self)@, product@.code, quantity as int),
            r ==> final(self)@ == with_added(old(self)@, product@, quantity as int),
            !r ==> final(self)@ == old(self)@,
            distinct_codes(final(self)@),
    {
        proof {
            use_type_invariant(&*self);
        }
        let ghost before = self@;
        // The items are worked on outside the cart, which is empty meanwhile.
        let mut items: Vec<OrderItem> = Vec::new();
        std::mem::swap(&mut self.items, &mut items);
        let mut at: usize = 0;
        while at < items.len() && !same_text(items[at].code(), product.code())
            invariant
                at <= items.len(),
                forall|j: int|
                    0 <= j < at ==> (#[trigger] item_views(items@)[j]).product.code
                        != product@.code,
            decreases items.len() - at,
        {
            at += 1;
        }
        proof {
            lemma_first_match_is(before, has_code(product@.code), at as int);
        }
        let added = if at < items.len() {
            match items[at].quantity.checked_add(quantity) {
                Some(sum) => {
                    items[at].quantity = sum;
                    true
                },
                None => false,
            }
        } else {
            items.push(OrderItem { product: product.clone(), quantity });
            true
        };
        proof {
            if added {
                assert(item_views(items@) =~= with_added(before, product@, quantity as int));
                lemma_with_added_distinct(before, product@, quantity as int);
            }
        }
        std::mem::swap(&mut self.items, &mut items);
        added
    }

    /// Removes the item with the given code. A cart without such an item
    /// stays as it is.
    pub fn remove_item(&mut self, code: &str)
        ensures
            final(self)@ == without(old(self)@, code@),
            !holds(old(self)@, code@) ==> final(self)@ == old(self)@,
            !holds(final(self)@, code@),
            distinct_codes(final(self)@),
    {
        proof {
            use_type_invariant(&*self);
        }
        let ghost before = self@;
        // The items are worked on outside the cart, which is empty meanwhile.
        let mut items: Vec<OrderItem> = Vec::new();
        std::mem::swap(&mut self.items, &mut items);
        let ghost differs = |item: ItemView| item.product.code != code@;
        let ghost done: int = 0;
        let mut at: usize = 0;
        while at < items.len()
            invariant
                at <= items.len(),
                0 <= done <= before.len(),
                items.len() - at == before.len() - done,
                differs == |item: ItemView| item.product.code != code@,
                item_views(items@).take(at as int) == before.take(done).filter(differs),
                item_views(items@).skip(at as int) == before.skip(done),
            decreases items.len() - at,
        {
            let ghost views = item_views(items@);
            proof {
                assert(views[at as int] == views.skip(at as int)[0]);
                assert(before.take(done + 1) =~= before.take(done).push(before[done]));
                before.take(done).lemma_filter_push(before[done], differs);
                assert(before.skip(done).skip(1) =~= before.skip(done + 1));
            }
            if same_text(items[at].code(), code) {
                items.remove(at);
            } else {
                at += 1;
            }
            proof {
                done = done + 1;
            }
        }
        proof {
            assert(item_views(items@).take(at as int) =~= item_views(items@));
            assert(before.take(done) =~= before);
            lemma_without_distinct(before, code@);
            if !holds(before, code@) {
                lemma_without_absent(before, code@);
            }
            lemma_without_holds_not(before, code@);
        }
        std::mem::swap(&mut self.items, &mut items);
    }

    /// Takes every item out of the cart, which is empty afterwards.
    pub fn take_items(&mut self) -> (r: Vec<OrderItem>)
        ensures
            item_views(r@) == old(self)@,
            final(self)@ == Seq::<ItemView>::empty(),
            distinct_codes(old(self)@),
    {
        proof {
            use_type_invariant(&*self);
        }
        let mut items: Vec<OrderItem> = Vec::new();
        std::mem::swap(&mut self.items, &mut items);
        items
    }
}

/// The items after each of the additions was made in turn. An addition is
/// written as an item: the product that was handed in and the quantity.
pub open spec fn with_all_added(items: Seq<ItemView>, additions: Seq<ItemView>) -> Seq<ItemView>
    decreases additions.len(),
{
    if additions.len() == 0 {
        items
    } else {
        with_added(
            with_all_added(items, additions.drop_last()),
            additions.last().product,
            additions.last().quantity,
        )
    }
}

/// The sum of the quantities of the additions.
pub open spec fn total_quantity(additions: Seq<ItemView>) -> int
    decreases additions.len(),
{
    if additions.len() == 0 {
        0
    } else {
        total_quantity(additions.drop_last()) + additions.last().quantity
    }
}

/// Some item has the code exactly when `holds` says so.
pub proof fn lemma_holds(items: Seq<ItemView>, code: Seq<char>)
    ensures
        holds(items, code) <==> exists|i: int|
            0 <= i < items.len() && (#[trigger] items[i]).product.code == code,
{
    lemma_first_match(items, has_code(code));
}

/// Among items with distinct codes, a code occurs once if it is held and not
/// at all if it is not.
pub proof fn lemma_count_of(items: Seq<ItemView>, code: Seq<char>)
    requires
        distinct_codes(items),
    ensures
        count_of(items, code) == if holds(items, code) { 1nat } else { 0nat },
    decreases items.len(),
{
    reveal(Seq::filter);
    let has = has_code(code);
    lemma_holds(items, code);
    if items.len() > 0 {
        let front = items.drop_last();
        let last = items.last();
        lemma_count_of(front, code);
        lemma_holds(front, code);
        if has(last) {
            // The last item has the code, so no item of the front has it.
            if holds(front, code) {
                let k = choose|k: int|
                    0 <= k < front.len() && (#[trigger] front[k]).product.code == code;
                assert(front[k] == items[k]);
            }
        } else if holds(items, code) {
            // The item that has the code stands in the front.
            let k = choose|k: int|
                0 <= k < items.len() && (#[trigger] items[k]).product.code == code;
            assert(front[k] == items[k]);
        }
    }
}

/// After an addition the product's code is held, with the quantity it had
/// before plus the one added; the codes stay distinct.
pub proof fn lemma_with_added(items: Seq<ItemView>, product: ProductView, quantity: int)
    ensures
        holds(with_added(items, product, quantity), product.code),
        quantity_of(with_added(items, product, quantity), product.code) == quantity_of(
            items,
            product.code,
        ) + quantity,
        distinct_codes(items) ==> distinct_codes(with_added(items, product, quantity)),
{
    let after = with_added(items, product, quantity);
    let at = position(items, product.code);
    lemma_first_match(items, has_code(product.code));
    lemma_first_match_is(after, has_code(product.code), at);
    if distinct_codes(items) {
        lemma_with_added_distinct(items, product, quantity);
    }
}

/// Replacing one item changes the total cost by the difference between the
/// costs of the new item and the old.
pub proof fn lemma_total_cost_update(items: Seq<ItemView>, at: int, item: ItemView)
    requires
        0 <= at < items.len(),
    ensures
        total_cost(items.update(at, item)) == total_cost(items) - item_cost(items[at]) + item_cost(
            item,
        ),
    decreases items.len(),
{
    let after = items.update(at, item);
    if at == items.len() - 1 {
        assert(after.drop_last() =~= items.drop_last());
    } else {
        assert(after.drop_last() =~= items.drop_last().update(at, item));
        lemma_total_cost_update(items.drop_last(), at, item);
    }
}

/// Adding to the items raises their total cost by the quantity added times
/// a unit price: that of the item which gains the quantity, or that of the
/// product where a new item is made.
pub proof fn lemma_total_cost_with_added(items: Seq<ItemView>, product: ProductView, quantity: int)
    ensures
        total_cost(with_added(items, product, quantity)) == total_cost(items) + quantity * (
        if holds(items, product.code) {
            items[position(items, product.code)].product.unit_price
        } else {
            product.unit_price
        }),
{
    lemma_first_match(items, has_code(product.code));
    if holds(items, product.code) {
        let at = position(items, product.code);
        let price = items[at].product.unit_price as int;
        let held = items[at].quantity;
        lemma_total_cost_update(
            items,
            at,
            ItemView { product: items[at].product, quantity: held + quantity },
        );
        assert((held + quantity) * price == held * price + quantity * price)
            by (nonlinear_arith);
    } else {
        let fresh = ItemView { product, quantity };
        assert(items.push(fresh).drop_last() =~= items);
    }
}

/// Whatever is added for one code, in however many steps, ends up in a single
/// item: starting from items with distinct codes, after one or more additions
/// of products with the same code, each of which was taken, the items hold
/// that code exactly once, and its quantity is what was held before plus the
/// sum of all that was added.
pub proof fn lemma_additions_accumulate(
    items: Seq<ItemView>,
    additions: Seq<ItemView>,
    code: Seq<char>,
)
    requires
        distinct_codes(items),
        additions.len() > 0,
        forall|i: int| 0 <= i < additions.len() ==> (#[trigger] additions[i]).product.code == code,
    ensures
        distinct_codes(with_all_added(items, additions)),
        count_of(with_all_added(items, additions), code) == 1,
        quantity_of(with_all_added(items, additions), code) == quantity_of(items, code)
            + total_quantity(additions),
    decreases additions.len(),
{
    let front = additions.drop_last();
    let last = additions.last();
    let middle = with_all_added(items, front);
    if front.len() > 0 {
        lemma_additions_accumulate(items, front, code);
    } else {
        assert(total_quantity(front) == 0);
    }
    lemma_with_added(middle, last.product, last.quantity);
    lemma_count_of(with_all_added(items, additions), code);
}

/// Once a code is removed, no item has it.
pub proof fn lemma_without_holds_not(items: Seq<ItemView>, code: Seq<char>)
    ensures
        !holds(without(items, code), code),
{
    let differs = |item: ItemView| item.product.code != code;
    let rest = without(items, code);
    lemma_holds(rest, code);
    if holds(rest, code) {
        let k = choose|k: int| 0 <= k < rest.len() && (#[trigger] rest[k]).product.code == code;
        items.lemma_filter_pred(differs, k);
    }
}

/// Adding a product after its code was removed starts afresh: the new item
/// stands alone at the end with just the quantity added, whatever was held
/// under that code before.
pub proof fn lemma_add_after_remove(items: Seq<ItemView>, product: ProductView, quantity: int)
    ensures
        !holds(without(items, product.code), product.code),
        can_take(without(items, product.code), product.code, quantity) == recordable(quantity),
        with_added(without(items, product.code), product, quantity) == without(
            items,
            product.code,
        ).push(ItemView { product, quantity }),
        quantity_of(with_added(without(items, product.code), product, quantity), product.code)
            == quantity,
        count_of(with_added(without(items, product.code), product, quantity), product.code) == 1,
{
    let code = product.code;
    let has = has_code(code);
    let rest = without(items, code);
    lemma_holds(rest, code);
    lemma_without_holds_not(items, code);
    lemma_with_added(rest, product, quantity);
    let fresh = ItemView { product, quantity };
    rest.lemma_filter_push(fresh, has);
    if rest.filter(has).len() > 0 {
        rest.lemma_filter_pred(has, 0);
        rest.lemma_filter_contains_rev(has, rest.filter(has)[0]);
    }
}

} // verus!
