use vstd::prelude::*;

verus! {

/// The item names of an order, in the order they were added.
pub open spec fn item_names(items: Seq<String>) -> Seq<Seq<char>> {
    items.map_values(|s: String| s@)
}

/// An order that is still being filled; items can be added.
pub struct DraftOrder {
    items: Vec<String>,
}

/// An order that has been submitted and awaits payment.
pub struct SubmittedOrder {
    items: Vec<String>,
}

/// An order that has been paid and awaits shipping.
pub struct PaidOrder {
    items: Vec<String>,
}

impl View for DraftOrder {
    type V = Seq<Seq<char>>;

    closed spec fn view(&self) -> Seq<Seq<char>> {
        item_names(self.items@)
    }
}

impl View for SubmittedOrder {
    type V = Seq<Seq<char>>;

    closed spec fn view(&self) -> Seq<Seq<char>> {
        item_names(self.items@)
    }
}

impl View for PaidOrder {
    type V = Seq<Seq<char>>;

    closed spec fn view(&self) -> Seq<Seq<char>> {
        item_names(self.items@)
    }
}

impl DraftOrder {
    /// An order with no items.
    pub fn new() -> (o: Self)
        ensures
            o@ == Seq::<Seq<char>>::empty(),
    {
        let o = DraftOrder { items: Vec::new() };
        assert(o@ =~= Seq::<Seq<char>>::empty());
        o
    }

    /// The same order with `item` added at the end.
    pub fn add_item(self, item: &str) -> (o: Self)
        ensures
            o@ == self@.push(item@),
    {
        let mut items = self.items;
        items.push(item.to_owned());
        let o = DraftOrder { items };
        assert(o@ =~= self@.push(item@));
        o
    }

    /// The number of items in the order.
    pub fn item_count(&self) -> (n: usize)
        ensures
            n == self@.len(),
    {
        self.items.len()
    }

    /// Submits the order; its items can no longer change.
    pub fn submit(self) -> (o: SubmittedOrder)
        ensures
            o@ == self@,
    {
        SubmittedOrder { items: self.items }
    }
}

impl Default for DraftOrder {
    fn default() -> (o: Self)
        ensures
            o@ == Seq::<Seq<char>>::empty(),
    {
        Self::new()
    }
}

impl SubmittedOrder {
    /// Records the payment of the order.
    pub fn pay(self) -> (o: PaidOrder)
        ensures
            o@ == self@,
    {
        PaidOrder { items: self.items }
    }
}

impl PaidOrder {
    /// Ships the order and returns the number of items shipped.
    pub fn ship(self) -> (n: usize)
        ensures
            n == self@.len(),
    {
        self.items.len()
    }
}

} // verus!
