//! The pending orders: at most one under each id, kept in the order in which
//! their ids were first submitted.
use crate::types::{Order, OrderId, OrderModel, OrderType, Timestamp};
use vstd::prelude::*;

verus! {

/// Model of the pending orders: each with its id, in book order.
pub type BookModel = Seq<(OrderId, OrderModel)>;

/// No id occurs twice.
pub open spec fn book_unique(book: BookModel) -> bool {
    forall|i: int, j: int|
        0 <= i < book.len() && 0 <= j < book.len() && i != j ==> (#[trigger] book[i]).0
            != (#[trigger] book[j]).0
}

/// An order is pending under the id.
pub open spec fn book_has(book: BookModel, id: OrderId) -> bool {
    exists|i: int| 0 <= i < book.len() && (#[trigger] book[i]).0 == id
}

/// Where the order of that id stands, if one is pending under it.
pub open spec fn book_index(book: BookModel, id: OrderId) -> int {
    choose|i: int| 0 <= i < book.len() && (#[trigger] book[i]).0 == id
}

/// The order pending under the id, if there is one.
pub open spec fn book_get(book: BookModel, id: OrderId) -> OrderModel {
    book[book_index(book, id)].1
}

/// The book after the order is submitted under the id: it takes the place of
/// the order pending under that id, or else goes to the end.
pub open spec fn book_submit(book: BookModel, id: OrderId, order: OrderModel) -> BookModel {
    if book_has(book, id) {
        book.update(book_index(book, id), (id, order))
    } else {
        book.push((id, order))
    }
}

/// The book without the order of that id.
pub open spec fn book_remove(book: BookModel, id: OrderId) -> BookModel {
    if book_has(book, id) {
        book.remove(book_index(book, id))
    } else {
        book
    }
}

/// The ids of the pending orders, in book order.
pub open spec fn book_ids(book: BookModel) -> Seq<OrderId> {
    book.map_values(|e: (OrderId, OrderModel)| e.0)
}

/// In a book without repeated ids, an id is found only where it stands.
pub proof fn lemma_book_index(book: BookModel, i: int)
    requires
        book_unique(book),
        0 <= i < book.len(),
    ensures
        book_has(book, book[i].0),
        book_index(book, book[i].0) == i,
        book_get(book, book[i].0) == book[i].1,
{
    let id = book[i].0;
    assert(book_has(book, id));
    let k = book_index(book, id);
    assert(0 <= k < book.len() && book[k].0 == id);
}

/// Submitting keeps the ids distinct, and makes the order the one pending
/// under its id; the others stay as they were.
pub proof fn lemma_book_submit(book: BookModel, id: OrderId, order: OrderModel)
    requires
        book_unique(book),
    ensures
        book_unique(book_submit(book, id, order)),
        book_has(book_submit(book, id, order), id),
        book_get(book_submit(book, id, order), id) == order,
        forall|other: OrderId|
            other != id ==> book_has(book_submit(book, id, order), other) == book_has(book, other),
        forall|other: OrderId|
            other != id && book_has(book, other) ==> book_get(book_submit(book, id, order), other)
                == book_get(book, other),
{
    let after = book_submit(book, id, order);
    let at = if book_has(book, id) {
        book_index(book, id)
    } else {
        book.len() as int
    };
    assert(after.len() > at && after[at] == (id, order));
    assert forall|i: int| 0 <= i < after.len() && i != at implies 0 <= i < book.len()
        && #[trigger] after[i] == book[i] by {}
    assert(book_unique(after)) by {
        assert forall|i: int, j: int|
            0 <= i < after.len() && 0 <= j < after.len() && i != j implies (#[trigger] after[i]).0
            != (#[trigger] after[j]).0 by {
            if i != at && j != at {
                assert(after[i] == book[i] && after[j] == book[j]);
            } else if i == at {
                assert(after[j] == book[j]);
            } else {
                assert(after[i] == book[i]);
            }
        }
    }
    lemma_book_index(after, at);
    assert forall|other: OrderId| other != id implies book_has(after, other) == book_has(
        book,
        other,
    ) by {
        if book_has(book, other) {
            let k = book_index(book, other);
            assert(after[k] == book[k]);
        }
        if book_has(after, other) {
            let k = book_index(after, other);
            assert(after[k] == book[k]);
        }
    }
    assert forall|other: OrderId| other != id && book_has(book, other) implies book_get(
        after,
        other,
    ) == book_get(book, other) by {
        let k = book_index(book, other);
        assert(after[k] == book[k]);
        lemma_book_index(after, k);
    }
}

/// Removing keeps the ids distinct and takes the id out; the others stay as
/// they were.
pub proof fn lemma_book_remove(book: BookModel, id: OrderId)
    requires
        book_unique(book),
    ensures
        book_unique(book_remove(book, id)),
        !book_has(book_remove(book, id), id),
        forall|other: OrderId|
            other != id ==> book_has(book_remove(book, id), other) == book_has(book, other),
        forall|other: OrderId|
            other != id && book_has(book, other) ==> book_get(book_remove(book, id), other)
                == book_get(book, other),
{
    let after = book_remove(book, id);
    if book_has(book, id) {
        let at = book_index(book, id);
        assert forall|i: int| 0 <= i < after.len() implies #[trigger] after[i] == book[if i < at {
            i
        } else {
            i + 1
        }] by {}
        assert(book_unique(after)) by {
            assert forall|i: int, j: int|
                0 <= i < after.len() && 0 <= j < after.len() && i != j implies (
            #[trigger] after[i]).0 != (#[trigger] after[j]).0 by {
                let bi = if i < at { i } else { i + 1 };
                let bj = if j < at { j } else { j + 1 };
                assert(after[i] == book[bi] && after[j] == book[bj]);
            }
        }
        if book_has(after, id) {
            let k = book_index(after, id);
            let bk = if k < at { k } else { k + 1 };
            assert(after[k] == book[bk]);
        }
        assert forall|other: OrderId| other != id implies book_has(after, other) == book_has(
            book,
            other,
        ) by {
            if book_has(book, other) {
                let k = book_index(book, other);
                let ak = if k < at { k } else { k - 1 };
                assert(after[ak] == book[k]);
            }
            if book_has(after, other) {
                let k = book_index(after, other);
                let bk = if k < at { k } else { k + 1 };
                assert(after[k] == book[bk]);
            }
        }
        assert forall|other: OrderId| other != id && book_has(book, other) implies book_get(
            after,
            other,
        ) == book_get(book, other) by {
            let k = book_index(book, other);
            let ak = if k < at { k } else { k - 1 };
            assert(after[ak] == book[k]);
            lemma_book_index(after, ak);
        }
    }
}

/// The pending orders of a broker.
#[derive(Debug)]
pub struct OrderBook {
    entries: Vec<(OrderId, Order)>,
}

impl View for OrderBook {
    type V = BookModel;

    closed spec fn view(&self) -> BookModel {
        self.entries@.map_values(|e: (OrderId, Order)| (e.0, e.1@))
    }
}

impl Clone for OrderBook {
    /// A book with copies of the same orders under the same ids, in the same
    /// order.
    fn clone(&self) -> (copy: OrderBook)
        ensures
            copy@ == self@,
    {
        proof {
            use_type_invariant(self);
        }
        let mut entries: Vec<(OrderId, Order)> = Vec::new();
        let mut i: usize = 0;
        while i < self.entries.len()
            invariant
                i <= self.entries.len(),
                entries.len() == i,
                forall|j: int|
                    0 <= j < i ==> (#[trigger] entries[j]).0 == self.entries[j].0 && entries[j].1@
                        == self.entries[j].1@,
            decreases self.entries.len() - i,
        {
            let order = self.entries[i].1.clone();
            entries.push((self.entries[i].0, order));
            i += 1;
        }
        assert(entries@.map_values(|e: (OrderId, Order)| (e.0, e.1@)) =~= self@);
        OrderBook { entries }
    }
}

impl OrderBook {
    #[verifier::type_invariant]
    spec fn distinct_ids(self) -> bool {
        book_unique(self@)
    }

    /// The empty book.
    pub fn new() -> (book: OrderBook)
        ensures
            book@ == BookModel::empty(),
    {
        let book = OrderBook { entries: Vec::new() };
        assert(book@ =~= BookModel::empty());
        book
    }

    /// The number of pending orders.
    pub fn len(&self) -> (n: usize)
        ensures
            n == self@.len(),
            book_unique(self@),
    {
        proof {
            use_type_invariant(self);
        }
        self.entries.len()
    }

    /// The ids of the pending orders, in book order.
    pub fn ids(&self) -> (ids: Vec<OrderId>)
        ensures
            ids@ == book_ids(self@),
            book_unique(self@),
    {
        proof {
            use_type_invariant(self);
        }
        let mut ids: Vec<OrderId> = Vec::new();
        let mut i: usize = 0;
        while i < self.entries.len()
            invariant
                i <= self.entries.len(),
                ids@ == book_ids(self@).subrange(0, i as int),
            decreases self.entries.len() - i,
        {
            ids.push(self.entries[i].0);
            i += 1;
            assert(ids@ =~= book_ids(self@).subrange(0, i as int));
        }
        assert(ids@ =~= book_ids(self@));
        ids
    }

    /// Where the order of that id stands.
    fn find(&self, id: OrderId) -> (found: Option<usize>)
        ensures
            book_unique(self@),
            found is Some == book_has(self@, id),
            found matches Some(i) ==> i < self.entries.len() && i == book_index(self@, id)
                && self.entries[i as int].0 == id,
    {
        proof {
            use_type_invariant(self);
        }
        let mut i: usize = 0;
        while i < self.entries.len()
            invariant
                book_unique(self@),
                i <= self.entries.len(),
                forall|j: int| 0 <= j < i ==> (#[trigger] self@[j]).0 != id,
            decreases self.entries.len() - i,
        {
            if self.entries[i].0 == id {
                proof {
                    lemma_book_index(self@, i as int);
                }
                return Some(i);
            }
            i += 1;
        }
        None
    }

    /// Whether an order is pending under the id.
    pub fn contains(&self, id: OrderId) -> (found: bool)
        ensures
            found == book_has(self@, id),
            book_unique(self@),
    {
        self.find(id).is_some()
    }

    /// The order pending under the id.
    pub fn get(&self, id: OrderId) -> (found: Option<&Order>)
        ensures
            book_unique(self@),
            found is Some == book_has(self@, id),
            found matches Some(order) ==> order@ == book_get(self@, id),
    {
        match self.find(id) {
            Some(i) => Some(&self.entries[i].1),
            None => None,
        }
    }

    /// Files the order under the id, in place of the order pending under
    /// that id if there is one, at the end otherwise.
    pub fn insert(&mut self, id: OrderId, order: Order)
        ensures
            final(self)@ == book_submit(old(self)@, id, order@),
            book_unique(final(self)@),
    {
        proof {
            use_type_invariant(&*self);
            lemma_book_submit(self@, id, order@);
        }
        let found = self.find(id);
        let mut entries: Vec<(OrderId, Order)> = Vec::new();
        core::mem::swap(&mut self.entries, &mut entries);
        match found {
            Some(i) => {
                let _ = entries.remove(i);
                entries.insert(i, (id, order));
            },
            None => {
                entries.push((id, order));
            },
        }
        assert(entries@.map_values(|e: (OrderId, Order)| (e.0, e.1@)) =~= book_submit(
            old(self)@,
            id,
            order@,
        ));
        self.entries = entries;
    }

    /// Takes the order of that id out of the book.
    pub fn remove(&mut self, id: OrderId) -> (removed: Option<Order>)
        ensures
            book_unique(final(self)@),
            removed is Some == book_has(old(self)@, id),
            removed matches Some(order) ==> order@ == book_get(old(self)@, id),
            final(self)@ == book_remove(old(self)@, id),
    {
        proof {
            use_type_invariant(&*self);
            lemma_book_remove(self@, id);
        }
        match self.find(id) {
            Some(i) => {
                let mut entries: Vec<(OrderId, Order)> = Vec::new();
                core::mem::swap(&mut self.entries, &mut entries);
                let entry = entries.remove(i);
                assert(entries@.map_values(|e: (OrderId, Order)| (e.0, e.1@)) =~= book_remove(
                    old(self)@,
                    id,
                ));
                self.entries = entries;
                Some(entry.1)
            },
            None => None,
        }
    }

    /// Gives the order pending under the id another type and date, where it
    /// stands.
    pub fn convert(&mut self, id: OrderId, order_type: OrderType, datetime: Timestamp)
        requires
            book_has(old(self)@, id),
        ensures
            final(self)@ == book_submit(
                old(self)@,
                id,
                (OrderModel { order_type, datetime, ..book_get(old(self)@, id) }),
            ),
            book_unique(final(self)@),
    {
        proof {
            use_type_invariant(&*self);
            lemma_book_submit(
                self@,
                id,
                (OrderModel { order_type, datetime, ..book_get(self@, id) }),
            );
        }
        match self.find(id) {
            Some(i) => {
                let mut entries: Vec<(OrderId, Order)> = Vec::new();
                core::mem::swap(&mut self.entries, &mut entries);
                let entry = entries.remove(i);
                let Order {
                    symbol,
                    quantity,
                    side,
                    order_type: _,
                    datetime: _,
                    execution,
                    on_execute,
                    on_cancel,
                } = entry.1;
                let converted = Order {
                    symbol,
                    quantity,
                    side,
                    order_type,
                    datetime,
                    execution,
                    on_execute,
                    on_cancel,
                };
                entries.insert(i, (id, converted));
                assert(entries@.map_values(|e: (OrderId, Order)| (e.0, e.1@)) =~= book_submit(
                    old(self)@,
                    id,
                    (OrderModel { order_type, datetime, ..book_get(old(self)@, id) }),
                ));
                self.entries = entries;
            },
            None => {},
        }
    }
}

} // verus!
