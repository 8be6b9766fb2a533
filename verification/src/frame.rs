//! Which orders an evaluation can touch: an order is reached only through
//! its own id, so that what does not name the id leaves the order alone.
use crate::book::{
    book_get, book_has, book_ids, book_index, book_remove, book_submit, book_unique,
    lemma_book_remove, lemma_book_submit, BookModel,
};
use crate::model::{
    actions_weight, book_weight, lemma_actions_weight_concat, lemma_book_weight_submit,
    lemma_book_weight_withdraw, BrokerModel,
};
use crate::matching::{decide, Decision};
use crate::types::{ActionModel, OrderId, OrderModel, Ticker, TradeModel};
use vstd::prelude::*;

verus! {

/// One of the order's actions names the id.
pub open spec fn order_names(order: OrderModel, id: OrderId) -> bool
    decreases order, 1nat,
{
    actions_name(order.on_execute, id) || actions_name(order.on_cancel, id)
}

/// One of the actions names the id: it cancels it, submits under it, or
/// submits an order with an action that names it.
pub open spec fn actions_name(actions: Seq<ActionModel>, id: OrderId) -> bool
    decreases actions, 0nat,
{
    if actions.len() == 0 {
        false
    } else {
        let first = match actions[0] {
            ActionModel::Submit(under, order) => under == id || order_names(order, id),
            ActionModel::Cancel(target) => target == id,
            ActionModel::Fail(_) => false,
        };
        first || actions_name(actions.drop_first(), id)
    }
}

/// No pending order names the id, apart from the one under the id itself.
pub open spec fn quiet(book: BookModel, id: OrderId) -> bool {
    forall|i: int|
        0 <= i < book.len() && (#[trigger] book[i]).0 != id ==> !order_names(book[i].1, id)
}

/// The later fills are the earlier ones and then fills of other ids only.
pub open spec fn only_others_filled(
    earlier: Seq<TradeModel>,
    later: Seq<TradeModel>,
    id: OrderId,
) -> bool {
    &&& earlier.len() <= later.len()
    &&& later.subrange(0, earlier.len() as int) == earlier
    &&& forall|k: int| earlier.len() <= k < later.len() ==> (#[trigger] later[k]).order_id != id
}

/// Actions in a row name an id where one of the rows does.
pub proof fn lemma_actions_name_concat(
    first: Seq<ActionModel>,
    second: Seq<ActionModel>,
    id: OrderId,
)
    ensures
        actions_name(first + second, id) == (actions_name(first, id) || actions_name(second, id)),
    decreases first.len(),
{
    if first.len() == 0 {
        assert(first + second =~= second);
    } else {
        assert((first + second).drop_first() =~= first.drop_first() + second);
        assert((first + second)[0] == first[0]);
        lemma_actions_name_concat(first.drop_first(), second, id);
    }
}

/// Submitting an order that does not name the id, under another id, keeps
/// the book quiet about the id and leaves the order under the id alone.
pub proof fn lemma_quiet_submit(book: BookModel, under: OrderId, order: OrderModel, id: OrderId)
    requires
        book_unique(book),
        quiet(book, id),
        under != id,
        !order_names(order, id),
    ensures
        quiet(book_submit(book, under, order), id),
        book_unique(book_submit(book, under, order)),
        book_has(book_submit(book, under, order), id) == book_has(book, id),
        book_has(book, id) ==> book_get(book_submit(book, under, order), id) == book_get(book, id),
{
    lemma_book_submit(book, under, order);
    let after = book_submit(book, under, order);
    assert forall|i: int| 0 <= i < after.len() && (#[trigger] after[i]).0 != id implies !order_names(
        after[i].1,
        id,
    ) by {
        if book_has(book, under) {
            if i != book_index(book, under) {
                assert(after[i] == book[i]);
            }
        } else {
            if i < book.len() {
                assert(after[i] == book[i]);
            }
        }
    }
}

/// Taking out the order of another id keeps the book quiet about the id and
/// leaves the order under the id alone.
pub proof fn lemma_quiet_remove(book: BookModel, gone: OrderId, id: OrderId)
    requires
        book_unique(book),
        quiet(book, id),
        gone != id,
    ensures
        quiet(book_remove(book, gone), id),
        book_unique(book_remove(book, gone)),
        book_has(book_remove(book, gone), id) == book_has(book, id),
        book_has(book, id) ==> book_get(book_remove(book, gone), id) == book_get(book, id),
        book_has(book, gone) ==> !order_names(book_get(book, gone), id),
{
    lemma_book_remove(book, gone);
    let after = book_remove(book, gone);
    if book_has(book, gone) {
        let at = book_index(book, gone);
        assert(book[at].0 == gone);
        assert forall|i: int|
            0 <= i < after.len() && (#[trigger] after[i]).0 != id implies !order_names(
            after[i].1,
            id,
        ) by {
            let from = if i < at { i } else { i + 1 };
            assert(after[i] == book[from]);
        }
    }
}

/// Actions that do not name an id, run on a book that is quiet about it,
/// leave the order under the id alone and the book quiet about it.
pub proof fn lemma_run_frame(state: BrokerModel, agenda: Seq<ActionModel>, id: OrderId)
    requires
        book_unique(state.pending),
        quiet(state.pending, id),
        !actions_name(agenda, id),
    ensures
        state.run(agenda).0.same_account(state),
        book_unique(state.run(agenda).0.pending),
        quiet(state.run(agenda).0.pending, id),
        book_has(state.run(agenda).0.pending, id) == book_has(state.pending, id),
        book_has(state.pending, id) ==> book_get(state.run(agenda).0.pending, id) == book_get(
            state.pending,
            id,
        ),
    decreases book_weight(state.pending) + actions_weight(agenda),
{
    if agenda.len() > 0 {
        let rest = agenda.drop_first();
        match agenda[0] {
            ActionModel::Submit(under, order) => {
                lemma_book_weight_submit(state.pending, under, order);
                lemma_quiet_submit(state.pending, under, order, id);
                lemma_run_frame(state.submit(under, order), rest, id);
            },
            ActionModel::Cancel(target) => {
                if book_has(state.pending, target) {
                    let hooks = book_get(state.pending, target).on_cancel;
                    lemma_book_weight_withdraw(state.pending, target);
                    lemma_actions_weight_concat(hooks, rest);
                    lemma_quiet_remove(state.pending, target, id);
                    lemma_actions_name_concat(hooks, rest, id);
                    lemma_run_frame(state.withdraw(target), hooks + rest, id);
                }
            },
            ActionModel::Fail(_) => {},
        }
    }
}

/// The later state has left alone the order that the earlier state holds
/// under the id: it is pending or not as before, and the same order; the book
/// is still quiet about the id; no fill of the id has been added; and clock
/// and previous tick stand as they did.
pub open spec fn untouched(earlier: BrokerModel, later: BrokerModel, id: OrderId) -> bool {
    &&& book_unique(later.pending)
    &&& quiet(later.pending, id)
    &&& book_has(later.pending, id) == book_has(earlier.pending, id)
    &&& book_has(earlier.pending, id) ==> book_get(later.pending, id) == book_get(
        earlier.pending,
        id,
    )
    &&& only_others_filled(earlier.trades, later.trades, id)
    &&& later.clock == earlier.clock
    &&& later.previous == earlier.previous
}

/// What is left alone twice in a row is left alone.
pub proof fn lemma_untouched_twice(
    first: BrokerModel,
    second: BrokerModel,
    third: BrokerModel,
    id: OrderId,
)
    requires
        untouched(first, second, id),
        untouched(second, third, id),
    ensures
        untouched(first, third, id),
{
    assert(third.trades.subrange(0, first.trades.len() as int) =~= first.trades) by {
        assert forall|k: int| 0 <= k < first.trades.len() implies third.trades[k]
            == first.trades[k] by {
            assert(third.trades.subrange(0, second.trades.len() as int)[k] == second.trades[k]);
            assert(second.trades.subrange(0, first.trades.len() as int)[k] == first.trades[k]);
        }
    }
    assert forall|k: int| first.trades.len() <= k < third.trades.len() implies (
    #[trigger] third.trades[k]).order_id != id by {
        if k < second.trades.len() {
            assert(third.trades.subrange(0, second.trades.len() as int)[k] == second.trades[k]);
        }
    }
}

/// The evaluation of another id leaves alone the order under an id that the
/// book is quiet about.
pub proof fn lemma_visit_frame(state: BrokerModel, other: OrderId, tick: Ticker, id: OrderId)
    requires
        book_unique(state.pending),
        quiet(state.pending, id),
        other != id,
    ensures
        untouched(state, state.visit(other, tick).0, id),
{
    assert(state.trades.subrange(0, state.trades.len() as int) =~= state.trades);
    if book_has(state.pending, other) {
        let order = book_get(state.pending, other);
        let at = book_index(state.pending, other);
        assert(state.pending[at].0 == other);
        assert(!order_names(order, id));
        match decide(
            order.order_type,
            order.side,
            tick.close,
            state.previous_close(),
            state.new_session(),
        ) {
            Decision::Keep => {},
            Decision::Convert(order_type) => {
                let converted = OrderModel { order_type, datetime: state.clock, ..order };
                assert(!order_names(converted, id));
                lemma_quiet_submit(state.pending, other, converted, id);
            },
            Decision::Fill(price) => {
                if state.fill_fits(order, price as int) {
                    lemma_quiet_remove(state.pending, other, id);
                    let taken = BrokerModel {
                        pending: book_remove(state.pending, other),
                        ..state
                    };
                    let filled = taken.fill(other, order, price as int);
                    lemma_run_frame(filled, order.on_execute, id);
                    let after = filled.run(order.on_execute).0;
                    assert(after.trades == state.trades.push(filled.trades.last()));
                    assert(after.trades.subrange(0, state.trades.len() as int) =~= state.trades);
                }
            },
        }
    }
}

/// The evaluation of ids other than an id leaves alone the order under that
/// id, if the book is quiet about it.
pub proof fn lemma_process_frame(state: BrokerModel, ids: Seq<OrderId>, tick: Ticker, id: OrderId)
    requires
        book_unique(state.pending),
        quiet(state.pending, id),
        !ids.contains(id),
    ensures
        untouched(state, state.process(ids, tick).0, id),
    decreases ids.len(),
{
    assert(state.trades.subrange(0, state.trades.len() as int) =~= state.trades);
    if ids.len() > 0 {
        assert(ids[0] != id);
        lemma_visit_frame(state, ids[0], tick, id);
        let (visited, result) = state.visit(ids[0], tick);
        if result is Ok {
            assert forall|k: int| 0 <= k < ids.drop_first().len() implies ids.drop_first()[k]
                != id by {
                assert(ids.drop_first()[k] == ids[k + 1]);
            }
            lemma_process_frame(visited, ids.drop_first(), tick, id);
            lemma_untouched_twice(state, visited, visited.process(ids.drop_first(), tick).0, id);
        }
    }
}

/// Evaluating two rows of ids in a row is evaluating the first and then, if
/// that went well, the second.
pub proof fn lemma_process_in_two(
    state: BrokerModel,
    first: Seq<OrderId>,
    second: Seq<OrderId>,
    tick: Ticker,
)
    ensures
        state.process(first + second, tick) == if state.process(first, tick).1 is Ok {
            state.process(first, tick).0.process(second, tick)
        } else {
            state.process(first, tick)
        },
    decreases first.len(),
{
    if first.len() == 0 {
        assert(first + second =~= second);
    } else {
        assert((first + second)[0] == first[0]);
        assert((first + second).drop_first() =~= first.drop_first() + second);
        let (visited, result) = state.visit(first[0], tick);
        if result is Ok {
            lemma_process_in_two(visited, first.drop_first(), second, tick);
        }
    }
}

/// In a book without repeated ids, the ids before and after the place of an
/// id do not hold it.
pub proof fn lemma_ids_around(book: BookModel, id: OrderId)
    requires
        book_unique(book),
        book_has(book, id),
    ensures
        ({
            let ids = book_ids(book);
            let at = book_index(book, id);
            &&& 0 <= at < ids.len()
            &&& ids == ids.subrange(0, at) + seq![id] + ids.subrange(at + 1, ids.len() as int)
            &&& !ids.subrange(0, at).contains(id)
            &&& !ids.subrange(at + 1, ids.len() as int).contains(id)
        }),
{
    let ids = book_ids(book);
    let at = book_index(book, id);
    assert(ids =~= ids.subrange(0, at) + seq![id] + ids.subrange(at + 1, ids.len() as int));
    assert forall|k: int| 0 <= k < ids.len() && k != at implies ids[k] != id by {
        assert(book[k].0 != book[at].0);
    }
    let before = ids.subrange(0, at);
    let behind = ids.subrange(at + 1, ids.len() as int);
    assert forall|k: int| 0 <= k < before.len() implies #[trigger] before[k] != id by {
        assert(before[k] == ids[k]);
    }
    assert forall|k: int| 0 <= k < behind.len() implies #[trigger] behind[k] != id by {
        assert(behind[k] == ids[k + at + 1]);
    }
}

/// Fills of other ids, added twice in a row, are fills of other ids.
pub proof fn lemma_only_others_twice(
    first: Seq<TradeModel>,
    second: Seq<TradeModel>,
    third: Seq<TradeModel>,
    id: OrderId,
)
    requires
        only_others_filled(first, second, id),
        only_others_filled(second, third, id),
    ensures
        only_others_filled(first, third, id),
{
    assert(third.subrange(0, first.len() as int) =~= first) by {
        assert forall|k: int| 0 <= k < first.len() implies third[k] == first[k] by {
            assert(third.subrange(0, second.len() as int)[k] == second[k]);
            assert(second.subrange(0, first.len() as int)[k] == first[k]);
        }
    }
    assert forall|k: int| first.len() <= k < third.len() implies (#[trigger] third[k]).order_id
        != id by {
        if k < second.len() {
            assert(third.subrange(0, second.len() as int)[k] == second[k]);
        }
    }
}

/// Submitting under the id itself keeps the book quiet about the id.
pub proof fn lemma_quiet_submit_self(book: BookModel, id: OrderId, order: OrderModel)
    requires
        book_unique(book),
        quiet(book, id),
    ensures
        quiet(book_submit(book, id, order), id),
        book_unique(book_submit(book, id, order)),
        book_has(book_submit(book, id, order), id),
        book_get(book_submit(book, id, order), id) == order,
{
    lemma_book_submit(book, id, order);
    let after = book_submit(book, id, order);
    assert forall|i: int| 0 <= i < after.len() && (#[trigger] after[i]).0 != id implies !order_names(
        after[i].1,
        id,
    ) by {
        if book_has(book, id) {
            if i != book_index(book, id) {
                assert(after[i] == book[i]);
            }
        } else {
            if i < book.len() {
                assert(after[i] == book[i]);
            }
        }
    }
}

impl BrokerModel {
    /// What the matching rules decide for the order pending under the id,
    /// at a tick, as the clock and the previous tick stand.
    pub open spec fn decision(self, id: OrderId, tick: Ticker) -> Decision {
        decide(
            book_get(self.pending, id).order_type,
            book_get(self.pending, id).side,
            tick.close,
            self.previous_close(),
            self.new_session(),
        )
    }

    /// The order pending under the id as a conversion leaves it: of the new
    /// type, dated at the clock.
    pub open spec fn converted(self, id: OrderId, order_type: crate::types::OrderType) -> OrderModel {
        OrderModel { order_type, datetime: self.clock, ..book_get(self.pending, id) }
    }
}

/// One pass over all pending ids, seen from one of them, on a book that is
/// quiet about it. An order that the rules keep is left alone. An order that
/// the rules convert is either still as it was, if the pass failed before
/// its turn, or converted; it is converted if the pass went well. Either
/// way no fill of the id is added.
pub proof fn lemma_pass_frame(state: BrokerModel, id: OrderId, tick: Ticker)
    requires
        book_unique(state.pending),
        book_has(state.pending, id),
        quiet(state.pending, id),
    ensures
        ({
            let (after, result) = state.process(book_ids(state.pending), tick);
            match state.decision(id, tick) {
                Decision::Keep => untouched(state, after, id),
                Decision::Convert(order_type) => {
                    &&& book_unique(after.pending)
                    &&& quiet(after.pending, id)
                    &&& book_has(after.pending, id)
                    &&& only_others_filled(state.trades, after.trades, id)
                    &&& after.clock == state.clock
                    &&& after.previous == state.previous
                    &&& book_get(after.pending, id) == book_get(state.pending, id) || book_get(
                        after.pending,
                        id,
                    ) == state.converted(id, order_type)
                    &&& result is Ok ==> book_get(after.pending, id) == state.converted(
                        id,
                        order_type,
                    )
                },
                Decision::Fill(_) => true,
            }
        }),
{
    let ids = book_ids(state.pending);
    let at = book_index(state.pending, id);
    lemma_ids_around(state.pending, id);
    let before = ids.subrange(0, at);
    let behind = ids.subrange(at + 1, ids.len() as int);
    lemma_process_in_two(state, before + seq![id], behind, tick);
    lemma_process_in_two(state, before, seq![id], tick);
    lemma_process_frame(state, before, tick, id);
    let (first, first_result) = state.process(before, tick);
    if first_result is Ok {
        let own = seq![id];
        assert(own.len() == 1 && own[0] == id);
        assert(own.drop_first() =~= Seq::<OrderId>::empty());
        let (second, second_result) = first.visit(id, tick);
        assert(first.process(own, tick) == if second_result is Ok {
            second.process(own.drop_first(), tick)
        } else {
            (second, second_result)
        });
        assert(first.decision(id, tick) == state.decision(id, tick));
        match state.decision(id, tick) {
            Decision::Keep => {
                assert(second == first);
                lemma_process_frame(first, behind, tick, id);
                lemma_untouched_twice(state, first, first.process(behind, tick).0, id);
            },
            Decision::Convert(order_type) => {
                let converted = state.converted(id, order_type);
                assert(second == first.submit(id, converted));
                lemma_quiet_submit_self(first.pending, id, converted);
                lemma_process_frame(second, behind, tick, id);
                let last = second.process(behind, tick).0;
                assert(second.trades == first.trades);
                lemma_only_others_twice(state.trades, second.trades, last.trades, id);
            },
            Decision::Fill(_) => {},
        }
    }
}

} // verus!
