//! The position ledger: for each symbol held, the signed amount, and the
//! quantity and cost of the fills that entered the position.
use crate::arith::div_floor;
use crate::types::{BrokerError, OrderSide, Position, PositionModel, POSITION_EPSILON};
use vstd::prelude::*;

verus! {

/// Model of the ledger: the position filed under each symbol that is held.
pub type LedgerModel = Map<Seq<char>, PositionModel>;

/// An amount that counts as no position at all.
pub open spec fn is_flat(amount: int) -> bool {
    -POSITION_EPSILON <= amount <= POSITION_EPSILON
}

/// The quantity with the sign of the side: bought counts positive, sold
/// negative.
pub open spec fn signed_quantity(side: OrderSide, quantity: nat) -> int {
    match side {
        OrderSide::Buy => quantity as int,
        OrderSide::Sell => -(quantity as int),
    }
}

/// How much an amount is, whatever its sign.
pub open spec fn magnitude(amount: int) -> int {
    if amount < 0 {
        -amount
    } else {
        amount
    }
}

/// The two amounts are on one side of zero: both long or both short.
pub open spec fn same_side(first: int, second: int) -> bool {
    (first > 0 && second > 0) || (first < 0 && second < 0)
}

/// What is held in the symbol: nothing, entered at no cost, where the ledger
/// has no entry for it.
pub open spec fn ledger_position(ledger: LedgerModel, symbol: Seq<char>) -> PositionModel {
    if ledger.contains_key(symbol) {
        ledger[symbol]
    } else {
        PositionModel { amount: 0, entered: 0, cost: 0 }
    }
}

/// The position in the symbol once the fill is booked on what is held.
///
/// - A fill on the side of the position enters it: its quantity and its
///   value are added to what was entered before.
/// - A fill against the position that leaves some of it takes from the
///   amount only: what was entered, and so the average price, stays.
/// - A fill where nothing was held, or one that takes the position to the
///   other side, opens a position: what is left of the fill is entered at
///   the fill's price.
pub open spec fn filled_position(
    ledger: LedgerModel,
    symbol: Seq<char>,
    side: OrderSide,
    quantity: nat,
    price: int,
) -> PositionModel {
    let held = ledger_position(ledger, symbol);
    let amount = held.amount + signed_quantity(side, quantity);
    if !same_side(held.amount, amount) {
        PositionModel { amount, entered: magnitude(amount), cost: magnitude(amount) * price }
    } else if same_side(held.amount, signed_quantity(side, quantity)) {
        PositionModel {
            amount,
            entered: held.entered + quantity,
            cost: held.cost + quantity * price,
        }
    } else {
        PositionModel { amount, entered: held.entered, cost: held.cost }
    }
}

/// The ledger after a fill: the symbol's entry holds the new position, or is
/// gone if the new amount counts as flat.
pub open spec fn ledger_fill(
    ledger: LedgerModel,
    symbol: Seq<char>,
    side: OrderSide,
    quantity: nat,
    price: int,
) -> LedgerModel {
    let position = filled_position(ledger, symbol, side, quantity, price);
    if is_flat(position.amount) {
        ledger.remove(symbol)
    } else {
        ledger.insert(symbol, position)
    }
}

/// The position after the fill can be held in the ledger's integers.
pub open spec fn fill_in_range(
    ledger: LedgerModel,
    symbol: Seq<char>,
    side: OrderSide,
    quantity: nat,
    price: int,
) -> bool {
    let position = filled_position(ledger, symbol, side, quantity, price);
    &&& i128::MIN <= position.amount <= i128::MAX
    &&& i128::MIN <= position.entered <= i128::MAX
    &&& i128::MIN <= position.cost <= i128::MAX
}

/// The average price of a position, in price units, rounded down: the cost
/// of what was entered, divided by its quantity. It is the quantity-weighted
/// mean of the prices of the fills that entered the position.
pub open spec fn average_price(position: PositionModel) -> int {
    position.cost / position.entered
}

/// Every entry of the ledger is a position: it does not count as flat, and
/// no less was entered than is held.
pub open spec fn ledger_open(ledger: LedgerModel) -> bool {
    forall|symbol: Seq<char>| #[trigger]
        ledger.contains_key(symbol) ==> !is_flat(ledger[symbol].amount)
            && ledger[symbol].entered >= magnitude(ledger[symbol].amount)
}

/// The product of a quantity and a price is within the range of cash.
pub proof fn lemma_product_in_range(quantity: u64, price: i64)
    ensures
        i128::MIN < quantity * price < i128::MAX,
        i128::MIN < -(quantity * price) < i128::MAX,
{
    assert(-0x8000_0000_0000_0000 <= price <= 0x7fff_ffff_ffff_ffff);
    assert(0 <= quantity <= 0xffff_ffff_ffff_ffff);
    assert(quantity * price <= 0xffff_ffff_ffff_ffff * 0x7fff_ffff_ffff_ffff) by (nonlinear_arith)
        requires
            0 <= quantity <= 0xffff_ffff_ffff_ffff,
            price <= 0x7fff_ffff_ffff_ffff,
    ;
    assert(quantity * price >= 0xffff_ffff_ffff_ffff * (-0x8000_0000_0000_0000)) by (nonlinear_arith)
        requires
            0 <= quantity <= 0xffff_ffff_ffff_ffff,
            price >= -0x8000_0000_0000_0000,
    ;
}

/// The value of a fill, in cash units, with the sign of its side: quantity
/// times price for a buy, the negative of that for a sell.
pub fn fill_value(side: OrderSide, quantity: u64, price: i64) -> (value: i128)
    ensures
        value == signed_quantity(side, quantity as nat) * price,
{
    proof {
        lemma_product_in_range(quantity, price);
    }
    let product: i128 = (quantity as i128) * (price as i128);
    match side {
        OrderSide::Buy => product,
        OrderSide::Sell => {
            assert((-(quantity as int)) * price == -(quantity * price)) by (nonlinear_arith);
            -product
        },
    }
}

impl Position {
    /// The average price of the position, in price units, rounded down.
    /// There is none where nothing was entered.
    pub fn price(&self) -> (price: Option<i128>)
        ensures
            price is Some == (self.entered > 0),
            price matches Some(p) ==> p == average_price(self@),
    {
        if self.entered > 0 {
            Some(div_floor(self.cost, self.entered))
        } else {
            None
        }
    }
}

/// The positions of a broker.
#[derive(Debug)]
pub struct Ledger {
    positions: Vec<Position>,
}

/// Some position of the sequence is in the symbol.
pub open spec fn holds(positions: Seq<Position>, symbol: Seq<char>) -> bool {
    exists|i: int| 0 <= i < positions.len() && (#[trigger] positions[i]).symbol@ == symbol
}

/// Where a position in the symbol stands in the sequence, if there is one.
pub open spec fn held_at(positions: Seq<Position>, symbol: Seq<char>) -> int {
    choose|i: int| 0 <= i < positions.len() && (#[trigger] positions[i]).symbol@ == symbol
}

/// No two positions of the sequence are in one symbol.
pub open spec fn one_per_symbol(positions: Seq<Position>) -> bool {
    forall|i: int, j: int|
        0 <= i < positions.len() && 0 <= j < positions.len() && i != j ==> (
        #[trigger] positions[i]).symbol@ != (#[trigger] positions[j]).symbol@
}

/// The ledger that a sequence of positions stands for.
pub open spec fn ledger_of(positions: Seq<Position>) -> LedgerModel {
    Map::new(
        |symbol: Seq<char>| holds(positions, symbol),
        |symbol: Seq<char>| positions[held_at(positions, symbol)]@,
    )
}

proof fn lemma_held_at(positions: Seq<Position>, i: int)
    requires
        one_per_symbol(positions),
        0 <= i < positions.len(),
    ensures
        holds(positions, positions[i].symbol@),
        held_at(positions, positions[i].symbol@) == i,
        ledger_of(positions)[positions[i].symbol@] == positions[i]@,
{
    let symbol = positions[i].symbol@;
    assert(holds(positions, symbol));
    let k = held_at(positions, symbol);
    assert(0 <= k < positions.len() && positions[k].symbol@ == symbol);
}

impl View for Ledger {
    type V = LedgerModel;

    closed spec fn view(&self) -> LedgerModel {
        ledger_of(self.positions@)
    }
}

impl Clone for Ledger {
    /// A ledger with the same position in each symbol.
    fn clone(&self) -> (copy: Ledger)
        ensures
            copy@ == self@,
    {
        Ledger { positions: self.positions() }
    }
}

impl Ledger {
    #[verifier::type_invariant]
    spec fn well_formed(self) -> bool {
        &&& one_per_symbol(self.positions@)
        &&& forall|i: int|
            0 <= i < self.positions@.len() ==> !is_flat((#[trigger] self.positions@[i]).amount as int)
                && self.positions@[i].entered >= magnitude(self.positions@[i].amount as int)
    }

    /// The ledger that holds nothing.
    pub fn new() -> (ledger: Ledger)
        ensures
            ledger@ == LedgerModel::empty(),
    {
        let ledger = Ledger { positions: Vec::new() };
        assert(ledger@ =~= LedgerModel::empty());
        ledger
    }

    /// The number of symbols held.
    pub fn len(&self) -> (n: usize)
        ensures
            n == self@.dom().len(),
            self@.dom().finite(),
            ledger_open(self@),
    {
        proof {
            use_type_invariant(self);
            lemma_domain(self.positions@);
            self.lemma_open();
        }
        self.positions.len()
    }

    proof fn lemma_open(self)
        requires
            self.well_formed(),
        ensures
            ledger_open(self@),
    {
        assert forall|symbol: Seq<char>| #[trigger] self@.contains_key(symbol) implies !is_flat(
            self@[symbol].amount,
        ) && self@[symbol].entered >= magnitude(self@[symbol].amount) by {
            let k = held_at(self.positions@, symbol);
            assert(self.positions@[k]@.amount == self.positions@[k].amount);
            assert(self.positions@[k]@.entered == self.positions@[k].entered);
        }
    }

    fn find(&self, symbol: &String) -> (found: Option<usize>)
        ensures
            found is Some == self@.contains_key(symbol@),
            found matches Some(i) ==> i < self.positions.len() && i == held_at(
                self.positions@,
                symbol@,
            ) && self.positions[i as int].symbol@ == symbol@ && self@[symbol@]
                == self.positions[i as int]@,
    {
        proof {
            use_type_invariant(self);
        }
        let mut i: usize = 0;
        while i < self.positions.len()
            invariant
                one_per_symbol(self.positions@),
                i <= self.positions.len(),
                forall|j: int| 0 <= j < i ==> (#[trigger] self.positions@[j]).symbol@ != symbol@,
            decreases self.positions.len() - i,
        {
            if self.positions[i].symbol == *symbol {
                proof {
                    lemma_held_at(self.positions@, i as int);
                }
                return Some(i);
            }
            i += 1;
        }
        None
    }

    /// The position held in the symbol.
    pub fn get(&self, symbol: &String) -> (found: Option<Position>)
        ensures
            ledger_open(self@),
            found is Some == self@.contains_key(symbol@),
            found matches Some(position) ==> position@ == self@[symbol@] && position.symbol@
                == symbol@,
    {
        proof {
            use_type_invariant(self);
            self.lemma_open();
        }
        match self.find(symbol) {
            Some(i) => Some(
                Position {
                    symbol: self.positions[i].symbol.clone(),
                    amount: self.positions[i].amount,
                    entered: self.positions[i].entered,
                    cost: self.positions[i].cost,
                },
            ),
            None => None,
        }
    }

    /// All the positions held, one for each symbol.
    pub fn positions(&self) -> (held: Vec<Position>)
        ensures
            held@.len() == self@.dom().len(),
            one_per_symbol(held@),
            ledger_of(held@) == self@,
            forall|i: int|
                0 <= i < held@.len() ==> self@.contains_key((#[trigger] held@[i]).symbol@)
                    && self@[held@[i].symbol@] == held@[i]@ && !is_flat(held@[i].amount as int)
                    && held@[i].entered >= magnitude(held@[i].amount as int),
    {
        proof {
            use_type_invariant(self);
            lemma_domain(self.positions@);
        }
        let mut held: Vec<Position> = Vec::new();
        let mut i: usize = 0;
        while i < self.positions.len()
            invariant
                i <= self.positions.len(),
                held.len() == i,
                forall|j: int|
                    0 <= j < i ==> (#[trigger] held[j]).symbol@ == self.positions[j].symbol@
                        && held[j].amount == self.positions[j].amount && held[j].entered
                        == self.positions[j].entered && held[j].cost == self.positions[j].cost,
            decreases self.positions.len() - i,
        {
            held.push(
                Position {
                    symbol: self.positions[i].symbol.clone(),
                    amount: self.positions[i].amount,
                    entered: self.positions[i].entered,
                    cost: self.positions[i].cost,
                },
            );
            i += 1;
        }
        proof {
            lemma_same_ledger(held@, self.positions@);
            assert forall|i: int| 0 <= i < held@.len() implies self@.contains_key(
                (#[trigger] held@[i]).symbol@,
            ) && self@[held@[i].symbol@] == held@[i]@ && !is_flat(held@[i].amount as int)
                && held@[i].entered >= magnitude(held@[i].amount as int) by {
                lemma_held_at(held@, i);
                assert(held@[i].amount == self.positions@[i].amount);
                assert(held@[i].entered == self.positions@[i].entered);
            }
        }
        held
    }

    /// Whether the fill would leave a position that the ledger can hold.
    pub fn accepts(&self, symbol: &String, side: OrderSide, quantity: u64, price: i64) -> (ok:
        bool)
        ensures
            ok == fill_in_range(self@, symbol@, side, quantity as nat, price as int),
    {
        self.filled(symbol, side, quantity, price).is_some()
    }

    /// The amount that the symbol would hold after the fill, with the
    /// quantity entered and its cost.
    fn filled(&self, symbol: &String, side: OrderSide, quantity: u64, price: i64) -> (after:
        Option<(i128, i128, i128)>)
        ensures
            after is Some == fill_in_range(self@, symbol@, side, quantity as nat, price as int),
            after matches Some(p) ==> (PositionModel {
                amount: p.0 as int,
                entered: p.1 as int,
                cost: p.2 as int,
            }) == filled_position(self@, symbol@, side, quantity as nat, price as int),
    {
        let (held, entered, cost): (i128, i128, i128) = match self.find(symbol) {
            Some(i) => (
                self.positions[i].amount,
                self.positions[i].entered,
                self.positions[i].cost,
            ),
            None => (0, 0, 0),
        };
        let delta: i128 = match side {
            OrderSide::Buy => quantity as i128,
            OrderSide::Sell => -(quantity as i128),
        };
        match held.checked_add(delta) {
            None => None,
            Some(amount) => {
                let stays = (held > 0 && amount > 0) || (held < 0 && amount < 0);
                let enters = (held > 0 && delta > 0) || (held < 0 && delta < 0);
                if !stays {
                    let left: u64 = if amount < 0 {
                        (-amount) as u64
                    } else {
                        amount as u64
                    };
                    proof {
                        lemma_product_in_range(left, price);
                    }
                    Some((amount, left as i128, (left as i128) * (price as i128)))
                } else if enters {
                    proof {
                        lemma_product_in_range(quantity, price);
                    }
                    let value: i128 = (quantity as i128) * (price as i128);
                    match (entered.checked_add(quantity as i128), cost.checked_add(value)) {
                        (Some(e), Some(c)) => Some((amount, e, c)),
                        _ => None,
                    }
                } else {
                    Some((amount, entered, cost))
                }
            },
        }
    }

    /// Books a fill on the position in the symbol. A fill on the position's
    /// side joins its average price; one against it leaves the average price
    /// of what remains as it was; one that passes zero, or finds nothing
    /// held, opens a position at the fill's price; one that leaves the
    /// amount flat closes the position. A fill whose result the ledger
    /// cannot hold is refused, and changes nothing.
    pub fn fill(&mut self, symbol: &String, side: OrderSide, quantity: u64, price: i64) -> (res:
        Result<(), BrokerError>)
        ensures
            ledger_open(final(self)@),
            res is Ok == fill_in_range(old(self)@, symbol@, side, quantity as nat, price as int),
            res is Ok ==> final(self)@ == ledger_fill(
                old(self)@,
                symbol@,
                side,
                quantity as nat,
                price as int,
            ),
            res is Err ==> res == Err::<(), BrokerError>(BrokerError::AmountOutOfRange)
                && final(self)@ == old(self)@,
    {
        proof {
            use_type_invariant(&*self);
            self.lemma_open();
        }
        let after = self.filled(symbol, side, quantity, price);
        let found = self.find(symbol);
        match after {
            None => Err(BrokerError::AmountOutOfRange),
            Some((amount, entered, cost)) => {
                let mut positions: Vec<Position> = Vec::new();
                core::mem::swap(&mut self.positions, &mut positions);
                let ghost before = positions@;
                let flat = -POSITION_EPSILON <= amount && amount <= POSITION_EPSILON;
                match found {
                    Some(i) => {
                        let held = positions.remove(i);
                        proof {
                            lemma_without(before, i as int);
                        }
                        if !flat {
                            let ghost removed = positions@;
                            positions.push(
                                Position { symbol: held.symbol, amount, entered, cost },
                            );
                            proof {
                                lemma_with(removed, positions@.last());
                                assert(ledger_of(positions@) =~= ledger_of(before).insert(
                                    symbol@,
                                    positions@.last()@,
                                ));
                            }
                        }
                    },
                    None => {
                        if !flat {
                            positions.push(
                                Position { symbol: symbol.clone(), amount, entered, cost },
                            );
                            proof {
                                lemma_with(before, positions@.last());
                            }
                        } else {
                            assert(ledger_of(before).remove(symbol@) =~= ledger_of(before));
                        }
                    },
                }
                self.positions = positions;
                proof {
                    self.lemma_open();
                }
                Ok(())
            },
        }
    }
}

/// Two sequences whose positions agree place by place stand for one ledger.
proof fn lemma_same_ledger(copy: Seq<Position>, positions: Seq<Position>)
    requires
        copy.len() == positions.len(),
        forall|j: int|
            0 <= j < copy.len() ==> (#[trigger] copy[j]).symbol@ == positions[j].symbol@
                && copy[j].amount == positions[j].amount && copy[j].entered
                == positions[j].entered && copy[j].cost == positions[j].cost,
        one_per_symbol(positions),
    ensures
        one_per_symbol(copy),
        ledger_of(copy) == ledger_of(positions),
{
    assert forall|i: int, j: int|
        0 <= i < copy.len() && 0 <= j < copy.len() && i != j implies (#[trigger] copy[i]).symbol@
        != (#[trigger] copy[j]).symbol@ by {
        assert(positions[i].symbol@ != positions[j].symbol@);
    }
    assert forall|symbol: Seq<char>| holds(copy, symbol) == holds(positions, symbol) by {
        if holds(copy, symbol) {
            let k = held_at(copy, symbol);
            assert(positions[k].symbol@ == symbol);
        }
        if holds(positions, symbol) {
            let k = held_at(positions, symbol);
            assert(copy[k].symbol@ == symbol);
        }
    }
    assert forall|symbol: Seq<char>| holds(copy, symbol) implies ledger_of(copy)[symbol]
        == ledger_of(positions)[symbol] by {
        let k = held_at(copy, symbol);
        assert(positions[k].symbol@ == symbol);
        lemma_held_at(positions, k);
    }
    assert(ledger_of(copy) =~= ledger_of(positions));
}

/// The symbols of a sequence with one position per symbol are as many as
/// its positions.
proof fn lemma_domain(positions: Seq<Position>)
    requires
        one_per_symbol(positions),
    ensures
        ledger_of(positions).dom().finite(),
        ledger_of(positions).dom().len() == positions.len(),
    decreases positions.len(),
{
    if positions.len() == 0 {
        assert(ledger_of(positions).dom() =~= Set::<Seq<char>>::empty());
    } else {
        let rest = positions.drop_last();
        let last = positions.last();
        assert forall|i: int, j: int|
            0 <= i < rest.len() && 0 <= j < rest.len() && i != j implies (#[trigger] rest[i]).symbol@
            != (#[trigger] rest[j]).symbol@ by {
            assert(rest[i] == positions[i] && rest[j] == positions[j]);
        }
        lemma_domain(rest);
        assert(!holds(rest, last.symbol@)) by {
            if holds(rest, last.symbol@) {
                let k = held_at(rest, last.symbol@);
                assert(rest[k] == positions[k]);
                assert(positions[positions.len() - 1] == last);
            }
        }
        assert(positions =~= rest.push(last));
        lemma_with(rest, last);
        assert(ledger_of(positions).dom() =~= ledger_of(rest).dom().insert(last.symbol@));
    }
}

/// Appending a position in a symbol that is not yet held files it under that
/// symbol.
proof fn lemma_with(positions: Seq<Position>, position: Position)
    requires
        one_per_symbol(positions),
        !holds(positions, position.symbol@),
    ensures
        one_per_symbol(positions.push(position)),
        ledger_of(positions.push(position)) == ledger_of(positions).insert(
            position.symbol@,
            position@,
        ),
{
    let after = positions.push(position);
    assert forall|i: int, j: int|
        0 <= i < after.len() && 0 <= j < after.len() && i != j implies (#[trigger] after[i]).symbol@
        != (#[trigger] after[j]).symbol@ by {
        if i < positions.len() {
            assert(after[i] == positions[i]);
        }
        if j < positions.len() {
            assert(after[j] == positions[j]);
        }
    }
    lemma_held_at(after, positions.len() as int);
    assert forall|symbol: Seq<char>|
        ledger_of(after).contains_key(symbol) == ledger_of(positions).insert(
            position.symbol@,
            position@,
        ).contains_key(symbol) by {
        if holds(positions, symbol) {
            let k = held_at(positions, symbol);
            assert(after[k] == positions[k]);
        }
        if holds(after, symbol) {
            let k = held_at(after, symbol);
            if k < positions.len() {
                assert(after[k] == positions[k]);
            }
        }
    }
    assert forall|symbol: Seq<char>| ledger_of(after).contains_key(symbol) implies ledger_of(
        after,
    )[symbol] == ledger_of(positions).insert(position.symbol@, position@)[symbol] by {
        if symbol != position.symbol@ {
            let k = held_at(positions, symbol);
            assert(after[k] == positions[k]);
            lemma_held_at(after, k);
        }
    }
    assert(ledger_of(after) =~= ledger_of(positions).insert(position.symbol@, position@));
}

/// Taking a position out of the sequence takes its symbol out of the ledger.
proof fn lemma_without(positions: Seq<Position>, i: int)
    requires
        one_per_symbol(positions),
        0 <= i < positions.len(),
    ensures
        one_per_symbol(positions.remove(i)),
        !holds(positions.remove(i), positions[i].symbol@),
        ledger_of(positions.remove(i)) == ledger_of(positions).remove(positions[i].symbol@),
{
    let after = positions.remove(i);
    let gone = positions[i].symbol@;
    assert forall|k: int| 0 <= k < after.len() implies #[trigger] after[k] == positions[if k < i {
        k
    } else {
        k + 1
    }] by {}
    assert forall|a: int, b: int|
        0 <= a < after.len() && 0 <= b < after.len() && a != b implies (#[trigger] after[a]).symbol@
        != (#[trigger] after[b]).symbol@ by {
        let pa = if a < i { a } else { a + 1 };
        let pb = if b < i { b } else { b + 1 };
        assert(after[a] == positions[pa] && after[b] == positions[pb]);
    }
    if holds(after, gone) {
        let k = held_at(after, gone);
        let pk = if k < i { k } else { k + 1 };
        assert(after[k] == positions[pk]);
    }
    assert forall|symbol: Seq<char>|
        ledger_of(after).contains_key(symbol) == ledger_of(positions).remove(gone).contains_key(
            symbol,
        ) by {
        if holds(positions, symbol) && symbol != gone {
            let k = held_at(positions, symbol);
            let ak = if k < i { k } else { k - 1 };
            assert(after[ak] == positions[k]);
        }
        if holds(after, symbol) {
            let k = held_at(after, symbol);
            let pk = if k < i { k } else { k + 1 };
            assert(after[k] == positions[pk]);
        }
    }
    assert forall|symbol: Seq<char>| ledger_of(after).contains_key(symbol) implies ledger_of(
        after,
    )[symbol] == ledger_of(positions).remove(gone)[symbol] by {
        let k = held_at(positions, symbol);
        let ak = if k < i { k } else { k - 1 };
        assert(after[ak] == positions[k]);
        lemma_held_at(after, ak);
    }
    assert(ledger_of(after) =~= ledger_of(positions).remove(gone));
}

} // verus!
