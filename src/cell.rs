use vstd::prelude::*;

verus! {

/// A slot that is filled at most once and is read-only afterwards.
///
/// Filling the slot needs exclusive access to the cell, so among any number of
/// attempts exactly one wins: the first one that is served. Readers can share
/// the cell freely once it holds its value.
pub struct StaticCell<T> {
    value: Option<T>,
}

impl<T> View for StaticCell<T> {
    type V = Option<T>;

    /// The value held, or `None` while the cell is empty.
    closed spec fn view(&self) -> Option<T> {
        self.value
    }
}

impl<T> StaticCell<T> {
    /// Creates an empty cell.
    pub fn new() -> (r: Self)
        ensures
            r@ is None,
    {
        StaticCell { value: None }
    }

    /// Returns the value if the cell has been filled.
    pub fn get(&self) -> (r: Option<&T>)
        ensures
            r is Some <==> self@ is Some,
            r is Some ==> self@ == Some(*r->0),
    {
        self.value.as_ref()
    }

    /// Fills the cell with `value` if it is still empty.
    ///
    /// Returns `true` when this call filled the cell. Otherwise the cell keeps
    /// the value it had and `value` is dropped.
    pub fn try_init(&mut self, value: T) -> (r: bool)
        ensures
            r == (old(self)@ is None),
            final(self)@ == (if r { Some(value) } else { old(self)@ }),
    {
        if self.value.is_none() {
            self.value = Some(value);
            true
        } else {
            false
        }
    }
}

/// The contents of a cell that starts as `start` and then meets an attempt
/// to fill it with each of `values` in turn, with the outcome of each attempt.
pub open spec fn attempts<T>(start: Option<T>, values: Seq<T>) -> (Option<T>, Seq<bool>)
    decreases values.len(),
{
    if values.len() == 0 {
        (start, Seq::empty())
    } else {
        let (before, outcomes) = attempts(start, values.drop_last());
        let won = before is None;
        (if won { Some(values.last()) } else { before }, outcomes.push(won))
    }
}

/// Of any number of attempts to fill an empty cell, exactly one succeeds: the
/// first to be served. From then on, after every later attempt, the cell
/// holds the winning value.
pub proof fn lemma_exactly_one_init<T>(values: Seq<T>)
    requires
        values.len() > 0,
    ensures
        attempts(None, values).1.len() == values.len(),
        attempts(None, values).1[0],
        forall|i: int| 0 < i < values.len() ==> !#[trigger] attempts(None, values).1[i],
        forall|k: int|
            1 <= k <= values.len() ==> #[trigger] attempts(None, values.take(k)).0 == Some(
                values[0],
            ),
    decreases values.len(),
{
    let n = values.len() as int;
    let prefix = values.drop_last();
    if n == 1 {
        assert(prefix =~= Seq::<T>::empty());
        assert(attempts(None, prefix) == (None::<T>, Seq::<bool>::empty()));
        assert(values.take(1) =~= values);
    } else {
        lemma_exactly_one_init(prefix);
        let outcomes = attempts(None, prefix).1;
        assert(attempts(None, values).1 == outcomes.push(false));
        assert(prefix.take(n - 1) =~= prefix);
        assert(attempts(None, prefix).0 == Some(values[0]));
        assert forall|k: int| 1 <= k <= n implies #[trigger] attempts(None, values.take(k)).0
            == Some(values[0]) by {
            if k < n {
                assert(values.take(k) =~= prefix.take(k));
            } else {
                assert(values.take(k) =~= values);
            }
        }
    }
}

/// Once a cell holds a value, every further attempt fails and the cell keeps
/// that value, so each read returns the same value.
pub proof fn lemma_filled_cell_stable<T>(v: T, values: Seq<T>)
    ensures
        attempts(Some(v), values).0 == Some(v),
        attempts(Some(v), values).1.len() == values.len(),
        forall|i: int| 0 <= i < values.len() ==> !#[trigger] attempts(Some(v), values).1[i],
    decreases values.len(),
{
    if values.len() > 0 {
        lemma_filled_cell_stable(v, values.drop_last());
    }
}

impl<T> Default for StaticCell<T> {
    fn default() -> (r: Self)
        ensures
            r@ is None,
    {
        StaticCell::new()
    }
}

} // verus!
