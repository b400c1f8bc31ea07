use vstd::prelude::*;

verus! {

/// An entry of the menu: the label shown to the user and the value handed
/// back when the entry is chosen.
pub struct Item<T> {
    alias: String,
    pub value: T,
    score: Option<i64>,
    matched_positions: Option<Vec<usize>>,
}

impl<T> Item<T> {
    /// The label of the item.
    pub closed spec fn alias_view(&self) -> Seq<char> {
        self.alias@
    }

    /// The value carried by the item.
    pub closed spec fn value_view(&self) -> T {
        self.value
    }

    /// The score of the item against the current query, if it matched.
    pub closed spec fn score_view(&self) -> Option<i64> {
        self.score
    }

    /// The character offsets of the label that matched the current query.
    pub closed spec fn positions_view(&self) -> Option<Seq<usize>> {
        match self.matched_positions {
            Some(v) => Some(v@),
            None => None,
        }
    }

    /// The item with no match recorded.
    pub closed spec fn cleared(self) -> Item<T> {
        Item { score: None, matched_positions: None, ..self }
    }

    pub fn new(display: &str, value: T) -> (r: Item<T>)
        ensures
            r.alias_view() == display@,
            r.value_view() == value,
            r.score_view() is None,
            r.positions_view() is None,
    {
        Item { alias: display.to_owned(), value, score: None, matched_positions: None }
    }

    pub fn alias(&self) -> (r: &str)
        ensures
            r@ == self.alias_view(),
    {
        self.alias.as_str()
    }

    pub fn score(&self) -> (r: Option<i64>)
        ensures
            r == self.score_view(),
    {
        self.score
    }

    pub fn matched_positions(&self) -> (r: Option<&Vec<usize>>)
        ensures
            match r {
                Some(v) => self.positions_view() == Some(v@),
                None => self.positions_view() is None,
            },
    {
        match &self.matched_positions {
            Some(v) => Some(v),
            None => None,
        }
    }

    /// Forgets the outcome of the last match.
    pub(crate) fn clear_match(&mut self)
        ensures
            *final(self) == old(self).cleared(),
            final(self).alias_view() == old(self).alias_view(),
            final(self).value_view() == old(self).value_view(),
            final(self).score_view() is None,
            final(self).positions_view() is None,
    {
        self.score = None;
        self.matched_positions = None;
    }

    /// Records the outcome of matching the label against a query.
    pub(crate) fn set_match(&mut self, score: Option<i64>, positions: Option<Vec<usize>>)
        ensures
            final(self).alias_view() == old(self).alias_view(),
            final(self).value_view() == old(self).value_view(),
            final(self).score_view() == score,
            final(self).positions_view() == match positions {
                Some(v) => Some(v@),
                None => None::<Seq<usize>>,
            },
    {
        self.score = score;
        self.matched_positions = positions;
    }
}

} // verus!
