use vstd::prelude::*;

use crate::item::Item;
use crate::key::{KeyCode, KeyEvent, Modifiers};
use crate::rank::{
    aliases_of, is_kept, kept_value, lemma_rank_twice, lemma_ranking_len, lemma_ranking_scores,
    outcomes_of, rank_outcome, ranked_item,
};
use crate::style::ColorScheme;

verus! {

/// Parts per million of a full-height menu: the height cap when none is set.
pub const FULL_HEIGHT: u32 = 1000000;

/// Browse navigates the whole list; Query navigates the items that match the
/// typed query.
#[derive(Clone, Copy, Debug, PartialEq, Eq, Structural)]
pub enum Mode {
    Browse,
    Query,
}

/// The menu as its contracts see it.
pub struct MenuView<T> {
    pub items: Seq<Item<T>>,
    pub mode: Mode,
    /// Terminal row of the title line.
    pub anchor_row: int,
    /// Number of terminal rows the menu may use, counted from the top.
    pub max_row: int,
    /// Selected row, relative to the first visible entry.
    pub selection: int,
    /// Index of the first visible entry of the active list.
    pub scroll: int,
    pub selected: bool,
    pub query: Seq<char>,
    /// Caret position in the query, in characters.
    pub insert: int,
    /// Item indices that match the query, best first.
    pub matched: Seq<usize>,
    pub title: Option<Seq<char>>,
    pub show_end_tag: bool,
    pub print_result: bool,
    /// Height cap, in parts per million of the terminal height.
    pub height_ppm: int,
    pub scheme: ColorScheme,
}

impl<T> MenuView<T> {
    /// Length of the list being navigated.
    pub open spec fn active_len(self) -> int {
        match self.mode {
            Mode::Browse => self.items.len() as int,
            Mode::Query => self.matched.len() as int,
        }
    }

    /// The item that the selected row shows.
    pub open spec fn selected_index(self) -> int {
        match self.mode {
            Mode::Browse => self.selection + self.scroll,
            Mode::Query => self.matched[self.selection + self.scroll] as int,
        }
    }

    pub open spec fn wf(self) -> bool {
        &&& 0 <= self.selection
        &&& 0 <= self.scroll
        &&& 0 <= self.anchor_row < 0x10000
        &&& 0 <= self.max_row < 0x10000
        &&& 0 < self.height_ppm <= FULL_HEIGHT
        &&& self.selection + self.scroll < self.items.len() || (self.selection == 0 && self.scroll
            == 0)
        &&& self.mode == Mode::Query && self.matched.len() > 0 ==> self.selection + self.scroll
            < self.matched.len()
        &&& self.mode == Mode::Browse ==> self.matched.len() == 0
        &&& self.matched.len() <= self.items.len()
        &&& forall|k: int| 0 <= k < self.matched.len() ==> #[trigger] self.matched[k] < self.items.len()
        &&& 0 <= self.insert <= self.query.len()
    }
}

/// Up: move the selection up a row, or scroll back one entry from the top row.
pub open spec fn key_up_spec<T>(v: MenuView<T>) -> (MenuView<T>, (bool, bool)) {
    if v.selection == 0 {
        if v.scroll == 0 {
            (v, (false, false))
        } else {
            (MenuView { scroll: v.scroll - 1, ..v }, (false, true))
        }
    } else {
        (MenuView { selection: v.selection - 1, ..v }, (false, true))
    }
}

/// The selected row has reached the last row the menu may use for entries.
pub open spec fn at_bottom_row<T>(v: MenuView<T>) -> bool {
    v.selection + v.anchor_row + 3 >= v.max_row
}

/// Down: nothing at the end of the list; scroll one entry from the bottom row;
/// else move the selection down a row.
pub open spec fn key_down_spec<T>(v: MenuView<T>) -> (MenuView<T>, (bool, bool)) {
    if v.selection + v.scroll + 1 >= v.active_len() {
        (v, (false, false))
    } else if at_bottom_row(v) {
        (MenuView { scroll: v.scroll + 1, ..v }, (false, true))
    } else {
        (MenuView { selection: v.selection + 1, ..v }, (false, true))
    }
}

/// Enter: choose the selected entry and end, if the list has one.
pub open spec fn key_enter_spec<T>(v: MenuView<T>) -> (MenuView<T>, (bool, bool)) {
    if v.active_len() > 0 {
        (MenuView { selected: true, ..v }, (true, false))
    } else {
        (v, (false, false))
    }
}

/// Back to Browse: no query, no matches, no scores.
pub open spec fn browse_of<T>(v: MenuView<T>) -> MenuView<T> {
    MenuView {
        mode: Mode::Browse,
        query: Seq::empty(),
        insert: 0,
        matched: Seq::empty(),
        items: v.items.map_values(|it: Item<T>| it.cleared()),
        ..v
    }
}

/// Into Query mode with an empty query.
pub open spec fn query_mode_of<T>(v: MenuView<T>) -> MenuView<T> {
    MenuView { mode: Mode::Query, query: Seq::empty(), insert: 0, ..v }
}

/// `post` is `pre` with the query set to `query`, the caret at `insert`, the
/// items ranked against the new query and the selection back at the top.
pub open spec fn requery<T>(pre: MenuView<T>, post: MenuView<T>, query: Seq<char>, insert: int) -> bool {
    &&& rank_outcome(pre.items, post.items, query, post.matched)
    &&& post == MenuView {
        items: post.items,
        matched: post.matched,
        query,
        insert,
        selection: 0,
        scroll: 0,
        ..pre
    }
}

/// The caret one character left, stopping at the start.
pub open spec fn caret_left(insert: int) -> int {
    if insert > 0 {
        insert - 1
    } else {
        0
    }
}

/// The caret one character right, stopping at the end of the query.
pub open spec fn caret_right(insert: int, len: int) -> int {
    if insert + 1 < len {
        insert + 1
    } else {
        len
    }
}

/// The effect of a key without modifiers in Browse mode.
pub open spec fn browse_key_effect<T>(pre: MenuView<T>, post: MenuView<T>, code: KeyCode, r: (bool, bool)) -> bool {
    match code {
        KeyCode::Up | KeyCode::Char('k') => (post, r) == key_up_spec(pre),
        KeyCode::Down | KeyCode::Char('j') => (post, r) == key_down_spec(pre),
        KeyCode::Esc => post == pre && r == (true, false),
        KeyCode::Enter => (post, r) == key_enter_spec(pre),
        KeyCode::Char('/') => post == query_mode_of(pre) && r == (false, true),
        _ => post == pre && r == (false, false),
    }
}

/// The effect of a key without modifiers in Query mode.
pub open spec fn query_key_effect<T>(pre: MenuView<T>, post: MenuView<T>, code: KeyCode, r: (bool, bool)) -> bool {
    match code {
        KeyCode::Esc => post == browse_of(pre) && r == (false, true),
        KeyCode::Up => (post, r) == key_up_spec(pre),
        KeyCode::Down => (post, r) == key_down_spec(pre),
        KeyCode::Left => post == MenuView { insert: caret_left(pre.insert), ..pre } && r == (false, true),
        KeyCode::Right => post == MenuView { insert: caret_right(pre.insert, pre.query.len() as int), ..pre }
            && r == (false, true),
        KeyCode::Enter => (post, r) == key_enter_spec(pre),
        KeyCode::Char(c) => requery(pre, post, pre.query.insert(pre.insert, c), pre.insert + 1) && r
            == (false, true),
        KeyCode::Backspace => if pre.query.len() > 0 && pre.insert > 0 {
            requery(pre, post, pre.query.remove(pre.insert - 1), pre.insert - 1) && r == (false, true)
        } else {
            post == pre && r == (false, false)
        },
        _ => post == pre && r == (false, false),
    }
}

/// The effect of one key event on the menu, and the response to it.
pub open spec fn key_effect<T>(pre: MenuView<T>, post: MenuView<T>, key: KeyEvent, r: (bool, bool)) -> bool {
    match key.modifiers {
        Modifiers::Plain => match pre.mode {
            Mode::Browse => browse_key_effect(pre, post, key.code, r),
            Mode::Query => query_key_effect(pre, post, key.code, r),
        },
        Modifiers::Control => if key.code == KeyCode::Char('c') {
            post == pre && r == (true, false)
        } else if pre.mode == Mode::Query && key.code == KeyCode::Char('n') {
            (post, r) == key_down_spec(pre)
        } else if pre.mode == Mode::Query && key.code == KeyCode::Char('p') {
            (post, r) == key_up_spec(pre)
        } else {
            post == pre && r == (false, false)
        },
        Modifiers::Other => post == pre && r == (false, false),
    }
}

/// How many entries the menu shows at most: the items, up to the height cap
/// applied to the usable rows.
pub open spec fn shown_cap<T>(v: MenuView<T>) -> int {
    let cap = v.max_row * v.height_ppm / (FULL_HEIGHT as int);
    if v.items.len() < cap {
        v.items.len() as int
    } else {
        cap
    }
}

/// How many rows the terminal must scroll so that the title, the shown
/// entries and the tag row fit below the anchor on a terminal `term_rows`
/// rows high.
pub open spec fn overflow_rows<T>(v: MenuView<T>, term_rows: int) -> int {
    let need = shown_cap(v) + 2 + v.anchor_row;
    if need < term_rows {
        0
    } else {
        need - term_rows
    }
}

/// A capped row count is no more than the rows it is taken of.
pub proof fn lemma_capped_rows(rows: int, ppm: int)
    requires
        0 <= rows < 0x10000,
        0 < ppm <= FULL_HEIGHT,
    ensures
        0 <= rows * ppm <= rows * (FULL_HEIGHT as int),
        0 <= rows * ppm / (FULL_HEIGHT as int) <= rows,
{
    assert(0 <= rows * ppm <= rows * (FULL_HEIGHT as int)) by (nonlinear_arith)
        requires
            0 <= rows,
            0 < ppm <= FULL_HEIGHT,
    ;
    assert(rows * ppm / (FULL_HEIGHT as int) <= rows) by (nonlinear_arith)
        requires
            0 <= rows * ppm <= rows * (FULL_HEIGHT as int),
            0 <= rows,
    ;
}

/// The menu after the height cap `ppm` (parts per million of the usable
/// rows); a cap outside (0, 1] is ignored.
pub open spec fn with_max_height<T>(v: MenuView<T>, ppm: int) -> MenuView<T> {
    if ppm <= 0 || ppm > FULL_HEIGHT {
        v
    } else {
        let limit = v.max_row * ppm / (FULL_HEIGHT as int) + v.anchor_row + 1;
        MenuView {
            height_ppm: ppm,
            max_row: if v.max_row < limit {
                v.max_row
            } else {
                limit
            },
            ..v
        }
    }
}

/// The title shown on the anchor row.
pub open spec fn title_text<T>(v: MenuView<T>) -> Seq<char> {
    match v.title {
        Some(t) => t,
        None => "select"@,
    }
}

/// `item` is a fresh item made of a label and a value.
pub open spec fn fresh_item<T>(item: Item<T>, alias: Seq<char>, value: T) -> bool {
    &&& item.alias_view() == alias
    &&& item.value_view() == value
    &&& item.score_view() is None
    &&& item.positions_view() is None
}

/// Every selection and scroll that a well-formed menu can hold points into the
/// active list, whenever that list is not empty.
pub proof fn lemma_selection_in_list<T>(v: MenuView<T>)
    requires
        v.wf(),
        v.active_len() > 0,
    ensures
        0 <= v.selection + v.scroll < v.active_len(),
        0 <= v.selected_index() < v.items.len(),
{
    if v.mode == Mode::Query {
        assert(v.matched[v.selection + v.scroll] < v.items.len());
    }
}

/// Re-ranking keeps a menu well formed: the matches are item indices, no more
/// of them than items, and the selection is back at the top.
pub proof fn lemma_requery_wf<T>(pre: MenuView<T>, post: MenuView<T>, query: Seq<char>, insert: int)
    requires
        pre.wf(),
        pre.mode == Mode::Query,
        0 <= insert <= query.len(),
        requery(pre, post, query, insert),
    ensures
        post.wf(),
{
    let outs = outcomes_of(aliases_of(pre.items), query);
    lemma_ranking_len(outs, post.matched);
    assert forall|k: int| 0 <= k < post.matched.len() implies #[trigger] post.matched[k]
        < post.items.len() by {
        assert(post.matched[k] < outs.len());
    }
}

/// Every key keeps a menu well formed: whatever keys come, the caret stays
/// between characters of the query, and the selection stays inside the
/// active list whenever that list has entries.
pub proof fn lemma_key_keeps_wf<T>(pre: MenuView<T>, post: MenuView<T>, key: KeyEvent, r: (bool, bool))
    requires
        pre.wf(),
        key_effect(pre, post, key, r),
    ensures
        post.wf(),
        0 <= post.insert <= post.query.len(),
        post.active_len() > 0 ==> 0 <= post.selection + post.scroll < post.active_len(),
{
    if key.modifiers == Modifiers::Plain && pre.mode == Mode::Query {
        match key.code {
            KeyCode::Char(c) => {
                lemma_requery_wf(pre, post, pre.query.insert(pre.insert, c), pre.insert + 1);
            },
            KeyCode::Backspace => {
                if pre.query.len() > 0 && pre.insert > 0 {
                    lemma_requery_wf(pre, post, pre.query.remove(pre.insert - 1), pre.insert - 1);
                }
            },
            _ => {},
        }
    }
    if post.active_len() > 0 {
        lemma_selection_in_list(post);
    }
}

/// After a query edit every matched item carries a positive score, the
/// scores never rise along the matches, and the selection is at the top.
pub proof fn lemma_requery_scores<T>(pre: MenuView<T>, post: MenuView<T>, query: Seq<char>, insert: int)
    requires
        requery(pre, post, query, insert),
    ensures
        post.selection == 0 && post.scroll == 0,
        forall|k: int|
            0 <= k < post.matched.len() ==> #[trigger] post.matched[k] < post.items.len()
                && post.items[post.matched[k] as int].score_view() is Some
                && post.items[post.matched[k] as int].score_view()->0 > 0,
        forall|a: int, b: int|
            0 <= a < b < post.matched.len() ==> post.items[#[trigger] post.matched[a] as int].score_view()->0
                >= post.items[#[trigger] post.matched[b] as int].score_view()->0,
{
    let outs = outcomes_of(aliases_of(pre.items), query);
    lemma_ranking_scores(outs, post.matched);
    assert forall|k: int| 0 <= k < post.matched.len() implies #[trigger] post.matched[k]
        < post.items.len() && post.items[post.matched[k] as int].score_view() is Some
        && post.items[post.matched[k] as int].score_view()->0 > 0 by {
        let i = post.matched[k] as int;
        assert(i < outs.len() && is_kept(outs[i]));
        assert(ranked_item(pre.items[i], post.items[i], outs[i]));
        assert(kept_value(outs[i]) > 0);
    }
    assert forall|a: int, b: int| 0 <= a < b < post.matched.len() implies post.items[
        #[trigger] post.matched[a] as int].score_view()->0 >= post.items[
        #[trigger] post.matched[b] as int].score_view()->0 by {
        let i = post.matched[a] as int;
        let j = post.matched[b] as int;
        assert(i < outs.len() && is_kept(outs[i]));
        assert(j < outs.len() && is_kept(outs[j]));
        assert(ranked_item(pre.items[i], post.items[i], outs[i]));
        assert(ranked_item(pre.items[j], post.items[j], outs[j]));
        assert(kept_value(outs[i]) >= kept_value(outs[j]));
    }
}

/// Ranking the same query twice with nothing changed in between keeps the
/// matches, and every item's score and matched offsets.
pub proof fn lemma_requery_twice<T>(
    pre: MenuView<T>,
    mid: MenuView<T>,
    post: MenuView<T>,
    query: Seq<char>,
    insert: int,
)
    requires
        requery(pre, mid, query, insert),
        requery(mid, post, query, insert),
    ensures
        post.matched == mid.matched,
        post.items.len() == mid.items.len(),
        forall|k: int|
            0 <= k < mid.items.len() ==> (#[trigger] post.items[k]).score_view()
                == mid.items[k].score_view() && post.items[k].positions_view()
                == mid.items[k].positions_view(),
{
    lemma_rank_twice(pre.items, mid.items, post.items, query, mid.matched, post.matched);
}

/// Down moves the selected entry exactly one place on, by moving either the
/// selection or the scroll offset, unless the selection is at the end of
/// the list, where nothing changes.
pub proof fn lemma_down_moves_one<T>(v: MenuView<T>)
    requires
        v.wf(),
    ensures
        ({
            let (post, r) = key_down_spec(v);
            if v.selection + v.scroll + 1 < v.active_len() {
                &&& post.selection + post.scroll == v.selection + v.scroll + 1
                &&& (post.scroll == v.scroll + 1 && post.selection == v.selection) || (post.scroll
                    == v.scroll && post.selection == v.selection + 1)
                &&& (post.scroll == v.scroll + 1) == at_bottom_row(v)
                &&& r == (false, true)
            } else {
                post == v && r == (false, false)
            }
        }),
{
}

} // verus!
