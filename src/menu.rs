use vstd::prelude::*;

use crate::item::Item;
use crate::key::{KeyCode, KeyEvent, KeyResponse, Modifiers};
use crate::rank::Ranker;
use crate::render::{
    clear_spec, cursor_spec, draw_spec, entries_left, entry_index, entry_room, finish_spec,
    highlight_spec, line_spec, ops_view, push_op, push_print, query_cursor_col, rows_spec,
    shown_rows, tail_spec, title_spec, truncated, width_of, DrawOp, OpView, Style,
};
use crate::state::{
    browse_key_effect, browse_of, fresh_item, key_down_spec, key_effect, key_enter_spec,
    key_up_spec, lemma_capped_rows, lemma_requery_wf, lemma_selection_in_list, overflow_rows,
    query_key_effect, query_mode_of, requery, title_text, with_max_height, MenuView, Mode,
    FULL_HEIGHT,
};
use crate::style::{is_default_scheme, ColorScheme};
use crate::text::{chars_of, string_of};

verus! {

/// The selection engine of the menu.
pub struct Menu<T> {
    title: Option<String>,
    items: Vec<Item<T>>,
    mode: Mode,
    anchor_row: u16,
    max_row: u16,
    selection_idx: usize,
    scroll_offset: usize,
    selected: bool,
    query: Vec<char>,
    insert_idx: usize,
    matched: Vec<usize>,
    height_ppm: u32,
    show_end_tag: bool,
    print_result: bool,
    colorscheme: ColorScheme,
    ranker: Ranker,
}

impl<T> View for Menu<T> {
    type V = MenuView<T>;

    closed spec fn view(&self) -> MenuView<T> {
        MenuView {
            items: self.items@,
            mode: self.mode,
            anchor_row: self.anchor_row as int,
            max_row: self.max_row as int,
            selection: self.selection_idx as int,
            scroll: self.scroll_offset as int,
            selected: self.selected,
            query: self.query@,
            insert: self.insert_idx as int,
            matched: self.matched@,
            title: match self.title {
                Some(t) => Some(t@),
                None => None,
            },
            show_end_tag: self.show_end_tag,
            print_result: self.print_result,
            height_ppm: self.height_ppm as int,
            scheme: self.colorscheme,
        }
    }
}

impl<T: Sync> Menu<T> {
    /// A menu whose title line sits on terminal row `anchor_row` of a terminal
    /// `term_rows` rows high.
    pub fn new(anchor_row: u16, term_rows: u16) -> (r: Menu<T>)
        ensures
            r@.wf(),
            r@.items.len() == 0,
            r@.mode == Mode::Browse,
            r@.anchor_row == anchor_row,
            r@.max_row == term_rows,
            r@.selection == 0,
            r@.scroll == 0,
            !r@.selected,
            r@.query.len() == 0,
            r@.insert == 0,
            r@.matched.len() == 0,
            r@.title is None,
            r@.show_end_tag,
            r@.print_result,
            r@.height_ppm == FULL_HEIGHT,
            is_default_scheme(r@.scheme),
    {
        Menu {
            title: None,
            items: Vec::new(),
            mode: Mode::Browse,
            anchor_row,
            max_row: term_rows,
            selection_idx: 0,
            scroll_offset: 0,
            selected: false,
            query: Vec::new(),
            insert_idx: 0,
            matched: Vec::new(),
            height_ppm: FULL_HEIGHT,
            show_end_tag: true,
            print_result: true,
            colorscheme: ColorScheme::default(),
            ranker: Ranker::new(),
        }
    }

    fn active_len(&self) -> (r: usize)
        ensures
            r == self@.active_len(),
    {
        match self.mode {
            Mode::Browse => self.items.len(),
            Mode::Query => self.matched.len(),
        }
    }

    fn key_up(&mut self) -> (r: KeyResponse)
        requires
            old(self)@.wf(),
        ensures
            (final(self)@, r@) == key_up_spec(old(self)@),
    {
        if self.selection_idx == 0 {
            if self.scroll_offset == 0 {
                return KeyResponse::new(false, false);
            }
            self.scroll_offset = self.scroll_offset - 1;
            return KeyResponse::new(false, true);
        }
        self.selection_idx = self.selection_idx - 1;
        KeyResponse::new(false, true)
    }

    fn key_down(&mut self) -> (r: KeyResponse)
        requires
            old(self)@.wf(),
        ensures
            (final(self)@, r@) == key_down_spec(old(self)@),
    {
        let cnt = self.active_len();
        if cnt == 0 || self.selection_idx + self.scroll_offset >= cnt - 1 {
            return KeyResponse::new(false, false);
        }
        let reserved: usize = self.anchor_row as usize + 3;
        let rows: usize = self.max_row as usize;
        if reserved >= rows || self.selection_idx >= rows - reserved {
            self.scroll_offset = self.scroll_offset + 1;
            return KeyResponse::new(false, true);
        }
        self.selection_idx = self.selection_idx + 1;
        KeyResponse::new(false, true)
    }

    fn key_enter(&mut self) -> (r: KeyResponse)
        requires
            old(self)@.wf(),
        ensures
            (final(self)@, r@) == key_enter_spec(old(self)@),
    {
        if self.active_len() > 0 {
            self.selected = true;
            KeyResponse::new(true, false)
        } else {
            KeyResponse::new(false, false)
        }
    }

    fn key_esc(&mut self) -> (r: KeyResponse)
        requires
            old(self)@.wf(),
        ensures
            old(self)@.mode == Mode::Browse ==> final(self)@ == old(self)@ && r@ == (true, false),
            old(self)@.mode == Mode::Query ==> final(self)@ == browse_of(old(self)@) && r@ == (
                false,
                true,
            ),
    {
        match self.mode {
            Mode::Browse => KeyResponse::new(true, false),
            Mode::Query => {
                self.enter_normal_mode();
                KeyResponse::new(false, true)
            },
        }
    }

    /// Back to Browse mode: the query, the matches and the items' scores are
    /// dropped.
    fn enter_normal_mode(&mut self)
        ensures
            final(self)@ == browse_of(old(self)@),
    {
        self.mode = Mode::Browse;
        self.matched.clear();
        self.query = Vec::new();
        self.insert_idx = 0;
        let ghost before = self.items@;
        let ghost mid = self@;
        let mut i: usize = 0;
        while i < self.items.len()
            invariant
                self@ == (MenuView { items: self.items@, ..mid }),
                i <= self.items@.len(),
                self.items@.len() == before.len(),
                forall|k: int| 0 <= k < i ==> #[trigger] self.items@[k] == before[k].cleared(),
                forall|k: int| i <= k < before.len() ==> #[trigger] self.items@[k] == before[k],
            decreases before.len() - i,
        {
            self.items[i].clear_match();
            i += 1;
        }
        assert(self.items@ =~= before.map_values(|it: Item<T>| it.cleared()));
        assert(self.matched@ =~= Seq::<usize>::empty());
        assert(self.query@ =~= Seq::<char>::empty());
    }

    /// Into Query mode with an empty query.
    fn enter_query_mode(&mut self)
        ensures
            final(self)@ == query_mode_of(old(self)@),
    {
        self.mode = Mode::Query;
        self.query = Vec::new();
        self.insert_idx = 0;
    }

    /// Ranks the items against the current query, and puts the selection back
    /// at the top of the matches.
    fn fuzzy_match(&mut self)
        ensures
            requery(old(self)@, final(self)@, old(self)@.query, old(self)@.insert),
    {
        self.selection_idx = 0;
        self.scroll_offset = 0;
        self.matched = self.ranker.rank(&mut self.items, &self.query);
    }

    /// Handles one key event: updates the menu as the key's effect says, and
    /// tells whether the interaction ends and whether to draw again.
    pub fn dispatch_key(&mut self, key: KeyEvent) -> (r: KeyResponse)
        requires
            old(self)@.wf(),
        ensures
            final(self)@.wf(),
            key_effect(old(self)@, final(self)@, key, r@),
    {
        match key.modifiers {
            Modifiers::Plain => self.dispatch_code(key.code),
            Modifiers::Control => {
                if key.code == KeyCode::Char('c') {
                    return KeyResponse::new(true, false);
                }
                if self.mode == Mode::Query {
                    match key.code {
                        KeyCode::Char('n') => {
                            return self.key_down();
                        },
                        KeyCode::Char('p') => {
                            return self.key_up();
                        },
                        _ => {},
                    }
                }
                KeyResponse::new(false, false)
            },
            Modifiers::Other => KeyResponse::new(false, false),
        }
    }

    fn dispatch_code(&mut self, code: KeyCode) -> (r: KeyResponse)
        requires
            old(self)@.wf(),
        ensures
            final(self)@.wf(),
            old(self)@.mode == Mode::Browse ==> browse_key_effect(old(self)@, final(self)@, code, r@),
            old(self)@.mode == Mode::Query ==> query_key_effect(old(self)@, final(self)@, code, r@),
    {
        match self.mode {
            Mode::Browse => self.dispatch_normal(code),
            Mode::Query => self.dispatch_query(code),
        }
    }

    fn dispatch_normal(&mut self, code: KeyCode) -> (r: KeyResponse)
        requires
            old(self)@.wf(),
            old(self)@.mode == Mode::Browse,
        ensures
            final(self)@.wf(),
            browse_key_effect(old(self)@, final(self)@, code, r@),
    {
        match code {
            KeyCode::Up | KeyCode::Char('k') => self.key_up(),
            KeyCode::Down | KeyCode::Char('j') => self.key_down(),
            KeyCode::Esc => self.key_esc(),
            KeyCode::Enter => self.key_enter(),
            KeyCode::Char('/') => {
                self.enter_query_mode();
                KeyResponse::new(false, true)
            },
            _ => KeyResponse::new(false, false),
        }
    }

    fn dispatch_query(&mut self, code: KeyCode) -> (r: KeyResponse)
        requires
            old(self)@.wf(),
            old(self)@.mode == Mode::Query,
        ensures
            final(self)@.wf(),
            query_key_effect(old(self)@, final(self)@, code, r@),
    {
        match code {
            KeyCode::Esc => self.key_esc(),
            KeyCode::Up => self.key_up(),
            KeyCode::Down => self.key_down(),
            KeyCode::Left => {
                if self.insert_idx > 0 {
                    self.insert_idx = self.insert_idx - 1;
                }
                KeyResponse::new(false, true)
            },
            KeyCode::Right => {
                if self.insert_idx < self.query.len() {
                    self.insert_idx = self.insert_idx + 1;
                }
                KeyResponse::new(false, true)
            },
            KeyCode::Enter => self.key_enter(),
            KeyCode::Char(c) => {
                self.query.insert(self.insert_idx, c);
                let len = self.query.len();
                assert(self.insert_idx < len);
                self.insert_idx = self.insert_idx + 1;
                self.rerank();
                KeyResponse::new(false, true)
            },
            KeyCode::Backspace => {
                if self.query.len() > 0 && self.insert_idx > 0 {
                    self.insert_idx = self.insert_idx - 1;
                    self.query.remove(self.insert_idx);
                    self.rerank();
                    KeyResponse::new(false, true)
                } else {
                    KeyResponse::new(false, false)
                }
            },
            _ => KeyResponse::new(false, false),
        }
    }

    /// `fuzzy_match`, with the facts that keep the menu well formed.
    fn rerank(&mut self)
        requires
            old(self)@.wf(),
            old(self)@.mode == Mode::Query,
        ensures
            final(self)@.wf(),
            requery(old(self)@, final(self)@, old(self)@.query, old(self)@.insert),
    {
        self.fuzzy_match();
        proof {
            lemma_requery_wf(old(self)@, self@, old(self)@.query, old(self)@.insert);
        }
    }

    /// Index of the chosen item, once the user has chosen one.
    pub fn selection(&self) -> (r: Option<usize>)
        requires
            self@.wf(),
        ensures
            r == (if self@.selected && self@.active_len() > 0 {
                Some(self@.selected_index() as usize)
            } else {
                None::<usize>
            }),
            r matches Some(i) ==> i < self@.items.len() && i as int == self@.selected_index(),
    {
        if !self.selected || self.active_len() == 0 {
            return None;
        }
        proof {
            lemma_selection_in_list(self@);
        }
        let pos = self.selection_idx + self.scroll_offset;
        match self.mode {
            Mode::Browse => Some(pos),
            Mode::Query => Some(self.matched[pos]),
        }
    }

    /// The chosen item, once the user has chosen one.
    pub fn get_selection(&self) -> (r: Option<&Item<T>>)
        requires
            self@.wf(),
        ensures
            match r {
                Some(it) => self@.selected && self@.active_len() > 0 && *it
                    == self@.items[self@.selected_index()],
                None => !(self@.selected && self@.active_len() > 0),
            },
    {
        proof {
            if self@.selected && self@.active_len() > 0 {
                lemma_selection_in_list(self@);
            }
        }
        match self.selection() {
            Some(i) => Some(&self.items[i]),
            None => None,
        }
    }

    /// Makes room for the menu below the anchor: returns how many rows the
    /// terminal must scroll up (at most one less than the usable rows), and
    /// moves the anchor up by the rows that overflow.
    pub fn scroll_to_fit(&mut self, term_rows: u16) -> (r: u16)
        requires
            old(self)@.wf(),
        ensures
            final(self)@.wf(),
            final(self)@ == (MenuView {
                anchor_row: if old(self)@.anchor_row > overflow_rows(old(self)@, term_rows as int) {
                    old(self)@.anchor_row - overflow_rows(old(self)@, term_rows as int)
                } else {
                    0
                },
                ..old(self)@
            }),
            r as int == (if overflow_rows(old(self)@, term_rows as int) < old(self)@.max_row - 1 {
                overflow_rows(old(self)@, term_rows as int)
            } else if old(self)@.max_row > 0 {
                old(self)@.max_row - 1
            } else {
                0
            }),
    {
        proof {
            lemma_capped_rows(self.max_row as int, self.height_ppm as int);
        }
        let capped: u64 = self.max_row as u64 * self.height_ppm as u64 / FULL_HEIGHT as u64;
        let shown: u64 = if (self.items.len() as u64) < capped {
            self.items.len() as u64
        } else {
            capped
        };
        let need: u64 = shown + 2 + self.anchor_row as u64;
        let diff: u64 = if need < term_rows as u64 {
            0
        } else {
            need - term_rows as u64
        };
        if self.anchor_row as u64 > diff {
            self.anchor_row = (self.anchor_row as u64 - diff) as u16;
        } else {
            self.anchor_row = 0;
        }
        let limit: u64 = if self.max_row > 0 {
            self.max_row as u64 - 1
        } else {
            0
        };
        if diff < limit {
            diff as u16
        } else {
            limit as u16
        }
    }

    /// Caps the menu's height at `ppm` parts per million of the usable rows;
    /// a cap outside (0, 1] is ignored.
    pub fn set_max_height(&mut self, ppm: u32) -> (r: &mut Self)
        requires
            old(self)@.wf(),
        ensures
            r@ == with_max_height(old(self)@, ppm as int),
            r@.wf(),
            *final(self) == *final(r),
    {
        if ppm == 0 || ppm > FULL_HEIGHT {
            return self;
        }
        proof {
            lemma_capped_rows(self.max_row as int, ppm as int);
        }
        let limit: u32 = (self.max_row as u64 * ppm as u64 / FULL_HEIGHT as u64) as u32
            + self.anchor_row as u32 + 1;
        self.height_ppm = ppm;
        if (self.max_row as u32) >= limit {
            self.max_row = limit as u16;
        }
        self
    }

    pub fn set_colorscheme(&mut self, cs: ColorScheme) -> (r: &mut Self)
        ensures
            r@ == (MenuView { scheme: cs, ..old(self)@ }),
            *final(self) == *final(r),
    {
        self.colorscheme = cs;
        self
    }

    pub fn colorscheme(&self) -> (r: &ColorScheme)
        ensures
            *r == self@.scheme,
    {
        &self.colorscheme
    }

    /// Forgets an earlier choice, so that a new session starts with none.
    pub fn clear_selection(&mut self)
        requires
            old(self)@.wf(),
        ensures
            final(self)@ == (MenuView { selected: false, ..old(self)@ }),
            final(self)@.wf(),
    {
        self.selected = false;
    }

    /// Whether to print an end tag below a list that fits on screen.
    pub fn show_end_tag(&mut self, b: bool) -> (r: &mut Self)
        ensures
            r@ == (MenuView { show_end_tag: b, ..old(self)@ }),
            *final(self) == *final(r),
    {
        self.show_end_tag = b;
        self
    }

    /// Sets the title shown on the anchor row.
    pub fn set_title(&mut self, t: &str) -> (r: &mut Self)
        ensures
            r@ == (MenuView { title: Some(t@), ..old(self)@ }),
            *final(self) == *final(r),
    {
        self.title = Some(t.to_owned());
        self
    }

    /// Whether the chosen item is to be printed after the menu closes.
    pub fn enable_print_result(&mut self, b: bool) -> (r: &mut Self)
        ensures
            r@ == (MenuView { print_result: b, ..old(self)@ }),
            *final(self) == *final(r),
    {
        self.print_result = b;
        self
    }

    /// The title, or `select` when none was set.
    pub fn get_title(&self) -> (r: &str)
        ensures
            r@ == title_text(self@),
    {
        match &self.title {
            Some(t) => t.as_str(),
            None => "select",
        }
    }

    pub fn add(&mut self, item: Item<T>) -> (r: &mut Self)
        requires
            old(self)@.wf(),
        ensures
            r@ == (MenuView { items: old(self)@.items.push(item), ..old(self)@ }),
            r@.wf(),
            *final(self) == *final(r),
    {
        self.items.push(item);
        self
    }

    pub fn add_list(&mut self, items: Vec<Item<T>>) -> (r: &mut Self)
        requires
            old(self)@.wf(),
        ensures
            r@ == (MenuView { items: old(self)@.items + items@, ..old(self)@ }),
            r@.wf(),
            *final(self) == *final(r),
    {
        let mut items = items;
        self.items.append(&mut items);
        self
    }

    /// Adds an item made of a label and a value.
    pub fn add_item(&mut self, display: &str, value: T) -> (r: &mut Self)
        requires
            old(self)@.wf(),
        ensures
            r@.items.len() == old(self)@.items.len() + 1,
            r@.items.take(old(self)@.items.len() as int) == old(self)@.items,
            fresh_item(r@.items.last(), display@, value),
            r@ == (MenuView { items: r@.items, ..old(self)@ }),
            r@.wf(),
            *final(self) == *final(r),
    {
        self.items.push(Item::new(display, value));
        proof {
            assert(self@.items.take(old(self)@.items.len() as int) =~= old(self)@.items);
        }
        self
    }

    /// Adds one item for each label and value, in order.
    pub fn add_item_list(&mut self, items: Vec<(&str, T)>) -> (r: &mut Self)
        requires
            old(self)@.wf(),
        ensures
            r@.items.len() == old(self)@.items.len() + items@.len(),
            r@.items.take(old(self)@.items.len() as int) == old(self)@.items,
            forall|k: int|
                0 <= k < items@.len() ==> fresh_item(
                    #[trigger] r@.items[old(self)@.items.len() + k],
                    items@[k].0@,
                    items@[k].1,
                ),
            r@ == (MenuView { items: r@.items, ..old(self)@ }),
            r@.wf(),
            *final(self) == *final(r),
    {
        let ghost pre = self@;
        let ghost given = items@;
        let n = items.len();
        let mut items = items;
        let mut reversed: Vec<(&str, T)> = Vec::new();
        while items.len() > 0
            invariant
                items@.len() + reversed@.len() == given.len(),
                forall|k: int| 0 <= k < items@.len() ==> #[trigger] items@[k] == given[k],
                forall|k: int|
                    0 <= k < reversed@.len() ==> #[trigger] reversed@[k] == given[given.len() - 1
                        - k],
            decreases items@.len(),
        {
            let last = items.pop().unwrap();
            reversed.push(last);
        }
        while reversed.len() > 0
            invariant
                self@ == (MenuView { items: self@.items, ..pre }),
                self@.items.len() + reversed@.len() == pre.items.len() + given.len(),
                self@.items.len() >= pre.items.len(),
                self@.items.take(pre.items.len() as int) == pre.items,
                forall|k: int|
                    0 <= k < reversed@.len() ==> #[trigger] reversed@[k] == given[given.len() - 1
                        - k],
                forall|k: int|
                    0 <= k < self@.items.len() - pre.items.len() ==> fresh_item(
                        #[trigger] self@.items[pre.items.len() + k],
                        given[k].0@,
                        given[k].1,
                    ),
                pre.wf(),
            decreases reversed@.len(),
        {
            let (display, value) = reversed.pop().unwrap();
            let ghost before = self@.items;
            self.items.push(Item::new(display, value));
            proof {
                assert(self@.items.take(pre.items.len() as int) =~= before.take(pre.items.len() as int));
            }
        }
        self
    }

    /// Clears the items and the interaction state for a new session anchored
    /// at `anchor_row` on a terminal `term_rows` rows high; the title and the
    /// other settings stay.
    pub fn reset(&mut self, anchor_row: u16, term_rows: u16)
        requires
            old(self)@.wf(),
        ensures
            final(self)@ == (MenuView {
                items: Seq::empty(),
                mode: Mode::Browse,
                anchor_row: anchor_row as int,
                max_row: term_rows as int,
                selection: 0,
                scroll: 0,
                selected: false,
                query: Seq::empty(),
                insert: 0,
                matched: Seq::empty(),
                ..old(self)@
            }),
            final(self)@.wf(),
    {
        self.items.clear();
        self.matched.clear();
        self.selected = false;
        self.mode = Mode::Browse;
        self.anchor_row = anchor_row;
        self.max_row = term_rows;
        self.query = Vec::new();
        self.insert_idx = 0;
        self.selection_idx = 0;
        self.scroll_offset = 0;
        proof {
            assert(self@.items =~= Seq::<Item<T>>::empty());
            assert(self@.matched =~= Seq::<usize>::empty());
            assert(self@.query =~= Seq::<char>::empty());
        }
    }

    pub fn items(&self) -> (r: &Vec<Item<T>>)
        ensures
            r@ == self@.items,
    {
        &self.items
    }

    pub fn mode(&self) -> (r: Mode)
        ensures
            r == self@.mode,
    {
        self.mode
    }

    /// The query typed so far.
    pub fn query(&self) -> (r: String)
        ensures
            r@ == self@.query,
    {
        string_of(&self.query)
    }

    /// The caret position in the query, in characters.
    pub fn insert_offset(&self) -> (r: usize)
        ensures
            r == self@.insert,
    {
        self.insert_idx
    }

    /// The indices of the items that match the query, best first.
    pub fn matched_indices(&self) -> (r: &Vec<usize>)
        ensures
            r@ == self@.matched,
    {
        &self.matched
    }

    pub fn selection_index(&self) -> (r: usize)
        ensures
            r == self@.selection,
    {
        self.selection_idx
    }

    pub fn scroll_offset(&self) -> (r: usize)
        ensures
            r == self@.scroll,
    {
        self.scroll_offset
    }

    pub fn anchor_row(&self) -> (r: u16)
        ensures
            r == self@.anchor_row,
    {
        self.anchor_row
    }

    pub fn max_row(&self) -> (r: u16)
        ensures
            r == self@.max_row,
    {
        self.max_row
    }

    pub fn is_selected(&self) -> (r: bool)
        ensures
            r == self@.selected,
    {
        self.selected
    }

    pub fn print_result(&self) -> (r: bool)
        ensures
            r == self@.print_result,
    {
        self.print_result
    }
}

/// Whether `k` is among the positions.
fn contains_pos(p: &Vec<usize>, k: usize) -> (r: bool)
    ensures
        r == p@.contains(k),
{
    let mut i: usize = 0;
    while i < p.len()
        invariant
            i <= p@.len(),
            forall|j: int| 0 <= j < i ==> p@[j] != k,
        decreases p@.len() - i,
    {
        if p[i] == k {
            return true;
        }
        i += 1;
    }
    false
}

/// Prints a label one character at a time, the matched ones highlighted.
fn push_highlighted(ops: &mut Vec<DrawOp>, alias: &str, positions: &Vec<usize>)
    ensures
        ops_view(final(ops)@) == ops_view(old(ops)@) + highlight_spec(alias@, positions@),
{
    let chars = chars_of(alias);
    let ghost pre = ops_view(ops@);
    let mut k: usize = 0;
    while k < chars.len()
        invariant
            k <= chars@.len(),
            chars@ == alias@,
            ops_view(ops@) == pre + highlight_spec(alias@, positions@).take(k as int),
        decreases chars@.len() - k,
    {
        let one = vec![chars[k]];
        let style = if contains_pos(positions, k) {
            Style::Matched
        } else {
            Style::Plain
        };
        let text = string_of(&one);
        proof {
            assert(one@ =~= seq![alias@[k as int]]);
        }
        push_op(ops, DrawOp::Print(text, style));
        proof {
            assert(highlight_spec(alias@, positions@).take(k + 1) =~= highlight_spec(
                alias@,
                positions@,
            ).take(k as int).push(OpView::Print(seq![alias@[k as int]], style)));
        }
        k += 1;
    }
    assert(highlight_spec(alias@, positions@).take(k as int) =~= highlight_spec(alias@, positions@));
}

impl<T: Sync> Menu<T> {
    /// Back to the anchor, and clear everything below it.
    fn clear(&self, ops: &mut Vec<DrawOp>)
        ensures
            ops_view(final(ops)@) == ops_view(old(ops)@) + clear_spec(self@),
    {
        let ghost pre = ops_view(ops@);
        push_op(ops, DrawOp::MoveTo(self.anchor_row, 0));
        push_op(ops, DrawOp::ClearDown);
        assert(ops_view(ops@) =~= pre + clear_spec(self@));
    }

    fn print_title(&self, ops: &mut Vec<DrawOp>)
        ensures
            ops_view(final(ops)@) == ops_view(old(ops)@) + title_spec(self@),
    {
        let ghost pre = ops_view(ops@);
        push_print(ops, self.get_title(), Style::Title);
        match self.mode {
            Mode::Browse => {},
            Mode::Query => {
                push_print(ops, " /", Style::Plain);
                push_op(ops, DrawOp::Print(string_of(&self.query), Style::Query));
            },
        }
        assert(ops_view(ops@) =~= pre + title_spec(self@));
    }

    /// The row of the entry at position `idx` of the active list.
    fn print_line(&self, ops: &mut Vec<DrawOp>, idx: usize)
        requires
            self@.wf(),
            idx < self@.active_len(),
        ensures
            ops_view(final(ops)@) == ops_view(old(ops)@) + line_spec(self@, idx as int),
    {
        let ghost pre = ops_view(ops@);
        let item_idx = match self.mode {
            Mode::Browse => idx,
            Mode::Query => self.matched[idx],
        };
        assert(item_idx as int == entry_index(self@, idx as int));
        let item = &self.items[item_idx];
        let total = self.items.len();
        assert(self.selection_idx + self.scroll_offset <= total);
        if idx == self.selection_idx + self.scroll_offset {
            push_print(ops, "> ", Style::Plain);
            push_print(ops, item.alias(), Style::Chosen);
            assert(ops_view(ops@) =~= pre + line_spec(self@, idx as int));
            return;
        }
        if self.mode == Mode::Query {
            match item.matched_positions() {
                Some(p) => {
                    if p.len() > 0 {
                        push_print(ops, "  ", Style::Plain);
                        push_highlighted(ops, item.alias(), p);
                        assert(ops_view(ops@) =~= pre + line_spec(self@, idx as int));
                        return;
                    }
                },
                None => {},
            }
        }
        push_print(ops, "  ", Style::Plain);
        push_print(ops, item.alias(), Style::Items);
        assert(ops_view(ops@) =~= pre + line_spec(self@, idx as int));
    }

    /// The entries from the scroll offset on, as many as fit, and the tag
    /// line below them.
    fn print_options(&self, ops: &mut Vec<DrawOp>)
        requires
            self@.wf(),
        ensures
            ops_view(final(ops)@) == ops_view(old(ops)@) + rows_spec(self@, shown_rows(self@) as nat)
                + tail_spec(self@),
    {
        let ghost pre = ops_view(ops@);
        let cnt = self.active_len();
        let anchor: usize = self.anchor_row as usize;
        let rows: usize = self.max_row as usize;
        let room: usize = if rows > anchor + 2 {
            rows - 2 - anchor
        } else {
            0
        };
        let left: usize = if cnt > self.scroll_offset {
            cnt - self.scroll_offset
        } else {
            0
        };
        let shown: usize = if left < room {
            left
        } else {
            room
        };
        assert(room as int == entry_room(self@));
        assert(left as int == entries_left(self@));
        assert(shown as int == shown_rows(self@));
        let mut n: usize = 0;
        while n < shown
            invariant
                self@.wf(),
                n <= shown,
                shown as int == shown_rows(self@),
                shown <= left,
                left as int == entries_left(self@),
                left > 0 ==> self.scroll_offset + left == cnt,
                cnt == self@.active_len(),
                ops_view(ops@) == pre + rows_spec(self@, n as nat),
            decreases shown - n,
        {
            push_op(ops, DrawOp::NextLine);
            self.print_line(ops, self.scroll_offset + n);
            proof {
                assert(rows_spec(self@, (n + 1) as nat) == rows_spec(self@, n as nat) + seq![
                    OpView::NextLine,
                ] + line_spec(self@, self@.scroll + n));
                assert(ops_view(ops@) =~= pre + rows_spec(self@, (n + 1) as nat));
            }
            n += 1;
        }
        let ghost mid = ops_view(ops@);
        push_op(ops, DrawOp::NextLine);
        if left > room {
            push_print(ops, "---more---", Style::MoreTag);
        } else if self.show_end_tag {
            push_print(ops, "---end---", Style::MoreTag);
        }
        assert(truncated(self@) == (left > room));
        assert(ops_view(ops@) =~= mid + tail_spec(self@));
    }

    /// In Query mode the cursor moves to the caret; in Browse mode it hides.
    fn print_cursor(&self, ops: &mut Vec<DrawOp>)
        requires
            self@.wf(),
        ensures
            ops_view(final(ops)@) == ops_view(old(ops)@) + cursor_spec(self@),
    {
        let ghost pre = ops_view(ops@);
        match self.mode {
            Mode::Browse => {
                push_op(ops, DrawOp::HideCursor);
            },
            Mode::Query => {
                let col = self.get_query_cursor_col();
                push_op(ops, DrawOp::MoveTo(self.anchor_row, col));
                push_op(ops, DrawOp::ShowCursor);
            },
        }
        assert(ops_view(ops@) =~= pre + cursor_spec(self@));
    }

    /// The column of the caret in Query mode.
    pub fn get_query_cursor_col(&self) -> (r: u16)
        requires
            self@.wf(),
        ensures
            r as int == query_cursor_col(self@),
    {
        let mut prefix = chars_of(self.get_title());
        prefix.push(' ');
        prefix.push('/');
        let n = prefix.len();
        let a = width_of(&prefix, n);
        let b = width_of(&self.query, self.insert_idx);
        proof {
            reveal_strlit(" /");
            assert(prefix@ =~= crate::state::title_text(self@) + " /"@);
            assert(prefix@.take(n as int) =~= prefix@);
        }
        if a + b < 0xffff {
            (a + b) as u16
        } else {
            0xffff
        }
    }

    /// The instructions that draw the menu in its current state.
    pub fn draw(&self) -> (r: Vec<DrawOp>)
        requires
            self@.wf(),
        ensures
            ops_view(r@) == draw_spec(self@),
    {
        let mut ops: Vec<DrawOp> = Vec::new();
        self.clear(&mut ops);
        self.print_title(&mut ops);
        self.print_options(&mut ops);
        self.print_cursor(&mut ops);
        assert(ops_view(ops@) =~= draw_spec(self@));
        ops
    }

    /// The instructions that close the menu: clear it, and print the result
    /// when results are printed.
    pub fn finish(&self) -> (r: Vec<DrawOp>)
        requires
            self@.wf(),
        ensures
            ops_view(r@) == finish_spec(self@),
    {
        let mut ops: Vec<DrawOp> = Vec::new();
        self.clear(&mut ops);
        if self.print_result {
            push_print(&mut ops, self.get_title(), Style::Title);
            match self.get_selection() {
                Some(item) => {
                    push_print(&mut ops, " ", Style::Plain);
                    push_print(&mut ops, item.alias(), Style::Plain);
                },
                None => {},
            }
            push_op(&mut ops, DrawOp::NextLine);
        }
        assert(ops_view(ops@) =~= finish_spec(self@));
        ops
    }
}

} // verus!
