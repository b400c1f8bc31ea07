use vstd::prelude::*;

use crate::state::{title_text, MenuView, Mode};

verus! {

/// The part of the menu a piece of text belongs to; the terminal driver
/// gives each one its font style.
#[derive(Clone, Copy, Debug, PartialEq, Eq, Structural)]
pub enum Style {
    Plain,
    Title,
    Query,
    Items,
    Matched,
    Chosen,
    MoreTag,
}

/// One instruction for the terminal.
#[derive(Clone, Debug, PartialEq, Eq)]
pub enum DrawOp {
    /// Move the cursor to (row, column).
    MoveTo(u16, u16),
    /// Clear from the cursor to the end of the screen.
    ClearDown,
    /// Move the cursor to the start of the next line.
    NextLine,
    /// Print text in a style.
    Print(String, Style),
    ShowCursor,
    HideCursor,
}

/// A terminal instruction as the contracts see it.
pub enum OpView {
    MoveTo(u16, u16),
    ClearDown,
    NextLine,
    Print(Seq<char>, Style),
    ShowCursor,
    HideCursor,
}

impl View for DrawOp {
    type V = OpView;

    open spec fn view(&self) -> OpView {
        match self {
            DrawOp::MoveTo(r, c) => OpView::MoveTo(*r, *c),
            DrawOp::ClearDown => OpView::ClearDown,
            DrawOp::NextLine => OpView::NextLine,
            DrawOp::Print(s, st) => OpView::Print(s@, *st),
            DrawOp::ShowCursor => OpView::ShowCursor,
            DrawOp::HideCursor => OpView::HideCursor,
        }
    }
}

pub open spec fn ops_view(ops: Seq<DrawOp>) -> Seq<OpView> {
    ops.map_values(|o: DrawOp| o@)
}

/// Terminal columns a character is counted as: one for ASCII, two for any
/// other character.
pub open spec fn char_width(c: char) -> int {
    if (c as u32) < 0x80 {
        1
    } else {
        2
    }
}

/// Terminal columns a text is counted as.
pub open spec fn text_width(s: Seq<char>) -> int
    decreases s.len(),
{
    if s.len() == 0 {
        0
    } else {
        text_width(s.drop_last()) + char_width(s.last())
    }
}

/// The column of the caret in Query mode: after the title, ` /` and the
/// query up to the caret, capped at the last column a terminal can address.
pub open spec fn query_cursor_col<T>(v: MenuView<T>) -> int {
    let w = text_width(title_text(v) + " /"@) + text_width(v.query.take(v.insert));
    if w < 0xffff {
        w
    } else {
        0xffff
    }
}

/// Back to the anchor, and clear everything below it.
pub open spec fn clear_spec<T>(v: MenuView<T>) -> Seq<OpView> {
    seq![OpView::MoveTo(v.anchor_row as u16, 0), OpView::ClearDown]
}

/// The title line: the title, and in Query mode ` /` and the query.
pub open spec fn title_spec<T>(v: MenuView<T>) -> Seq<OpView> {
    match v.mode {
        Mode::Browse => seq![OpView::Print(title_text(v), Style::Title)],
        Mode::Query => seq![
            OpView::Print(title_text(v), Style::Title),
            OpView::Print(" /"@, Style::Plain),
            OpView::Print(v.query, Style::Query),
        ],
    }
}

/// Rows left for entries below the title, keeping one for the tag.
pub open spec fn entry_room<T>(v: MenuView<T>) -> int {
    let r = v.max_row - 2 - v.anchor_row;
    if r > 0 {
        r
    } else {
        0
    }
}

/// Entries of the active list from the scroll offset on.
pub open spec fn entries_left<T>(v: MenuView<T>) -> int {
    let r = v.active_len() - v.scroll;
    if r > 0 {
        r
    } else {
        0
    }
}

/// How many entries are drawn.
pub open spec fn shown_rows<T>(v: MenuView<T>) -> int {
    if entries_left(v) < entry_room(v) {
        entries_left(v)
    } else {
        entry_room(v)
    }
}

/// Some entries below the drawn ones do not fit.
pub open spec fn truncated<T>(v: MenuView<T>) -> bool {
    entries_left(v) > entry_room(v)
}

/// The item shown at position `idx` of the active list.
pub open spec fn entry_index<T>(v: MenuView<T>, idx: int) -> int {
    match v.mode {
        Mode::Browse => idx,
        Mode::Query => v.matched[idx] as int,
    }
}

/// A label one character at a time, the matched characters highlighted.
pub open spec fn highlight_spec(alias: Seq<char>, positions: Seq<usize>) -> Seq<OpView> {
    Seq::new(
        alias.len(),
        |k: int|
            OpView::Print(
                seq![alias[k]],
                if positions.contains(k as usize) {
                    Style::Matched
                } else {
                    Style::Plain
                },
            ),
    )
}

/// The row of the entry at position `idx` of the active list.
pub open spec fn line_spec<T>(v: MenuView<T>, idx: int) -> Seq<OpView> {
    let it = v.items[entry_index(v, idx)];
    if idx == v.selection + v.scroll {
        seq![OpView::Print("> "@, Style::Plain), OpView::Print(it.alias_view(), Style::Chosen)]
    } else {
        match (v.mode, it.positions_view()) {
            (Mode::Query, Some(p)) => if p.len() > 0 {
                seq![OpView::Print("  "@, Style::Plain)] + highlight_spec(it.alias_view(), p)
            } else {
                seq![OpView::Print("  "@, Style::Plain), OpView::Print(it.alias_view(), Style::Items)]
            },
            _ => seq![OpView::Print("  "@, Style::Plain), OpView::Print(it.alias_view(), Style::Items)],
        }
    }
}

/// The first `n` drawn entries, each on a line of its own.
pub open spec fn rows_spec<T>(v: MenuView<T>, n: nat) -> Seq<OpView>
    decreases n,
{
    if n == 0 {
        Seq::empty()
    } else {
        rows_spec(v, (n - 1) as nat) + seq![OpView::NextLine] + line_spec(v, v.scroll + n - 1)
    }
}

/// The line below the entries: a tag that more entries follow, or that the
/// list ended (when the end tag is on).
pub open spec fn tail_spec<T>(v: MenuView<T>) -> Seq<OpView> {
    seq![OpView::NextLine] + if truncated(v) {
        seq![OpView::Print("---more---"@, Style::MoreTag)]
    } else if v.show_end_tag {
        seq![OpView::Print("---end---"@, Style::MoreTag)]
    } else {
        Seq::empty()
    }
}

/// In Query mode the cursor stands at the caret; in Browse mode it is hidden.
pub open spec fn cursor_spec<T>(v: MenuView<T>) -> Seq<OpView> {
    match v.mode {
        Mode::Browse => seq![OpView::HideCursor],
        Mode::Query => seq![
            OpView::MoveTo(v.anchor_row as u16, query_cursor_col(v) as u16),
            OpView::ShowCursor,
        ],
    }
}

/// The whole menu as drawn for its current state.
pub open spec fn draw_spec<T>(v: MenuView<T>) -> Seq<OpView> {
    clear_spec(v) + title_spec(v) + rows_spec(v, shown_rows(v) as nat) + tail_spec(v) + cursor_spec(v)
}

/// What is left on screen when the menu closes: the title and the chosen
/// label, or the title alone, when results are printed; nothing otherwise.
pub open spec fn finish_spec<T>(v: MenuView<T>) -> Seq<OpView> {
    clear_spec(v) + if !v.print_result {
        Seq::empty()
    } else if v.selected && v.active_len() > 0 {
        seq![
            OpView::Print(title_text(v), Style::Title),
            OpView::Print(" "@, Style::Plain),
            OpView::Print(v.items[v.selected_index()].alias_view(), Style::Plain),
            OpView::NextLine,
        ]
    } else {
        seq![OpView::Print(title_text(v), Style::Title), OpView::NextLine]
    }
}

/// Appends one instruction.
pub fn push_op(ops: &mut Vec<DrawOp>, op: DrawOp)
    ensures
        ops_view(final(ops)@) == ops_view(old(ops)@).push(op@),
{
    let ghost pre = ops@;
    ops.push(op);
    assert(ops_view(ops@) =~= ops_view(pre).push(op@));
}

/// Prints a text in a style.
pub fn push_print(ops: &mut Vec<DrawOp>, text: &str, style: Style)
    ensures
        ops_view(final(ops)@) == ops_view(old(ops)@).push(OpView::Print(text@, style)),
{
    push_op(ops, DrawOp::Print(text.to_owned(), style));
}

/// Columns a text is counted as, capped at `0xffff`.
pub fn width_of(s: &Vec<char>, n: usize) -> (r: u32)
    requires
        n <= s@.len(),
    ensures
        r == (if text_width(s@.take(n as int)) < 0xffff {
            text_width(s@.take(n as int))
        } else {
            0xffff
        }),
{
    let mut w: u32 = 0;
    let mut i: usize = 0;
    while i < n
        invariant
            i <= n <= s@.len(),
            w == (if text_width(s@.take(i as int)) < 0xffff {
                text_width(s@.take(i as int))
            } else {
                0xffff
            }),
            text_width(s@.take(i as int)) >= 0,
        decreases n - i,
    {
        proof {
            assert(s@.take(i + 1).drop_last() =~= s@.take(i as int));
            assert(s@.take(i + 1).last() == s@[i as int]);
        }
        let c = s[i];
        let cw: u32 = if (c as u32) < 0x80 {
            1
        } else {
            2
        };
        if w + cw < 0xffff {
            w = w + cw;
        } else {
            w = 0xffff;
        }
        i += 1;
    }
    w
}

} // verus!
