use termenu::{Item, KeyCode, KeyEvent, Menu, Mode, Modifiers};

fn key(code: KeyCode) -> KeyEvent {
    KeyEvent::new(code, Modifiers::Plain)
}

fn ctrl(c: char) -> KeyEvent {
    KeyEvent::new(KeyCode::Char(c), Modifiers::Control)
}

fn menu_of(labels: &[&str], anchor: u16, rows: u16) -> Menu<usize> {
    let mut m = Menu::new(anchor, rows);
    for (i, l) in labels.iter().enumerate() {
        m.add(Item::new(l, i));
    }
    m
}

fn type_text(m: &mut Menu<usize>, s: &str) {
    for c in s.chars() {
        let r = m.dispatch_key(key(KeyCode::Char(c)));
        assert!(!r.exit());
        assert!(r.redraw());
    }
}

#[test]
fn browse_down_twice_enter_selects_gamma() {
    let mut m = menu_of(&["alpha", "beta", "gamma"], 0, 24);
    m.dispatch_key(key(KeyCode::Down));
    m.dispatch_key(key(KeyCode::Down));
    let r = m.dispatch_key(key(KeyCode::Enter));
    assert!(r.exit());
    assert!(!r.redraw());
    let chosen = m.get_selection().unwrap();
    assert_eq!(chosen.alias(), "gamma");
    assert_eq!(chosen.value, 2);
    assert_eq!(m.selection(), Some(2));
}

#[test]
fn query_ap_keeps_apple_and_grape_not_banana() {
    let mut m = menu_of(&["apple", "banana", "grape"], 0, 24);
    let r = m.dispatch_key(key(KeyCode::Char('/')));
    assert!(!r.exit() && r.redraw());
    assert_eq!(m.mode(), Mode::Query);
    type_text(&mut m, "ap");
    assert_eq!(m.query(), "ap");
    let matched = m.matched_indices().clone();
    assert!(matched.contains(&0));
    assert!(matched.contains(&2));
    assert!(!matched.contains(&1));
    let apple = &m.items()[0];
    assert!(apple.score().unwrap() > 0);
    assert_eq!(apple.matched_positions().unwrap().len(), 2);
    assert_eq!(m.items()[1].score(), None);
}

#[test]
fn fifty_items_scroll_once_per_press_past_bottom_row() {
    let labels: Vec<String> = (0..50).map(|i| format!("item {}", i)).collect();
    let refs: Vec<&str> = labels.iter().map(|s| s.as_str()).collect();
    let mut m = menu_of(&refs, 0, 10);
    assert_eq!(m.scroll_to_fit(10), 2);
    assert_eq!(m.anchor_row(), 0);
    let mut scrolls = Vec::new();
    let mut selections = Vec::new();
    for _ in 0..9 {
        let r = m.dispatch_key(key(KeyCode::Down));
        assert!(r.redraw());
        scrolls.push(m.scroll_offset());
        selections.push(m.selection_index());
    }
    assert_eq!(scrolls, vec![0, 0, 0, 0, 0, 0, 0, 1, 2]);
    assert_eq!(selections, vec![1, 2, 3, 4, 5, 6, 7, 7, 7]);
}

#[test]
fn esc_in_query_returns_to_browse_with_query_and_matches_cleared() {
    let mut m = menu_of(&["apple", "banana", "grape"], 0, 24);
    m.dispatch_key(key(KeyCode::Char('/')));
    type_text(&mut m, "ap");
    assert!(!m.matched_indices().is_empty());
    let r = m.dispatch_key(key(KeyCode::Esc));
    assert!(!r.exit());
    assert!(r.redraw());
    assert_eq!(m.mode(), Mode::Browse);
    assert_eq!(m.query(), "");
    assert_eq!(m.insert_offset(), 0);
    assert!(m.matched_indices().is_empty());
    assert_eq!(m.items()[0].score(), None);
    assert!(m.items()[0].matched_positions().is_none());
}

#[test]
fn esc_in_browse_exits_without_selection() {
    let mut m = menu_of(&["a", "b"], 0, 24);
    let r = m.dispatch_key(key(KeyCode::Esc));
    assert!(r.exit());
    assert_eq!(m.selection(), None);
    assert!(m.get_selection().is_none());
}

#[test]
fn ctrl_c_exits_in_both_modes() {
    let mut m = menu_of(&["a", "b"], 0, 24);
    assert!(m.dispatch_key(ctrl('c')).exit());
    m.dispatch_key(key(KeyCode::Char('/')));
    type_text(&mut m, "a");
    let r = m.dispatch_key(ctrl('c'));
    assert!(r.exit());
    assert_eq!(m.selection(), None);
}

#[test]
fn ctrl_n_and_p_move_only_in_query_mode() {
    let mut m = menu_of(&["ab", "abc", "abcd"], 0, 24);
    let r = m.dispatch_key(ctrl('n'));
    assert!(!r.exit() && !r.redraw());
    assert_eq!(m.selection_index(), 0);
    m.dispatch_key(key(KeyCode::Char('/')));
    type_text(&mut m, "ab");
    assert_eq!(m.matched_indices().len(), 3);
    m.dispatch_key(ctrl('n'));
    assert_eq!(m.selection_index(), 1);
    m.dispatch_key(ctrl('p'));
    assert_eq!(m.selection_index(), 0);
}

#[test]
fn j_and_k_move_in_browse_but_type_in_query() {
    let mut m = menu_of(&["jk", "kj", "x"], 0, 24);
    m.dispatch_key(key(KeyCode::Char('j')));
    assert_eq!(m.selection_index(), 1);
    m.dispatch_key(key(KeyCode::Char('k')));
    assert_eq!(m.selection_index(), 0);
    m.dispatch_key(key(KeyCode::Char('/')));
    type_text(&mut m, "jk");
    assert_eq!(m.query(), "jk");
    assert_eq!(m.matched_indices()[0], 0);
}

#[test]
fn down_at_end_and_up_at_top_do_not_redraw() {
    let mut m = menu_of(&["a", "b"], 0, 24);
    let r = m.dispatch_key(key(KeyCode::Up));
    assert!(!r.exit() && !r.redraw());
    m.dispatch_key(key(KeyCode::Down));
    let r = m.dispatch_key(key(KeyCode::Down));
    assert!(!r.exit() && !r.redraw());
    assert_eq!(m.selection_index(), 1);
}

#[test]
fn up_from_top_row_scrolls_back() {
    let labels: Vec<String> = (0..20).map(|i| format!("row {}", i)).collect();
    let refs: Vec<&str> = labels.iter().map(|s| s.as_str()).collect();
    let mut m = menu_of(&refs, 0, 6);
    for _ in 0..5 {
        m.dispatch_key(key(KeyCode::Down));
    }
    assert_eq!(m.selection_index(), 3);
    assert_eq!(m.scroll_offset(), 2);
    for _ in 0..3 {
        m.dispatch_key(key(KeyCode::Up));
    }
    assert_eq!(m.selection_index(), 0);
    assert_eq!(m.scroll_offset(), 2);
    let r = m.dispatch_key(key(KeyCode::Up));
    assert!(r.redraw());
    assert_eq!(m.scroll_offset(), 1);
}

#[test]
fn other_keys_and_modifiers_do_nothing() {
    let mut m = menu_of(&["a", "b"], 0, 24);
    let r = m.dispatch_key(key(KeyCode::Char('x')));
    assert!(!r.exit() && !r.redraw());
    let r = m.dispatch_key(KeyEvent::new(KeyCode::Down, Modifiers::Other));
    assert!(!r.exit() && !r.redraw());
    assert_eq!(m.selection_index(), 0);
    let r = m.dispatch_key(key(KeyCode::Other));
    assert!(!r.exit() && !r.redraw());
}

#[test]
fn enter_in_query_without_matches_does_nothing() {
    let mut m = menu_of(&["apple"], 0, 24);
    m.dispatch_key(key(KeyCode::Char('/')));
    type_text(&mut m, "zz");
    assert!(m.matched_indices().is_empty());
    let r = m.dispatch_key(key(KeyCode::Enter));
    assert!(!r.exit() && !r.redraw());
    assert!(!m.is_selected());
    assert_eq!(m.selection(), None);
}

#[test]
fn enter_in_query_selects_the_best_match() {
    let mut m = menu_of(&["xylophone", "grape", "apple"], 0, 24);
    m.dispatch_key(key(KeyCode::Char('/')));
    type_text(&mut m, "apple");
    let r = m.dispatch_key(key(KeyCode::Enter));
    assert!(r.exit());
    assert_eq!(m.selection(), Some(2));
    assert_eq!(m.get_selection().unwrap().alias(), "apple");
}

#[test]
fn caret_moves_by_characters_over_multibyte_text() {
    let mut m = menu_of(&["éz"], 0, 24);
    m.dispatch_key(key(KeyCode::Char('/')));
    type_text(&mut m, "éßz");
    assert_eq!(m.query(), "éßz");
    assert_eq!(m.insert_offset(), 3);
    m.dispatch_key(key(KeyCode::Left));
    assert_eq!(m.insert_offset(), 2);
    let r = m.dispatch_key(key(KeyCode::Backspace));
    assert!(r.redraw());
    assert_eq!(m.query(), "éz");
    assert_eq!(m.insert_offset(), 1);
    m.dispatch_key(key(KeyCode::Right));
    m.dispatch_key(key(KeyCode::Right));
    assert_eq!(m.insert_offset(), 2);
    m.dispatch_key(key(KeyCode::Left));
    m.dispatch_key(key(KeyCode::Left));
    m.dispatch_key(key(KeyCode::Left));
    assert_eq!(m.insert_offset(), 0);
    type_text(&mut m, "ü");
    assert_eq!(m.query(), "üéz");
    assert_eq!(m.insert_offset(), 1);
}

#[test]
fn backspace_at_start_of_query_does_nothing() {
    let mut m = menu_of(&["abc"], 0, 24);
    m.dispatch_key(key(KeyCode::Char('/')));
    type_text(&mut m, "ab");
    let matched = m.matched_indices().clone();
    m.dispatch_key(key(KeyCode::Left));
    m.dispatch_key(key(KeyCode::Left));
    let r = m.dispatch_key(key(KeyCode::Backspace));
    assert!(!r.exit() && !r.redraw());
    assert_eq!(m.query(), "ab");
    assert_eq!(m.insert_offset(), 0);
    assert_eq!(m.matched_indices(), &matched);
}

#[test]
fn backspace_on_empty_query_does_nothing() {
    let mut m = menu_of(&["abc"], 0, 24);
    m.dispatch_key(key(KeyCode::Char('/')));
    let r = m.dispatch_key(key(KeyCode::Backspace));
    assert!(!r.exit() && !r.redraw());
    assert_eq!(m.query(), "");
}

#[test]
fn editing_the_query_resets_selection_and_scroll() {
    let mut m = menu_of(&["ab", "abc", "abd", "abe"], 0, 24);
    m.dispatch_key(key(KeyCode::Char('/')));
    type_text(&mut m, "a");
    m.dispatch_key(key(KeyCode::Down));
    m.dispatch_key(key(KeyCode::Down));
    assert_eq!(m.selection_index(), 2);
    type_text(&mut m, "b");
    assert_eq!(m.selection_index(), 0);
    assert_eq!(m.scroll_offset(), 0);
}

#[test]
fn empty_query_matches_nothing() {
    let mut m = menu_of(&["abc", "def"], 0, 24);
    m.dispatch_key(key(KeyCode::Char('/')));
    type_text(&mut m, "a");
    assert_eq!(m.matched_indices().len(), 1);
    m.dispatch_key(key(KeyCode::Backspace));
    assert_eq!(m.query(), "");
    assert!(m.matched_indices().is_empty());
}

#[test]
fn selection_stays_in_the_active_list_through_a_session() {
    let labels: Vec<String> = (0..30).map(|i| format!("entry {}", i % 7)).collect();
    let refs: Vec<&str> = labels.iter().map(|s| s.as_str()).collect();
    let mut m = menu_of(&refs, 2, 12);
    let keys = [
        KeyCode::Down, KeyCode::Down, KeyCode::Down, KeyCode::Down, KeyCode::Down,
        KeyCode::Down, KeyCode::Down, KeyCode::Down, KeyCode::Down, KeyCode::Down,
        KeyCode::Char('/'), KeyCode::Char('e'), KeyCode::Down, KeyCode::Down,
        KeyCode::Char('3'), KeyCode::Down, KeyCode::Down, KeyCode::Down, KeyCode::Backspace,
        KeyCode::Down, KeyCode::Up, KeyCode::Esc, KeyCode::Down, KeyCode::Up,
    ];
    for k in keys.iter() {
        m.dispatch_key(key(*k));
        let len = match m.mode() {
            Mode::Browse => m.items().len(),
            Mode::Query => m.matched_indices().len(),
        };
        if len > 0 {
            assert!(m.selection_index() + m.scroll_offset() < len);
        }
    }
}

#[test]
fn key_response_reports_its_two_flags() {
    let r = termenu::KeyResponse::new(true, false);
    assert!(r.exit());
    assert!(!r.redraw());
    let r = termenu::KeyResponse::new(false, true);
    assert!(!r.exit());
    assert!(r.redraw());
}

#[test]
fn clear_selection_forgets_an_earlier_choice() {
    let mut m = menu_of(&["a", "b"], 0, 24);
    m.dispatch_key(key(KeyCode::Enter));
    assert_eq!(m.selection(), Some(0));
    m.clear_selection();
    assert!(!m.is_selected());
    assert_eq!(m.selection(), None);
}
