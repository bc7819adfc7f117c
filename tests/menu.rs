use completion_menu::{BufferEdit, CompletionMenu, Completer, MenuEvent, Span};

fn candidates(texts: &[&str]) -> Vec<(Span, String)> {
    texts
        .iter()
        .map(|t| (Span::new(0, 0), t.to_string()))
        .collect()
}

fn menu_with(texts: &[&str], columns: u16, screen_width: u16) -> CompletionMenu {
    let mut menu = CompletionMenu::default().with_columns(columns);
    menu.set_values(candidates(texts));
    menu.resize(screen_width);
    menu
}

/// Offers the words of the line that start with its last word, and records
/// the line it was asked about.
struct WordCompleter {
    seen: std::cell::RefCell<String>,
}

impl Completer for WordCompleter {
    fn complete(&self, line: &str, pos: usize) -> Vec<(Span, String)> {
        *self.seen.borrow_mut() = line.to_string();
        let start = line[..pos].rfind(' ').map(|i| i + 1).unwrap_or(0);
        let prefix = &line[start..pos];
        line.split(' ')
            .filter(|w| w.starts_with(prefix) && !w.is_empty())
            .map(|w| (Span::new(start, pos), w.to_string()))
            .collect()
    }
}

#[test]
fn sizing_example_three_candidates() {
    let mut menu = CompletionMenu::default().with_column_padding(2).with_columns(4);
    menu.set_values(candidates(&["alpha", "b", "gamma"]));
    menu.resize(30);
    assert_eq!(menu.get_width(), 7);
    assert_eq!(menu.get_cols(), 4);
    assert_eq!(menu.get_rows(), 1);
    assert_eq!(menu.menu_required_lines(30), 1);
}

#[test]
fn sizing_is_idempotent() {
    let mut menu = menu_with(&["alpha", "beta", "gamma", "delta", "epsilon"], 4, 40);
    let (width, cols) = (menu.get_width(), menu.get_cols());
    menu.resize(40);
    assert_eq!(menu.get_width(), width);
    assert_eq!(menu.get_cols(), cols);
    assert_eq!(width, 10);
    assert_eq!(cols, 4);
}

#[test]
fn sizing_uses_widest_candidate() {
    // widest is 14 + 2 bytes; 40 / 16 = 2 columns
    let menu = menu_with(&["a", "a_long_command"], 4, 40);
    assert_eq!(menu.get_width(), 16);
    assert_eq!(menu.get_cols(), 2);
    assert_eq!(menu.get_rows(), 1);
}

#[test]
fn sizing_counts_bytes() {
    // "héllo" is 6 bytes, plus padding 2
    let menu = menu_with(&["héllo"], 4, 4);
    assert_eq!(menu.get_width(), 8);
}

#[test]
fn sizing_with_fixed_width() {
    let mut menu = CompletionMenu::default().with_column_width(Some(20));
    menu.set_values(candidates(&["x", "y", "z"]));
    menu.resize(50);
    assert_eq!(menu.get_width(), 20);
    assert_eq!(menu.get_cols(), 2);
    assert_eq!(menu.get_rows(), 2);
}

#[test]
fn sizing_never_exceeds_default_columns_and_floors_at_one() {
    let menu = menu_with(&["ab", "cd", "ef", "gh"], 2, 200);
    assert_eq!(menu.get_cols(), 2);
    // too narrow for one column: the sizing yields zero, the grid uses one
    let narrow = menu_with(&["a_long_candidate"], 4, 5);
    assert_eq!(narrow.get_cols(), 1);
    assert_eq!(narrow.get_rows(), 1);
    // a zero-width screen does not fail
    let empty = menu_with(&[], 4, 0);
    assert_eq!(empty.get_cols(), 1);
    assert_eq!(empty.get_rows(), 0);
}

#[test]
fn move_down_from_short_last_row_wraps_to_top() {
    let mut menu = menu_with(&["a", "b", "c", "d"], 3, 90);
    assert_eq!(menu.get_cols(), 3);
    assert_eq!(menu.get_rows(), 2);
    menu.move_next();
    menu.move_next();
    menu.move_next();
    assert_eq!(menu.index(), 3);
    menu.move_down();
    assert_eq!(menu.index(), 0);
}

#[test]
fn move_down_onto_empty_cell_wraps_to_top() {
    let mut menu = menu_with(&["a", "b", "c", "d"], 3, 90);
    menu.move_next();
    assert_eq!(menu.index(), 1);
    menu.move_down();
    assert_eq!(menu.index(), 1);
}

#[test]
fn next_element_wraps_after_n_steps() {
    let mut menu = menu_with(&["a", "b", "c", "d", "e"], 2, 40);
    assert_eq!(menu.get_cols(), 2);
    for k in 1..5u128 {
        menu.move_next();
        assert_eq!(menu.index(), k);
    }
    menu.move_next();
    assert_eq!(menu.index(), 0);
}

#[test]
fn previous_element_wraps_to_last_candidate() {
    let mut menu = menu_with(&["a", "b", "c", "d", "e"], 2, 40);
    menu.move_previous();
    assert_eq!(menu.index(), 4);
    menu.move_previous();
    assert_eq!(menu.index(), 3);
    let mut full = menu_with(&["a", "b", "c", "d"], 2, 40);
    full.move_previous();
    assert_eq!(full.index(), 3);
}

#[test]
fn move_up_skips_short_last_row() {
    let mut menu = menu_with(&["a", "b", "c", "d", "e"], 2, 40);
    menu.move_next();
    assert_eq!(menu.index(), 1);
    // last row holds only column 0, so column 1 goes to the row above it
    menu.move_up();
    assert_eq!(menu.index(), 3);
    menu.move_up();
    assert_eq!(menu.index(), 1);
    let mut first = menu_with(&["a", "b", "c", "d", "e"], 2, 40);
    first.move_up();
    assert_eq!(first.index(), 4);
}

#[test]
fn left_then_right_returns() {
    let mut menu = menu_with(&["a", "b", "c", "d", "e", "f"], 3, 90);
    menu.move_next();
    menu.move_next();
    assert_eq!(menu.index(), 2);
    menu.move_left();
    assert_eq!(menu.index(), 1);
    menu.move_right();
    assert_eq!(menu.index(), 2);
}

#[test]
fn right_from_last_candidate_goes_to_column_zero() {
    let mut menu = menu_with(&["a", "b", "c", "d", "e"], 3, 90);
    for _ in 0..4 {
        menu.move_next();
    }
    assert_eq!(menu.index(), 4);
    menu.move_right();
    assert_eq!(menu.index(), 3);
}

#[test]
fn left_and_right_wrap_within_row() {
    let mut menu = menu_with(&["a", "b", "c", "d", "e", "f"], 3, 90);
    menu.move_left();
    assert_eq!(menu.index(), 2);
    menu.move_right();
    assert_eq!(menu.index(), 0);
    // on the last candidate, at column 0, left stays put
    let mut last = menu_with(&["a", "b", "c", "d"], 3, 90);
    last.move_previous();
    assert_eq!(last.index(), 3);
    last.move_left();
    assert_eq!(last.index(), 3);
}

#[test]
fn navigation_on_empty_list_does_not_fail() {
    let mut menu = menu_with(&[], 4, 40);
    menu.move_next();
    menu.move_previous();
    menu.move_up();
    menu.move_down();
    assert_eq!(menu.index(), 0);
    menu.move_left();
    assert_eq!(menu.index(), 0);
    menu.move_right();
    assert_eq!(menu.index(), 0);
    assert_eq!(menu.get_value(), None);
}

#[test]
fn accepting_a_candidate_computes_offset() {
    let mut menu = CompletionMenu::default();
    menu.set_values(vec![(Span::new(3, 7), "list".to_string())]);
    let edit = menu.replace_in_buffer(7).unwrap();
    assert_eq!(
        edit,
        BufferEdit {
            span: Span::new(3, 7),
            text: "list".to_string(),
            new_offset: 7
        }
    );
    let mut buffer = "ls lisx".to_string();
    buffer.replace_range(edit.span.start..edit.span.end, &edit.text);
    assert_eq!(buffer, "ls list");
}

#[test]
fn accepting_shorter_and_longer_candidates() {
    let mut menu = CompletionMenu::default();
    menu.set_values(vec![
        (Span::new(0, 5), "ab".to_string()),
        (Span::new(2, 3), "abcd".to_string()),
    ]);
    assert_eq!(menu.replace_in_buffer(5).unwrap().new_offset, 2);
    menu.move_next();
    assert_eq!(menu.replace_in_buffer(3).unwrap().new_offset, 6);
}

#[test]
fn accepting_with_no_candidates_is_none() {
    let menu = CompletionMenu::default();
    assert_eq!(menu.replace_in_buffer(4), None);
}

#[test]
fn get_value_returns_selected() {
    let mut menu = menu_with(&["one", "two"], 4, 40);
    menu.move_next();
    assert_eq!(menu.get_value(), Some((Span::new(0, 0), "two".to_string())));
}

#[test]
fn events_are_applied_once() {
    let completer = WordCompleter { seen: std::cell::RefCell::new(String::new()) };
    let mut menu = CompletionMenu::default();
    assert!(!menu.is_active());
    menu.menu_event(MenuEvent::Activate(false));
    assert!(menu.is_active());
    menu.update_working_details("cat\ncar ca", 10, &completer, 80);
    assert_eq!(*completer.seen.borrow(), "cat car ca");
    let words: Vec<String> = menu.get_values().iter().map(|(_, w)| w.clone()).collect();
    assert_eq!(words, vec!["cat", "car", "ca"]);
    assert_eq!(menu.get_values()[0].0, Span::new(8, 10));
    menu.menu_event(MenuEvent::NextElement);
    menu.update_working_details("cat\ncar ca", 10, &completer, 80);
    assert_eq!(menu.index(), 1);
    // no pending event: nothing moves
    menu.update_working_details("cat\ncar ca", 10, &completer, 80);
    assert_eq!(menu.index(), 1);
    menu.menu_event(MenuEvent::NextElement);
    menu.menu_event(MenuEvent::PreviousElement);
    menu.update_working_details("cat\ncar ca", 10, &completer, 80);
    assert_eq!(menu.index(), 0);
    menu.menu_event(MenuEvent::NextPage);
    menu.update_working_details("cat\ncar ca", 10, &completer, 80);
    assert_eq!(menu.index(), 0);
    menu.menu_event(MenuEvent::Deactivate);
    menu.update_working_details("cat\ncar ca", 10, &completer, 80);
    assert!(!menu.is_active());
}

#[test]
fn edit_with_updated_values_keeps_candidates() {
    let completer = WordCompleter { seen: std::cell::RefCell::new(String::new()) };
    let mut menu = menu_with(&["x", "y"], 4, 40);
    menu.move_next();
    menu.menu_event(MenuEvent::Edit(true));
    menu.update_working_details("zzz", 3, &completer, 40);
    assert_eq!(menu.index(), 0);
    assert_eq!(menu.get_values().len(), 2);
    assert_eq!(*completer.seen.borrow(), "");
}

#[test]
fn required_rows() {
    let menu = menu_with(&["a", "b", "c", "d", "e", "f", "g", "h", "i"], 2, 40);
    assert_eq!(menu.menu_required_lines(40), 5);
    assert_eq!(menu.min_rows(), 3);
    let small = menu_with(&["a", "b"], 2, 40);
    assert_eq!(small.min_rows(), 1);
}

#[test]
fn name_and_indicator() {
    let menu = CompletionMenu::default();
    assert_eq!(menu.name(), "completion_menu");
    assert_eq!(menu.indicator(), "| ");
    let marked = CompletionMenu::default().with_marker("> ".to_string());
    assert_eq!(marked.indicator(), "> ");
}

#[test]
fn render_plain() {
    // width: max(3 + 2, 20 / 2) = 10, two columns
    let menu = menu_with(&["abc", "de", "f"], 2, 20);
    assert_eq!(menu.get_width(), 10);
    let shown = menu.menu_string(5, false);
    assert_eq!(shown, ">ABC      de        \r\nf         ");
}

#[test]
fn render_styled_with_given_prefixes() {
    let mut menu = menu_with(&["abc", "de", "f"], 2, 20);
    menu.move_next();
    let shown = menu.render(5, true, "S", "P");
    assert_eq!(
        shown,
        "Pabc\u{1b}[0m       Sde\u{1b}[0m        \r\nPf\u{1b}[0m         "
    );
}

#[test]
fn render_styled_uses_menu_styles() {
    let menu = menu_with(&["abc"], 2, 20);
    let shown = menu.menu_string(1, true);
    let selected = nu_ansi_term::Color::Green.bold().reverse().prefix().to_string();
    assert_eq!(shown, format!("{}abc\u{1b}[0m       ", selected));
    let restyled = menu_with(&["abc"], 2, 20)
        .with_selected_text_style(nu_ansi_term::Style::new())
        .with_text_style(nu_ansi_term::Color::Red.normal());
    assert_eq!(restyled.menu_string(1, true), "abc\u{1b}[0m       ");
}

#[test]
fn render_window_follows_cursor() {
    let mut menu = menu_with(&["a", "b", "c", "d", "e", "f", "g"], 2, 8);
    assert_eq!(menu.get_cols(), 2);
    assert_eq!(menu.get_width(), 4);
    for _ in 0..6 {
        menu.move_next();
    }
    assert_eq!(menu.index(), 6);
    // rows 0..3, cursor on row 3, two rows available: rows 2 and 3 shown
    assert_eq!(menu.menu_string(2, false), "e   f   \r\n>G  ");
    assert_eq!(menu.menu_string(0, false), "");
}

#[test]
fn render_plain_uppercases_selected_unicode() {
    let menu = menu_with(&["straße"], 1, 10);
    assert_eq!(menu.menu_string(1, false), ">STRASSE  \r\n");
}

#[test]
fn render_no_records() {
    let menu = menu_with(&[], 4, 40);
    assert_eq!(menu.menu_string(3, false), "NO RECORDS FOUND");
    assert_eq!(menu.render(3, true, "S", "P"), "SNO RECORDS FOUND\u{1b}[0m");
}

#[test]
fn left_from_short_last_row_leaves_the_candidates() {
    let mut menu = menu_with(&["a", "b", "c", "d", "e"], 3, 90);
    for _ in 0..3 {
        menu.move_next();
    }
    assert_eq!(menu.index(), 3);
    // the row is not left; its last column holds no candidate
    menu.move_left();
    assert_eq!(menu.index(), 5);
    assert_eq!(menu.get_value(), None);
    assert_eq!(menu.replace_in_buffer(0), None);
}
