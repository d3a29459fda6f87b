use who_me::app::{App, DeleteTarget, Feature, Mode};
use who_me::cards::{
    card_height, card_item_lines, card_placeholder, card_selected_line, centered_area, dashboard_layout, grid_day, list_scroll,
    progress_fill, scroll_to_selection, top_centered_area, Area, CardPlacement,
};
use who_me::date::Date;
use who_me::layout::{visible_input, wrap_text};
use who_me::input::{KeyCode, KeyEvent};
use who_me::model::{Calendar, Document, IdentityStatus, Item, Topic, DATA_VERSION};
use who_me::view::{deletion_prompt, footer_hints, header_summary, mood_bar, mood_bar_width, share_percent};

fn key(code: KeyCode) -> KeyEvent {
    KeyEvent::new(code)
}

fn two_topics() -> App {
    App::new(Document {
        version: DATA_VERSION,
        topics: vec![
            Topic {
                name: "Developer".into(),
                status: IdentityStatus::Active,
                items: vec![
                    Item {
                        text: "Rust".into(),
                        done: false,
                    },
                    Item {
                        text: "Interfaces".into(),
                        done: false,
                    },
                ],
            },
            Topic {
                name: "Mountaineer".into(),
                status: IdentityStatus::Active,
                items: Vec::new(),
            },
        ],
        calendar: Calendar::default(),
        judgements: Vec::new(),
    })
}

#[test]
fn footer_hints_shrink_with_the_terminal() {
    let mut app = two_topics();
    assert_eq!(
        footer_hints(&app, 120),
        "↑↓ rows  ←→ identities  t new  a add  s status  ↵ edit  Space check  / search  2 calendar"
    );
    assert_eq!(footer_hints(&app, 57), "t new  2 calendar  ? help  q quit");
    app.mode = Mode::Help;
    assert_eq!(footer_hints(&app, 120), "Esc / ? close");
}

#[test]
fn header_counts_the_view_on_screen() {
    let mut app = two_topics();
    assert_eq!(header_summary(&app), "Local · 2 identities");
    app.feature = Feature::Judgements;
    assert_eq!(header_summary(&app), "Local · 0 judgements");
    app.feature = Feature::Calendar;
    assert_eq!(header_summary(&app), "Local · 0 entries");
}

#[test]
fn mood_bars_round_down() {
    assert_eq!(mood_bar_width(40), 12);
    assert_eq!(mood_bar_width(20), 1);
    assert_eq!(mood_bar(1, 3, 10), (3, 33));
    assert_eq!(mood_bar(3, 3, 10), (10, 100));
}

#[test]
fn toggling_twice_restores_the_item() {
    let mut app = two_topics();
    app.handle_key(key(KeyCode::Down));
    let before = app.document.clone();
    assert!(app.handle_key(key(KeyCode::Char(' '))).changed);
    assert!(app.document.topics[0].items[0].done);
    assert!(app.handle_key(key(KeyCode::Char(' '))).changed);
    assert_eq!(app.document, before);
}

#[test]
fn moving_down_then_up_restores_the_order() {
    let mut app = two_topics();
    app.handle_key(key(KeyCode::Down));
    let before = app.document.clone();
    assert!(app.handle_key(KeyEvent::with_control(KeyCode::Down)).changed);
    assert_eq!(app.document.topics[0].items[0].text, "Interfaces");
    assert!(app.handle_key(KeyEvent::with_control(KeyCode::Up)).changed);
    assert_eq!(app.document, before);
}

#[test]
fn moving_an_identity_right_then_left_restores_the_order() {
    let mut app = two_topics();
    let before = app.document.clone();
    assert!(app.handle_key(KeyEvent::with_control(KeyCode::Right)).changed);
    assert_eq!(app.document.topics[1].name, "Developer");
    assert!(app.handle_key(KeyEvent::with_control(KeyCode::Left)).changed);
    assert_eq!(app.document, before);
}

#[test]
fn quitting_happens_only_from_the_dashboard() {
    let mut app = two_topics();
    let result = app.handle_key(key(KeyCode::Char('q')));
    assert!(result.quit);
    assert!(!result.changed);
    let mut searching = two_topics();
    searching.handle_key(key(KeyCode::Char('/')));
    let typed = searching.handle_key(key(KeyCode::Char('q')));
    assert!(!typed.quit);
}

#[test]
fn cards_fill_rows_of_columns() {
    let app = two_topics();
    assert_eq!(card_height(&app, 0, 48), 7);
    let layout = dashboard_layout(&app, 100);
    assert_eq!(layout.cards.len(), 2);
    assert_eq!(
        layout.cards[0],
        CardPlacement { topic: 0, area: Area { x: 0, y: 0, width: 48, height: 7 } }
    );
    assert_eq!(
        layout.cards[1],
        CardPlacement { topic: 1, area: Area { x: 50, y: 0, width: 49, height: 7 } }
    );
    assert_eq!(layout.height, 8);
    assert_eq!(layout.selected_y, 0);
}

#[test]
fn narrow_dashboards_stack_cards() {
    let mut app = two_topics();
    app.handle_key(key(KeyCode::Down));
    app.handle_key(key(KeyCode::Down));
    assert_eq!(card_selected_line(&app, 0, 40), 4);
    let layout = dashboard_layout(&app, 40);
    assert_eq!(layout.cards[1].area.y, 8);
    assert_eq!(layout.height, 16);
    assert_eq!(layout.selected_y, 4);
}

#[test]
fn scrolling_keeps_the_selection_in_view() {
    assert_eq!(scroll_to_selection(0, 10, 5, 20), 6);
    assert_eq!(scroll_to_selection(8, 3, 5, 20), 3);
    assert_eq!(scroll_to_selection(2, 4, 5, 20), 2);
    assert_eq!(scroll_to_selection(30, 40, 5, 20), 15);
    assert_eq!(progress_fill(1, 3, 10), 3);
    assert_eq!(progress_fill(2, 2, 10), 10);
}

#[test]
fn input_fields_scroll_to_the_cursor() {
    assert_eq!(visible_input("hello", 5, 4), ("llo".to_string(), 3));
    assert_eq!(visible_input("hi", 1, 10), ("hi".to_string(), 1));
    assert_eq!(visible_input("hi", 1, 0), (String::new(), 0));
}

#[test]
fn overlays_sit_in_the_middle() {
    let screen = Area { x: 0, y: 0, width: 80, height: 24 };
    assert_eq!(centered_area(screen, 40, 10), Area { x: 20, y: 7, width: 40, height: 10 });
    assert_eq!(top_centered_area(screen, 40, 10), Area { x: 20, y: 3, width: 40, height: 10 });
    assert_eq!(centered_area(screen, 100, 30), Area { x: 1, y: 1, width: 78, height: 22 });
}

#[test]
fn month_grids_start_on_the_right_weekday() {
    let first = Date::from_ymd(2026, 8, 1).unwrap();
    assert_eq!(first.weekday(), 5);
    assert_eq!(Date::from_ymd(2024, 1, 1).unwrap().weekday(), 0);
    assert_eq!(grid_day(4, 5, 31), None);
    assert_eq!(grid_day(5, 5, 31), Some(1));
    assert_eq!(grid_day(35, 5, 31), Some(31));
    assert_eq!(grid_day(36, 5, 31), None);
}

#[test]
fn lists_scroll_to_their_selection() {
    assert_eq!(list_scroll(0, Some(7), 5, 10), 3);
    assert_eq!(list_scroll(4, Some(1), 5, 10), 1);
    assert_eq!(list_scroll(9, None, 5, 10), 5);
    assert_eq!(list_scroll(2, Some(3), 5, 3), 0);
    assert_eq!(share_percent(1, 3), Some(33));
    assert_eq!(share_percent(1, 0), None);
}

#[test]
fn deletion_questions_name_what_goes() {
    let app = two_topics();
    assert_eq!(
        deletion_prompt(&app.document, DeleteTarget::Topic(0)),
        "Delete identity \"Developer\" and all of its entries?"
    );
    assert_eq!(
        deletion_prompt(&app.document, DeleteTarget::Item(0, 1)),
        "Delete entry \"Interfaces\"?"
    );
    assert_eq!(deletion_prompt(&app.document, DeleteTarget::Item(1, 0)), "Delete this entry?");
    assert_eq!(deletion_prompt(&app.document, DeleteTarget::Judgement(0)), "Delete this judgement?");
}

fn calendar_with_two_entries() -> App {
    let day = Date::from_ymd(2026, 8, 28).unwrap();
    let mut app = App::new_at(Document::default(), day);
    app.feature = Feature::Calendar;
    for text in ["First", "Second"] {
        app.handle_key(key(KeyCode::Char('a')));
        for character in text.chars() {
            app.handle_key(key(KeyCode::Char(character)));
        }
        app.handle_key(key(KeyCode::Enter));
    }
    app
}

#[test]
fn checking_a_calendar_entry_twice_restores_it() {
    let mut app = calendar_with_two_entries();
    let before = app.document.clone();
    let selected = app.selected_calendar_entry;
    assert!(app.handle_key(key(KeyCode::Char(' '))).changed);
    assert!(app.handle_key(key(KeyCode::Char(' '))).changed);
    assert_eq!(app.document, before);
    assert_eq!(app.selected_calendar_entry, selected);
}

#[test]
fn moving_a_calendar_entry_up_then_down_restores_the_day() {
    let mut app = calendar_with_two_entries();
    let before = app.document.clone();
    assert!(app.handle_key(KeyEvent::with_control(KeyCode::Up)).changed);
    assert_eq!(app.selected_calendar_entries()[0].text, "Second");
    assert!(app.handle_key(KeyEvent::with_control(KeyCode::Down)).changed);
    assert_eq!(app.document, before);
}

#[test]
fn rating_then_clearing_a_day_restores_the_calendar() {
    let mut app = calendar_with_two_entries();
    let before = app.document.clone();
    app.handle_key(key(KeyCode::Esc));
    app.handle_key(key(KeyCode::Right));
    assert_eq!(app.selected_date, Date::from_ymd(2026, 8, 29).unwrap());
    app.handle_key(key(KeyCode::Char('r')));
    assert!(app.handle_key(key(KeyCode::Char('4'))).changed);
    assert_eq!(app.document.calendar.days.len(), 2);
    app.handle_key(key(KeyCode::Char('r')));
    assert!(app.handle_key(key(KeyCode::Char('c'))).changed);
    assert_eq!(app.document, before);
}

#[test]
fn adding_then_deleting_an_entry_restores_the_identities() {
    let mut app = two_topics();
    let before = app.document.clone();
    app.handle_key(key(KeyCode::Char('a')));
    for character in "Essay".chars() {
        app.handle_key(key(KeyCode::Char(character)));
    }
    assert!(app.handle_key(key(KeyCode::Enter)).changed);
    assert_eq!(app.selected_item, Some(2));
    app.handle_key(key(KeyCode::Char('d')));
    assert!(app.handle_key(key(KeyCode::Char('y'))).changed);
    assert_eq!(app.document, before);
}

#[test]
fn adding_then_deleting_an_identity_restores_the_identities() {
    let mut app = two_topics();
    let before = app.document.clone();
    app.handle_key(key(KeyCode::Char('t')));
    for character in "Writer".chars() {
        app.handle_key(key(KeyCode::Char(character)));
    }
    assert!(app.handle_key(key(KeyCode::Enter)).changed);
    assert_eq!(app.selected_topic, 2);
    app.handle_key(key(KeyCode::Char('d')));
    assert!(app.handle_key(key(KeyCode::Char('y'))).changed);
    assert_eq!(app.document, before);
}

#[test]
fn adding_then_deleting_a_calendar_entry_restores_the_calendar() {
    let mut app = calendar_with_two_entries();
    let before = app.document.clone();
    app.handle_key(key(KeyCode::Esc));
    app.handle_key(key(KeyCode::Left));
    app.handle_key(key(KeyCode::Char('a')));
    for character in "Plan".chars() {
        app.handle_key(key(KeyCode::Char(character)));
    }
    assert!(app.handle_key(key(KeyCode::Enter)).changed);
    assert_eq!(app.document.calendar.days.len(), 2);
    assert_eq!(app.document.calendar.days[0].date, Date::from_ymd(2026, 8, 27).unwrap());
    assert_eq!(
        deletion_prompt(&app.document, DeleteTarget::CalendarEntry(app.selected_date, 0)),
        "Delete \"Plan\" from 2026-08-27?"
    );
    app.handle_key(key(KeyCode::Char('d')));
    assert!(app.handle_key(key(KeyCode::Char('y'))).changed);
    assert_eq!(app.document, before);
}

#[test]
fn creating_then_deleting_a_judgement_restores_the_judgements() {
    let mut app = two_topics();
    app.handle_key(key(KeyCode::Char('4')));
    let before = app.document.clone();
    app.handle_key(key(KeyCode::Char('n')));
    for character in "New role".chars() {
        app.handle_key(key(KeyCode::Char(character)));
    }
    assert!(app.handle_key(key(KeyCode::Enter)).changed);
    assert_eq!(app.document.judgements.len(), 1);
    app.handle_key(key(KeyCode::Char('d')));
    assert!(app.handle_key(key(KeyCode::Char('y'))).changed);
    assert_eq!(app.document, before);
}

#[test]
fn card_lines_wrap_and_pad_each_entry() {
    let mut app = two_topics();
    app.handle_key(key(KeyCode::Down));
    let lines = card_item_lines(&app, 0, 10, true);
    let texts: Vec<(usize, bool, bool, String)> =
        lines.iter().map(|line| (line.item, line.first, line.selected, line.text.clone())).collect();
    assert_eq!(
        texts,
        vec![
            (0, true, true, "Rust  ".to_string()),
            (1, true, false, "Interf".to_string()),
            (1, false, false, "aces  ".to_string()),
        ]
    );
    assert!(card_item_lines(&app, 1, 10, false).is_empty());
    assert_eq!(card_placeholder(&app, 1), "Press a to add the first entry");
}

#[test]
fn wrapping_keeps_the_words_in_order_and_fills_lines() {
    let text = "  alpha beta\tgamma delta  epsilon ";
    let lines = wrap_text(text, 11);
    assert_eq!(lines, vec!["alpha beta".to_string(), "gamma delta".to_string(), "epsilon".to_string()]);
    let from_lines: Vec<&str> = lines.iter().flat_map(|line| line.split_whitespace()).collect();
    let from_text: Vec<&str> = text.split_whitespace().collect();
    assert_eq!(from_lines, from_text);
    for pair in lines.windows(2) {
        let first_word = pair[1].split_whitespace().next().unwrap();
        assert!(pair[0].chars().count() + 1 + first_word.chars().count() > 11);
    }
}
