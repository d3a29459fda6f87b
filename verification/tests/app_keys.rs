use who_me::app::{
    App, CalendarFocus, DeleteTarget, EditKind, Editor, Feature, JudgementFocus, Mode,
    MoodStatistics, StatisticsPeriod, StatusPicker, SyncAction,
};
use who_me::date::{Date, MAX_YEAR, days_in_month};
use who_me::input::{KeyCode, KeyEvent};
use who_me::keys::edit_text;
use who_me::model::{
    Calendar, Characteristic, DATA_VERSION, Document, IdentityStatus, Item, Judgement, MoodRating,
    Observation, Sentiment, Topic,
};
use who_me::sync::{ConflictChoice, SyncStatus};

fn key(code: KeyCode) -> KeyEvent {
    KeyEvent::new(code)
}

fn ctrl(code: KeyCode) -> KeyEvent {
    KeyEvent::with_control(code)
}

fn type_text(app: &mut App, value: &str) {
    for character in value.chars() {
        app.handle_key(key(KeyCode::Char(character)));
    }
}

fn date(year: i32, month: u32, day: u32) -> Date {
    Date::from_ymd(year, month, day).unwrap()
}

fn average(statistics: &MoodStatistics) -> Option<f64> {
    if statistics.rated_days > 0 {
        Some(statistics.total as f64 / statistics.rated_days as f64)
    } else {
        None
    }
}

fn app() -> App {
    App::new(Document {
        version: DATA_VERSION,
        topics: vec![
            Topic {
                name: "Developer".into(),
                status: IdentityStatus::Active,
                items: vec![
                    Item {
                        text: "Rust".into(),
                        done: false,
                    },
                    Item {
                        text: "Interfaces".into(),
                        done: false,
                    },
                ],
            },
            Topic {
                name: "Mountaineer".into(),
                status: IdentityStatus::Active,
                items: vec![Item {
                    text: "Alps".into(),
                    done: false,
                }],
            },
        ],
        calendar: Calendar::default(),
        judgements: Vec::new(),
    })
}

#[test]
fn navigates_and_toggles_an_item() {
    let mut app = app();
    app.handle_key(key(KeyCode::Down));
    assert_eq!(app.selected_item, Some(0));
    let result = app.handle_key(key(KeyCode::Char(' ')));
    assert!(result.changed);
    assert!(app.document.topics[0].items[0].done);
    app.handle_key(key(KeyCode::Up));
    assert_eq!(app.selected_item, None);
}

#[test]
fn vertical_navigation_crosses_identity_boundaries() {
    let mut app = app();
    app.selected_item = Some(1);

    app.handle_key(key(KeyCode::Down));
    assert_eq!(app.selected_topic, 1);
    assert_eq!(app.selected_item, None);

    app.handle_key(key(KeyCode::Up));
    assert_eq!(app.selected_topic, 0);
    assert_eq!(app.selected_item, Some(1));
}

#[test]
fn creates_edits_and_deletes_content() {
    let mut app = app();
    app.handle_key(key(KeyCode::Char('t')));
    for character in "Writer".chars() {
        app.handle_key(key(KeyCode::Char(character)));
    }
    assert!(app.handle_key(key(KeyCode::Enter)).changed);
    assert_eq!(app.document.topics.last().unwrap().name, "Writer");
    assert_eq!(
        app.document.topics.last().unwrap().status,
        IdentityStatus::Active
    );

    app.handle_key(key(KeyCode::Char('a')));
    for character in "Essay".chars() {
        app.handle_key(key(KeyCode::Char(character)));
    }
    app.handle_key(key(KeyCode::Enter));
    assert_eq!(app.document.topics.last().unwrap().items[0].text, "Essay");

    app.handle_key(key(KeyCode::Char('d')));
    assert!(matches!(
        app.mode,
        Mode::ConfirmDelete(DeleteTarget::Item(_, _))
    ));
    assert!(app.handle_key(key(KeyCode::Char('y'))).changed);
    assert!(app.document.topics.last().unwrap().items.is_empty());
}

#[test]
fn filters_topics_and_items_case_insensitively() {
    let mut app = app();
    app.query = "ALP".into();
    assert_eq!(app.visible_topics(), vec![1]);
    assert_eq!(app.visible_items(1), vec![0]);

    app.query = "developer".into();
    assert_eq!(app.visible_topics(), vec![0]);
    assert_eq!(app.visible_items(0), vec![0, 1]);
}

#[test]
fn reorders_items_and_topics() {
    let mut app = app();
    app.selected_item = Some(0);
    assert!(app.handle_key(ctrl(KeyCode::Down)).changed);
    assert_eq!(app.document.topics[0].items[1].text, "Rust");
    assert!(app.handle_key(ctrl(KeyCode::Right)).changed);
    assert_eq!(app.document.topics[1].name, "Developer");
}

#[test]
fn editor_handles_unicode_by_character() {
    let mut editor = Editor {
        kind: EditKind::Search,
        input: "é界".into(),
        cursor: 2,
    };
    edit_text(&mut editor, key(KeyCode::Backspace));
    assert_eq!(editor.input, "é");
    edit_text(&mut editor, key(KeyCode::Home));
    edit_text(&mut editor, key(KeyCode::Char('✓')));
    assert_eq!(editor.input, "✓é");
}

#[test]
fn selects_and_commits_identity_status() {
    let mut app = app();
    app.selected_item = Some(0);
    assert!(!app.handle_key(key(KeyCode::Char('s'))).changed);
    assert!(matches!(
        app.mode,
        Mode::SelectingStatus(StatusPicker {
            selected: IdentityStatus::Active,
            ..
        })
    ));

    app.handle_key(key(KeyCode::Down));
    let result = app.handle_key(key(KeyCode::Enter));
    assert!(result.changed);
    assert_eq!(app.document.topics[0].status, IdentityStatus::Former);
    assert_eq!(app.status.as_deref(), Some("Identity is now Former"));
}

#[test]
fn status_picker_cancels_and_skips_unchanged_saves() {
    let mut app = app();
    app.handle_key(key(KeyCode::Char('s')));
    app.handle_key(key(KeyCode::Up));
    assert!(!app.handle_key(key(KeyCode::Esc)).changed);
    assert_eq!(app.document.topics[0].status, IdentityStatus::Active);

    app.handle_key(key(KeyCode::Char('s')));
    assert!(!app.handle_key(key(KeyCode::Enter)).changed);
    assert_eq!(app.mode, Mode::Normal);
}

#[test]
fn settings_configure_and_resolve_sync() {
    let mut app = app();
    app.handle_key(key(KeyCode::Char('g')));
    app.handle_key(key(KeyCode::Char('e')));
    for character in "https://github.com/person/private".chars() {
        app.handle_key(key(KeyCode::Char(character)));
    }
    let result = app.handle_key(key(KeyCode::Enter));
    assert_eq!(
        result.sync_action,
        Some(SyncAction::Configure(
            "https://github.com/person/private".into()
        ))
    );

    app.set_sync_repository(Some("https://github.com/person/private".into()));
    app.set_sync_status(SyncStatus::Conflict("both changed".into()));
    let result = app.handle_key(key(KeyCode::Char('l')));
    assert_eq!(
        result.sync_action,
        Some(SyncAction::Resolve(ConflictChoice::KeepLocal))
    );
}

#[test]
fn switches_features_and_starts_calendar_on_today() {
    let today = date(2026, 8, 28);
    let mut app = App::new_at(Document::default(), today);

    app.handle_key(key(KeyCode::Char('2')));
    assert_eq!(app.feature, Feature::Calendar);
    assert_eq!(app.displayed_month, date(2026, 8, 1));
    assert_eq!(app.selected_date, today);

    app.handle_key(key(KeyCode::Char('1')));
    assert_eq!(app.feature, Feature::Identities);
}

#[test]
fn calendar_navigation_crosses_month_boundaries_and_month_switching_clamps() {
    let today = date(2025, 1, 31);
    let mut app = App::new_at(Document::default(), today);
    app.feature = Feature::Calendar;

    app.handle_key(key(KeyCode::Right));
    assert_eq!(app.displayed_month, date(2025, 2, 1));
    assert_eq!(app.selected_date, date(2025, 2, 1));
    app.handle_key(key(KeyCode::Left));
    assert_eq!(app.displayed_month, date(2025, 1, 1));
    assert_eq!(app.selected_date, today);

    app.handle_key(key(KeyCode::Char(']')));
    assert_eq!(app.displayed_month, date(2025, 2, 1));
    assert_eq!(app.selected_date, date(2025, 2, 28));
    app.handle_key(key(KeyCode::Left));
    assert_eq!(app.selected_date, date(2025, 2, 27));
}

#[test]
fn creates_checks_reorders_edits_and_deletes_calendar_entries() {
    let day = date(2026, 8, 28);
    let mut app = App::new_at(Document::default(), day);
    app.feature = Feature::Calendar;

    for text in ["First", "Second"] {
        app.handle_key(key(KeyCode::Char('a')));
        for character in text.chars() {
            app.handle_key(key(KeyCode::Char(character)));
        }
        assert!(app.handle_key(key(KeyCode::Enter)).changed);
    }
    assert_eq!(app.selected_calendar_entries().len(), 2);
    assert!(app.handle_key(key(KeyCode::Char(' '))).changed);
    assert!(app.selected_calendar_entries()[1].done);
    assert!(app.handle_key(ctrl(KeyCode::Up)).changed);
    assert_eq!(app.selected_calendar_entries()[0].text, "Second");

    app.handle_key(key(KeyCode::Enter));
    app.handle_key(key(KeyCode::End));
    app.handle_key(key(KeyCode::Char('!')));
    assert!(app.handle_key(key(KeyCode::Enter)).changed);
    assert_eq!(app.selected_calendar_entries()[0].text, "Second!");

    app.handle_key(key(KeyCode::Char('d')));
    assert!(app.handle_key(key(KeyCode::Char('y'))).changed);
    app.handle_key(key(KeyCode::Char('d')));
    assert!(app.handle_key(key(KeyCode::Char('y'))).changed);
    assert!(app.document.calendar.days.is_empty());
}

#[test]
fn computes_leap_year_month_lengths() {
    assert_eq!(days_in_month(date(2024, 2, 1)), 29);
    assert_eq!(days_in_month(date(2025, 2, 1)), 28);
    assert_eq!(days_in_month(date(2025, 12, 1)), 31);
}

#[test]
fn rates_and_clears_a_day_without_calendar_entries() {
    let day = date(2026, 8, 28);
    let mut app = App::new_at(Document::default(), day);
    app.feature = Feature::Calendar;

    app.handle_key(key(KeyCode::Char('r')));
    assert!(matches!(app.mode, Mode::SelectingMood(_)));
    assert!(app.handle_key(key(KeyCode::Char('5'))).changed);
    assert_eq!(
        app.document.calendar_day(day).unwrap().mood,
        Some(MoodRating::try_from(5).unwrap())
    );
    assert!(app.document.calendar_day(day).unwrap().entries.is_empty());

    app.handle_key(key(KeyCode::Char('3')));
    let statistics = app.mood_statistics();
    assert_eq!(statistics.counts, [0, 0, 0, 0, 1]);
    assert_eq!(statistics.rated_days, 1);

    app.handle_key(key(KeyCode::Char('2')));
    app.handle_key(key(KeyCode::Char('r')));
    assert!(app.handle_key(key(KeyCode::Char('c'))).changed);
    assert!(app.document.calendar_day(day).is_none());
}

#[test]
fn statistics_refresh_after_the_day_changes_while_running() {
    let yesterday = date(2026, 8, 28);
    let today = yesterday.add_days(1).unwrap();
    let mut app = App::new_at(Document::default(), yesterday);
    app.document.ensure_calendar_day(today).mood = Some(MoodRating::try_from(4).unwrap());

    assert_eq!(app.mood_statistics().rated_days, 0);

    app.update_today(today);

    let statistics = app.mood_statistics();
    assert_eq!(statistics.counts, [0, 0, 0, 1, 0]);
    assert_eq!(statistics.rated_days, 1);
}

#[test]
fn mood_statistics_use_rolling_periods_and_exclude_future_days() {
    let today = date(2026, 8, 28);
    let mut app = App::new_at(Document::default(), today);
    for (offset, rating) in [(0, 5), (29, 1), (30, 2), (364, 4), (365, 3)] {
        let day = today.sub_days(offset).unwrap();
        app.document.ensure_calendar_day(day).mood = Some(MoodRating::try_from(rating).unwrap());
    }
    let future = today.add_days(1).unwrap();
    app.document.ensure_calendar_day(future).mood = Some(MoodRating::try_from(5).unwrap());

    let month = app.mood_statistics();
    assert_eq!(month.counts, [1, 0, 0, 0, 1]);
    assert_eq!(month.rated_days, 2);
    assert_eq!(average(&month), Some(3.0));

    app.statistics_period = StatisticsPeriod::Year;
    let year = app.mood_statistics();
    assert_eq!(year.counts, [1, 1, 0, 1, 1]);
    assert_eq!(year.rated_days, 4);

    app.feature = Feature::Statistics;
    app.handle_key(key(KeyCode::Char('f')));
    let forever = app.mood_statistics();
    assert_eq!(forever.counts, [1, 1, 1, 1, 1]);
    assert_eq!(forever.rated_days, 5);
    assert_eq!(average(&forever), Some(3.0));
}

#[test]
fn creates_and_verifies_a_judgement_characteristic() {
    let mut app = App::new(Document::default());
    app.handle_key(key(KeyCode::Char('4')));
    assert_eq!(app.feature, Feature::Judgements);

    app.handle_key(key(KeyCode::Char('n')));
    type_text(&mut app, "New role");
    app.handle_key(key(KeyCode::Tab));
    type_text(&mut app, "After one year");
    assert!(app.handle_key(key(KeyCode::Enter)).changed);
    assert_eq!(app.document.judgements[0].follow_up, "After one year");

    app.handle_key(key(KeyCode::Char('a')));
    type_text(&mut app, "Autonomy");
    app.handle_key(key(KeyCode::Tab));
    type_text(&mut app, "Expected freedom");
    app.handle_key(key(KeyCode::Tab));
    app.handle_key(key(KeyCode::Char('+')));
    assert!(app.handle_key(key(KeyCode::Enter)).changed);
    assert_eq!(
        app.document.judgements[0].characteristics[0].before.rating,
        Sentiment::Positive
    );
    assert!(app.document.judgements[0].characteristics[0].after.is_none());

    app.handle_key(key(KeyCode::Char('v')));
    type_text(&mut app, "Some constraints");
    app.handle_key(key(KeyCode::Tab));
    app.handle_key(key(KeyCode::Char('-')));
    assert!(app.handle_key(key(KeyCode::Enter)).changed);
    assert_eq!(
        app.document.judgements[0].characteristics[0]
            .after
            .as_ref()
            .unwrap()
            .rating,
        Sentiment::Negative
    );

    let statistics = app.judgement_statistics();
    assert_eq!(statistics.before_counts, [1, 0, 0]);
    assert_eq!(statistics.after_counts, [0, 0, 1]);
    assert_eq!(statistics.characteristics, 1);
    assert_eq!(statistics.verified, 1);
}

#[test]
fn incomplete_after_observation_is_not_committed() {
    let mut app = App::new(Document::default());
    app.document.judgements.push(Judgement {
        name: "Laptop".into(),
        follow_up: String::new(),
        characteristics: vec![Characteristic {
            name: "Battery".into(),
            before: Observation {
                text: "Expected all day".into(),
                rating: Sentiment::Positive,
            },
            after: None,
        }],
    });
    app.feature = Feature::Judgements;
    app.judgement_focus = JudgementFocus::Characteristics;
    app.selected_characteristic = Some(0);

    app.handle_key(key(KeyCode::Char('v')));
    app.handle_key(key(KeyCode::Tab));
    app.handle_key(key(KeyCode::Char('-')));
    assert!(!app.handle_key(key(KeyCode::Enter)).changed);
    assert!(matches!(app.mode, Mode::EditingCharacteristic(_)));
    assert!(app.document.judgements[0].characteristics[0].after.is_none());

    assert!(!app.handle_key(ctrl(KeyCode::Char('x'))).changed);
    assert!(!app.handle_key(key(KeyCode::Enter)).changed);
    assert_eq!(app.mode, Mode::Normal);
}

#[test]
fn judgement_statistics_exclude_unverified_rows_from_after_percentages() {
    let mut app = App::new(Document::default());
    app.document.judgements.push(Judgement {
        name: "Investigation".into(),
        follow_up: "After research".into(),
        characteristics: vec![
            Characteristic {
                name: "First".into(),
                before: Observation {
                    text: "Promising".into(),
                    rating: Sentiment::Positive,
                },
                after: Some(Observation {
                    text: "Average".into(),
                    rating: Sentiment::Neutral,
                }),
            },
            Characteristic {
                name: "Second".into(),
                before: Observation {
                    text: "Concerning".into(),
                    rating: Sentiment::Negative,
                },
                after: None,
            },
        ],
    });

    let statistics = app.judgement_statistics();
    assert_eq!(statistics.before_counts, [1, 0, 1]);
    assert_eq!(statistics.after_counts, [0, 1, 0]);
    assert_eq!(statistics.characteristics, 2);
    assert_eq!(statistics.verified, 1);
}

#[test]
fn reorders_and_deletes_judgement_content() {
    let mut app = App::new(Document::default());
    for name in ["First", "Second"] {
        app.document.judgements.push(Judgement {
            name: name.into(),
            follow_up: String::new(),
            characteristics: Vec::new(),
        });
    }
    app.feature = Feature::Judgements;

    assert!(app.handle_key(ctrl(KeyCode::Down)).changed);
    assert_eq!(app.document.judgements[1].name, "First");
    app.handle_key(key(KeyCode::Char('d')));
    assert!(app.handle_key(key(KeyCode::Char('y'))).changed);
    assert_eq!(app.document.judgements.len(), 1);
    assert_eq!(app.selected_judgement, 0);
}

#[test]
fn calendar_tab_moves_focus_to_the_entries() {
    let day = date(2026, 8, 28);
    let mut app = App::new_at(Document::default(), day);
    app.feature = Feature::Calendar;
    app.handle_key(key(KeyCode::Tab));
    assert_eq!(app.calendar_focus, CalendarFocus::Entries);
    assert_eq!(app.selected_calendar_entry, None);
    app.handle_key(key(KeyCode::Esc));
    assert_eq!(app.calendar_focus, CalendarFocus::Grid);
}

#[test]
fn longer_statistics_periods_never_count_fewer_days() {
    let today = date(2026, 3, 1);
    let mut app = App::new_at(Document::default(), today);
    for (offset, rating) in [(0, 2), (10, 2), (40, 3), (200, 5), (400, 1), (800, 2)] {
        let day = today.sub_days(offset).unwrap();
        app.document.ensure_calendar_day(day).mood = Some(MoodRating::try_from(rating).unwrap());
    }
    let month = app.mood_statistics();
    app.statistics_period = StatisticsPeriod::Year;
    let year = app.mood_statistics();
    app.statistics_period = StatisticsPeriod::Forever;
    let forever = app.mood_statistics();
    assert_eq!(month.counts, [0, 2, 0, 0, 0]);
    assert_eq!(year.counts, [0, 2, 1, 0, 1]);
    assert_eq!(forever.counts, [1, 3, 1, 0, 1]);
    for index in 0..5 {
        assert!(month.counts[index] <= year.counts[index]);
        assert!(year.counts[index] <= forever.counts[index]);
    }
    assert!(month.rated_days <= year.rated_days && year.rated_days <= forever.rated_days);
    assert!(month.total <= year.total && year.total <= forever.total);
}

#[test]
fn a_fresh_dashboard_accepts_keys() {
    let app = app();
    assert!(app.check_dates());
    assert!(app.check_selections());
    assert!(app.check_limits());
    assert!(app.accepts_key(key(KeyCode::Char('j'))));
}

#[test]
fn a_selection_past_the_topics_is_refused() {
    let mut app = app();
    app.selected_topic = 7;
    assert!(!app.check_selections());
    assert!(!app.accepts_key(key(KeyCode::Down)));
    app.selected_topic = 1;
    app.selected_item = Some(9);
    assert!(!app.check_selections());
}

#[test]
fn stepping_past_the_last_supported_month_is_refused() {
    let mut app = App::new_at(Document::default(), date(MAX_YEAR, 11, 20));
    app.feature = Feature::Calendar;
    assert!(app.check_dates() && app.check_selections() && app.check_limits());
    assert!(!app.accepts_key(key(KeyCode::Char(']'))));
    assert!(app.accepts_key(key(KeyCode::Char('['))));
    assert!(app.accepts_key(ctrl(KeyCode::Char(']'))));
}
