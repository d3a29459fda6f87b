//! What a key press does: in each overlay, and in each view of the dashboard.
use vstd::prelude::*;

use crate::app::{
    period_start, App, CalendarFocus, CharacteristicField, CharacteristicForm, DeleteTarget, EditKind, Editor,
    Feature, HandleResult, JudgementField, JudgementFocus, JudgementForm, Mode, MoodPicker,
    SettingsState, StatisticsPeriod, StatusPicker, SyncAction,
};
use crate::date::{
    Date, MAX_YEAR, date_key, lemma_shift_back_in_month, lemma_shift_days_valid, lemma_shift_forward_in_month,
    month_length, next_day, previous_day, shift_days,
};
use crate::editing::{
    characteristic_form_committed, characteristic_form_opened, chosen_characteristic,
    day_entries, day_mood, editor_committed, entry_moved, entry_toggled, item_moved,
    item_toggled, judgement_form_committed, judgement_form_opened, judgement_selection_moved,
    mood_committed, status_committed, target_deleted, topic_moved,
};
use crate::input::{KeyCode, KeyEvent, edit_value, edited_cursor, edited_text};
use crate::model::{IdentityStatus, MoodRating, Sentiment};
use crate::navigation::{
    adjacent_mood, adjacent_status, next_characteristic_field, update_sentiment, chosen_sentiment, date_moved, entry_stepped, field_position, judgement_row_stepped,
    month_changed, moved_down, moved_up, selected_entry_count, topic_stepped,
    with_visible_selection,
};
use crate::sync::{ConflictChoice, SyncStatus, github_url_verdict, validate_github_url};
use crate::text::{trim, trimmed};

verus! {

/// A key press that asks for nothing: no quit, no change to save, no sync request.
pub open spec fn nothing(result: HandleResult) -> bool {
    !result.quit && !result.changed && result.sync_action is None
}

/// A key press that asks only to save the document if `changed`.
pub open spec fn only_changed(result: HandleResult, changed: bool) -> bool {
    !result.quit && result.changed == changed && result.sync_action is None
}

/// Whether `editor` is `before` after `key` edits its text.
pub open spec fn editor_edited(before: Editor, key: KeyEvent, editor: Editor) -> bool {
    &&& editor.kind == before.kind
    &&& editor.input@ == edited_text(before.input@, before.cursor as int, key)
    &&& editor.cursor == edited_cursor(before.input@, before.cursor as int, key)
}

/// Whether `mode` is an empty editor of kind `kind`.
pub open spec fn empty_editor(mode: Mode, kind: EditKind) -> bool {
    mode matches Mode::Editing(e) && e.kind == kind && e.input@.len() == 0 && e.cursor == 0
}

/// Whether `mode` is an editor of kind `kind` holding `text`, with the cursor at its end.
pub open spec fn filled_editor(mode: Mode, kind: EditKind, text: String) -> bool {
    mode matches Mode::Editing(e) && e.kind == kind && e.input == text && e.cursor == text@.len()
}

impl App {
    /// The dates the dashboard holds are real dates: today, the month on screen, the
    /// selected day, and the day an open editor adds to or a mood picker rates.
    pub open spec fn dates_valid(self) -> bool {
        &&& self.today.is_valid()
        &&& self.displayed_month.is_valid()
        &&& self.selected_date.is_valid()
        &&& match self.mode {
            Mode::Editing(e) => e.kind matches EditKind::AddCalendarEntry(d) ==> d.is_valid(),
            Mode::SelectingMood(p) => p.date.is_valid(),
            _ => true,
        }
    }

    /// An open overlay is about what is selected: a mood picker and a pending deletion of
    /// an entry are for the selected day, and a judgement form edits the selected
    /// judgement.
    pub open spec fn mode_consistent(self) -> bool {
        match self.mode {
            Mode::SelectingMood(p) => p.date == self.selected_date,
            Mode::EditingJudgement(f) => f.target matches Some(t) ==> t == self.selected_judgement,
            Mode::ConfirmDelete(t) => t matches DeleteTarget::CalendarEntry(d, _) ==> d
                == self.selected_date,
            _ => true,
        }
    }

    /// The dashboard's state holds together: its dates, its overlay and its selections.
    pub open spec fn consistent(self) -> bool {
        &&& self.dates_valid()
        &&& self.mode_consistent()
        &&& self.selection_consistent()
    }

    /// Text cursors and selections below the largest `usize`, so that a step forward fits.
    pub open spec fn within_limits(self) -> bool {
        &&& self.selections_bounded()
        &&& match self.mode {
            Mode::Editing(e) => e.cursor < usize::MAX,
            Mode::Searching(e) => e.cursor < usize::MAX,
            Mode::EditingJudgement(f) => f.name_cursor < usize::MAX && f.follow_up_cursor < usize::MAX,
            Mode::EditingCharacteristic(f) => f.name_cursor < usize::MAX && f.before_cursor
                < usize::MAX && f.after_cursor < usize::MAX,
            Mode::Settings(s) => s.cursor < usize::MAX,
            _ => true,
        }
    }
}

/// What every key press keeps: a valid document stays valid, the document changes only
/// when the press says so, and today and the state of sync are left alone.
pub open spec fn keeps(before: App, after: App, result: HandleResult) -> bool {
    &&& before.document.is_valid() ==> after.document.is_valid()
    &&& !result.changed ==> after.document == before.document
    &&& after.today == before.today
    &&& after.sync_status == before.sync_status
    &&& after.sync_repository == before.sync_repository
    &&& after.sync_branch == before.sync_branch
}

/// A key in the Identities view (`before` is in no overlay, with an empty status line).
pub open spec fn identities_key(before: App, key: KeyEvent, after: App, result: HandleResult) -> bool {
    let topics = before.document.topics@;
    let t = before.selected_topic;
    if key.control {
        match key.code {
            KeyCode::Up => item_moved(before, after, -1isize, result.changed) && only_changed(result, result.changed),
            KeyCode::Down => item_moved(before, after, 1isize, result.changed) && only_changed(result, result.changed),
            KeyCode::Left => topic_moved(before, after, -1isize, result.changed) && only_changed(result, result.changed),
            KeyCode::Right => topic_moved(before, after, 1isize, result.changed) && only_changed(result, result.changed),
            _ => after == before && nothing(result),
        }
    } else {
        match key.code {
            KeyCode::Char(' ') => item_toggled(before, after, result.changed) && only_changed(result, result.changed),
            _ => nothing(result) && match key.code {
                KeyCode::Char('/') => after == (App {
                    mode: Mode::Searching(Editor {
                        kind: EditKind::Search,
                        input: before.query,
                        cursor: before.query@.len() as usize,
                    }),
                    ..before
                }),
                KeyCode::Char('t') => after == (App { mode: after.mode, ..before }) && empty_editor(
                    after.mode,
                    EditKind::NewTopic,
                ),
                KeyCode::Char('a') => if t < topics.len() {
                    after == (App { mode: after.mode, ..before }) && empty_editor(after.mode, EditKind::AddItem(t))
                } else {
                    after == before
                },
                KeyCode::Char('s') => if t < topics.len() {
                    after == (App {
                        mode: Mode::SelectingStatus(StatusPicker { topic: t, selected: topics[t as int].status }),
                        ..before
                    })
                } else {
                    after == before
                },
                KeyCode::Enter => match before.selected_item {
                    Some(i) => if t < topics.len() && i < topics[t as int].items@.len() {
                        after == (App { mode: after.mode, ..before }) && filled_editor(
                            after.mode,
                            EditKind::EditItem(t, i),
                            topics[t as int].items@[i as int].text,
                        )
                    } else {
                        after == before
                    },
                    None => if t < topics.len() {
                        after == (App { mode: after.mode, ..before }) && filled_editor(
                            after.mode,
                            EditKind::RenameTopic(t),
                            topics[t as int].name,
                        )
                    } else {
                        after == before
                    },
                },
                KeyCode::Char('d') => if t < topics.len() {
                    after == (App {
                        mode: Mode::ConfirmDelete(
                            match before.selected_item {
                                Some(i) => DeleteTarget::Item(t, i),
                                None => DeleteTarget::Topic(t),
                            },
                        ),
                        ..before
                    })
                } else {
                    after == before
                },
                KeyCode::Up => moved_up(before, after),
                KeyCode::Down => moved_down(before, after),
                KeyCode::Left => topic_stepped(before, after, -1isize),
                KeyCode::BackTab => topic_stepped(before, after, -1isize),
                KeyCode::Right => topic_stepped(before, after, 1isize),
                KeyCode::Tab => topic_stepped(before, after, 1isize),
                KeyCode::Esc => after.query@.len() == 0 && after == with_visible_selection(
                    App { query: after.query, ..before },
                ),
                _ => after == before,
            },
        }
    }
}

/// A key in the Calendar view (`before` is in no overlay, with an empty status line).
pub open spec fn calendar_key(before: App, key: KeyEvent, after: App, result: HandleResult) -> bool {
    let days = before.document.calendar.days@;
    let date = before.selected_date;
    let count = selected_entry_count(before);
    let grid = before.calendar_focus is Grid;
    if key.control {
        match key.code {
            KeyCode::Up => entry_moved(before, after, -1isize, result.changed) && only_changed(result, result.changed),
            KeyCode::Down => entry_moved(before, after, 1isize, result.changed) && only_changed(result, result.changed),
            _ => after == before && nothing(result),
        }
    } else if key.code == KeyCode::Char(' ') && !grid {
        entry_toggled(before, after, result.changed) && only_changed(result, result.changed)
    } else {
        nothing(result) && match key.code {
            KeyCode::Char('[') => month_changed(before, after, -1isize),
            KeyCode::Char(']') => month_changed(before, after, 1isize),
            KeyCode::Tab | KeyCode::BackTab => {
                let focus = if grid { CalendarFocus::Entries } else { CalendarFocus::Grid };
                after == (App {
                    calendar_focus: focus,
                    selected_calendar_entry: if grid && before.selected_calendar_entry is None && count > 0 {
                        Some(0usize)
                    } else {
                        before.selected_calendar_entry
                    },
                    ..before
                })
            },
            KeyCode::Char('a') => after == (App { mode: after.mode, ..before }) && empty_editor(
                after.mode,
                EditKind::AddCalendarEntry(date),
            ),
            KeyCode::Char('r') => after == (App {
                mode: Mode::SelectingMood(MoodPicker {
                    date,
                    selected: match day_mood(days, date) {
                        Some(m) => m,
                        None => MoodRating::Neutral,
                    },
                }),
                ..before
            }),
            KeyCode::Enter => if grid {
                after == (App {
                    calendar_focus: CalendarFocus::Entries,
                    selected_calendar_entry: if count > 0 { Some(0usize) } else { None },
                    ..before
                })
            } else {
                match before.selected_calendar_entry {
                    Some(i) => if i < count {
                        after == (App { mode: after.mode, ..before }) && filled_editor(
                            after.mode,
                            EditKind::EditCalendarEntry(date, i),
                            days[crate::model::find_day(days, date)].entries@[i as int].text,
                        )
                    } else {
                        after == before
                    },
                    None => after == before,
                }
            },
            KeyCode::Char('d') => match before.selected_calendar_entry {
                Some(i) => if !grid {
                    after == (App { mode: Mode::ConfirmDelete(DeleteTarget::CalendarEntry(date, i)), ..before })
                } else {
                    after == before
                },
                None => after == before,
            },
            KeyCode::Up => if grid { date_moved(before, after, -7i64, false) } else { entry_stepped(before, after, -1isize) },
            KeyCode::Down => if grid { date_moved(before, after, 7i64, false) } else { entry_stepped(before, after, 1isize) },
            KeyCode::Left => if grid { date_moved(before, after, -1i64, true) } else { after == before },
            KeyCode::Right => if grid { date_moved(before, after, 1i64, true) } else { after == before },
            KeyCode::Esc => after == (App { calendar_focus: CalendarFocus::Grid, ..before }),
            _ => after == before,
        }
    }
}

/// A key in the Statistics view: `m`, `y` and `f` (either case) choose the period.
pub open spec fn statistics_key(before: App, key: KeyEvent, after: App, result: HandleResult) -> bool {
    &&& nothing(result)
    &&& match key.code {
        KeyCode::Char('m') | KeyCode::Char('M') => after == (App { statistics_period: StatisticsPeriod::Month, ..before }),
        KeyCode::Char('y') | KeyCode::Char('Y') => after == (App { statistics_period: StatisticsPeriod::Year, ..before }),
        KeyCode::Char('f') | KeyCode::Char('F') => after == (App { statistics_period: StatisticsPeriod::Forever, ..before }),
        _ => after == before,
    }
}

/// Whether `mode` is an empty form for a new judgement.
pub open spec fn new_judgement_form(mode: Mode) -> bool {
    mode matches Mode::EditingJudgement(f) && f.target is None && f.name@.len() == 0 && f.name_cursor == 0
        && f.follow_up@.len() == 0 && f.follow_up_cursor == 0 && f.field == JudgementField::Name
}

/// Whether `mode` is an empty form for a new characteristic of judgement `j`.
pub open spec fn new_characteristic_form(mode: Mode, j: usize) -> bool {
    mode matches Mode::EditingCharacteristic(f) && f.judgement == j && f.target is None
        && f.name@.len() == 0 && f.name_cursor == 0 && f.before_text@.len() == 0
        && f.before_cursor == 0 && f.before_rating == Sentiment::Neutral && f.after_text@.len() == 0
        && f.after_cursor == 0 && f.after_rating == Sentiment::Neutral && !f.has_after
        && f.field == CharacteristicField::Name
}

/// A key in the Judgements view (`before` is in no overlay, with an empty status line).
pub open spec fn judgements_key(before: App, key: KeyEvent, after: App, result: HandleResult) -> bool {
    let js = before.document.judgements@;
    let j = before.selected_judgement;
    let list = before.judgement_focus is Judgements;
    if key.control {
        match key.code {
            KeyCode::Up => judgement_selection_moved(before, after, -1isize, result.changed) && only_changed(result, result.changed),
            KeyCode::Down => judgement_selection_moved(before, after, 1isize, result.changed) && only_changed(result, result.changed),
            _ => after == before && nothing(result),
        }
    } else {
        nothing(result) && match key.code {
            KeyCode::Char('n') => after == (App { mode: after.mode, ..before }) && new_judgement_form(after.mode),
            KeyCode::Char('a') => if j < js.len() {
                after == (App { mode: after.mode, ..before }) && new_characteristic_form(after.mode, j)
            } else {
                after == before
            },
            KeyCode::Char('v') => if chosen_characteristic(before) is Some {
                characteristic_form_opened(before, after, CharacteristicField::AfterText)
            } else {
                after == before
            },
            KeyCode::Enter => if list {
                judgement_form_opened(before, after)
            } else {
                characteristic_form_opened(before, after, CharacteristicField::Name)
            },
            KeyCode::Char('d') => if list {
                if j < js.len() {
                    after == (App { mode: Mode::ConfirmDelete(DeleteTarget::Judgement(j)), ..before })
                } else {
                    after == before
                }
            } else {
                match before.selected_characteristic {
                    Some(c) => after == (App { mode: Mode::ConfirmDelete(DeleteTarget::Characteristic(j, c)), ..before }),
                    None => after == before,
                }
            },
            KeyCode::Tab | KeyCode::BackTab => after == (App {
                judgement_focus: if list { JudgementFocus::Characteristics } else { JudgementFocus::Judgements },
                selected_characteristic: if list && before.selected_characteristic is None && j < js.len()
                    && js[j as int].characteristics@.len() > 0 {
                    Some(0usize)
                } else {
                    before.selected_characteristic
                },
                ..before
            }),
            KeyCode::Up => judgement_row_stepped(before, after, -1isize),
            KeyCode::Down => judgement_row_stepped(before, after, 1isize),
            KeyCode::Esc => after == (App { judgement_focus: JudgementFocus::Judgements, ..before }),
            _ => after == before,
        }
    }
}

/// A key with no overlay open: `q` quits, `?` opens help, `g` the sync settings, `1` to `4`
/// switch views; other keys go to the view on screen. The status line is cleared first.
pub open spec fn normal_key(before: App, key: KeyEvent, after: App, result: HandleResult) -> bool {
    let cleared = App { mode: Mode::Normal, status: None, ..before };
    match key.code {
        KeyCode::Char('q') => after == cleared && result.quit && !result.changed && result.sync_action is None,
        KeyCode::Char('?') => after == (App { mode: Mode::Help, ..cleared }) && nothing(result),
        KeyCode::Char('g') => nothing(result) && after == (App { mode: after.mode, ..cleared }) && (
        after.mode matches Mode::Settings(s) && s.repository@ == match before.sync_repository {
            Some(r) => r@,
            None => Seq::<char>::empty(),
        } && s.cursor == s.repository@.len() && !s.editing && !s.confirm_disconnect),
        KeyCode::Char('1') => after == (App { feature: Feature::Identities, ..cleared }) && nothing(result),
        KeyCode::Char('2') => after == (App { feature: Feature::Calendar, ..cleared }) && nothing(result),
        KeyCode::Char('3') => after == (App { feature: Feature::Statistics, ..cleared }) && nothing(result),
        KeyCode::Char('4') => after == (App { feature: Feature::Judgements, ..cleared }) && nothing(result),
        _ => match before.feature {
            Feature::Identities => identities_key(cleared, key, after, result),
            Feature::Calendar => calendar_key(cleared, key, after, result),
            Feature::Statistics => statistics_key(cleared, key, after, result),
            Feature::Judgements => judgements_key(cleared, key, after, result),
        },
    }
}

/// A key in a judgement form (`closed` is the dashboard with the form closed): Esc
/// cancels, Tab switches field, Enter saves (the form stays open when saving is refused),
/// other keys edit the focused field.
pub open spec fn judgement_form_key(closed: App, form: JudgementForm, key: KeyEvent, after: App, result: HandleResult) -> bool {
    match key.code {
        KeyCode::Esc => after == closed && nothing(result),
        KeyCode::Tab | KeyCode::BackTab => nothing(result) && after == (App {
            mode: Mode::EditingJudgement(JudgementForm {
                field: if form.field is Name { JudgementField::FollowUp } else { JudgementField::Name },
                ..form
            }),
            ..closed
        }),
        KeyCode::Enter => {
            &&& !result.quit
            &&& result.sync_action is None
            &&& exists|saved: Option<bool>|
                #![trigger judgement_form_committed(closed, App { mode: Mode::Normal, ..after }, form, saved)]
                judgement_form_committed(closed, App { mode: Mode::Normal, ..after }, form, saved)
                    && result.changed == (saved == Some(true)) && after.mode == if saved is None {
                    Mode::EditingJudgement(form)
                } else {
                    Mode::Normal
                }
        },
        _ => nothing(result) && after == (App { mode: after.mode, ..closed }) && (after.mode matches Mode::EditingJudgement(f) && if form.field is Name {
            &&& f == (JudgementForm { name: f.name, name_cursor: f.name_cursor, ..form })
            &&& f.name@ == edited_text(form.name@, form.name_cursor as int, key)
            &&& f.name_cursor == edited_cursor(form.name@, form.name_cursor as int, key)
        } else {
            &&& f == (JudgementForm { follow_up: f.follow_up, follow_up_cursor: f.follow_up_cursor, ..form })
            &&& f.follow_up@ == edited_text(form.follow_up@, form.follow_up_cursor as int, key)
            &&& f.follow_up_cursor == edited_cursor(form.follow_up@, form.follow_up_cursor as int, key)
        }),
    }
}

/// How a key changes a characteristic form's focused field: text fields are edited, a
/// rating field takes the sentiment the key chooses, and an outcome is recorded once its
/// text is not empty or its rating is chosen.
pub open spec fn characteristic_field_edited(form: CharacteristicForm, key: KeyEvent, f: CharacteristicForm) -> bool {
    match form.field {
        CharacteristicField::Name => {
            &&& f == (CharacteristicForm { name: f.name, name_cursor: f.name_cursor, ..form })
            &&& f.name@ == edited_text(form.name@, form.name_cursor as int, key)
            &&& f.name_cursor == edited_cursor(form.name@, form.name_cursor as int, key)
        },
        CharacteristicField::BeforeText => {
            &&& f == (CharacteristicForm { before_text: f.before_text, before_cursor: f.before_cursor, ..form })
            &&& f.before_text@ == edited_text(form.before_text@, form.before_cursor as int, key)
            &&& f.before_cursor == edited_cursor(form.before_text@, form.before_cursor as int, key)
        },
        CharacteristicField::BeforeRating => f == (CharacteristicForm {
            before_rating: match chosen_sentiment(form.before_rating, key) {
                Some(s) => s,
                None => form.before_rating,
            },
            ..form
        }),
        CharacteristicField::AfterText => {
            let text = edited_text(form.after_text@, form.after_cursor as int, key);
            &&& f == (CharacteristicForm {
                after_text: f.after_text,
                after_cursor: f.after_cursor,
                has_after: form.has_after || text.len() > 0,
                ..form
            })
            &&& f.after_text@ == text
            &&& f.after_cursor == edited_cursor(form.after_text@, form.after_cursor as int, key)
        },
        CharacteristicField::AfterRating => f == (CharacteristicForm {
            after_rating: match chosen_sentiment(form.after_rating, key) {
                Some(s) => s,
                None => form.after_rating,
            },
            has_after: form.has_after || chosen_sentiment(form.after_rating, key) is Some,
            ..form
        }),
    }
}

/// A key in a characteristic form (`closed` is the dashboard with the form closed):
/// Ctrl+x removes the outcome, Esc cancels, Tab and Shift+Tab move between fields, Enter
/// saves (the form stays open when saving is refused), other keys change the focused field.
pub open spec fn characteristic_form_key(closed: App, form: CharacteristicForm, key: KeyEvent, after: App, result: HandleResult) -> bool {
    if key.control && key.code == KeyCode::Char('x') {
        nothing(result) && after == (App { mode: after.mode, ..closed }) && (after.mode matches Mode::EditingCharacteristic(f) && f == (CharacteristicForm {
            after_text: f.after_text,
            after_cursor: 0,
            after_rating: Sentiment::Neutral,
            has_after: false,
            ..form
        }) && f.after_text@.len() == 0)
    } else {
        match key.code {
            KeyCode::Esc => after == closed && nothing(result),
            KeyCode::Tab | KeyCode::BackTab => nothing(result) && after == (App { mode: after.mode, ..closed }) && (after.mode matches Mode::EditingCharacteristic(f) && f == (CharacteristicForm { field: f.field, ..form }) && field_position(f.field) == if key.code == KeyCode::Tab {
                (field_position(form.field) + 1) % 5
            } else {
                (field_position(form.field) + 4) % 5
            }),
            KeyCode::Enter => {
                &&& !result.quit
                &&& result.sync_action is None
                &&& exists|saved: Option<bool>|
                    #![trigger characteristic_form_committed(closed, App { mode: Mode::Normal, ..after }, form, saved)]
                    characteristic_form_committed(closed, App { mode: Mode::Normal, ..after }, form, saved)
                        && result.changed == (saved == Some(true)) && after.mode == if saved is None {
                        Mode::EditingCharacteristic(form)
                    } else {
                        Mode::Normal
                    }
            },
            _ => nothing(result) && after == (App { mode: after.mode, ..closed }) && (after.mode matches Mode::EditingCharacteristic(f) && characteristic_field_edited(form, key, f)),
        }
    }
}

/// The text of the status line when a repository address is refused.
pub open spec fn refusal_text(reason: Seq<char>) -> Seq<char> {
    "Could not connect: "@ + reason
}

/// A key in the sync settings (`closed` is the dashboard with the settings closed).
pub open spec fn settings_key(closed: App, settings: SettingsState, key: KeyEvent, after: App, result: HandleResult) -> bool {
    let stay = |s: SettingsState| App { mode: Mode::Settings(s), ..closed };
    if settings.confirm_disconnect {
        let answered = SettingsState { confirm_disconnect: false, ..settings };
        match key.code {
            KeyCode::Char('y') | KeyCode::Char('Y') | KeyCode::Enter => after == stay(answered) && !result.quit
                && !result.changed && result.sync_action == Some(SyncAction::Disconnect),
            KeyCode::Char('n') | KeyCode::Char('N') | KeyCode::Esc => after == stay(answered) && nothing(result),
            _ => after == stay(settings) && nothing(result),
        }
    } else if settings.editing {
        match key.code {
            KeyCode::Esc => after == stay(SettingsState { editing: false, ..settings }) && nothing(result),
            KeyCode::Enter => {
                let repository = trim(settings.repository@);
                match github_url_verdict(repository) {
                    Err(reason) => nothing(result) && after == (App { status: after.status, ..stay(settings) })
                        && (after.status matches Some(m) && m@ == refusal_text(reason)),
                    Ok(_) => !result.quit && !result.changed && (result.sync_action matches Some(SyncAction::Configure(url)) && url@ == repository)
                        && after == (App { mode: after.mode, ..closed }) && (after.mode matches Mode::Settings(s) && s == (SettingsState {
                        repository: s.repository,
                        cursor: repository.len() as usize,
                        editing: false,
                        ..settings
                    }) && s.repository@ == repository),
                }
            },
            _ => nothing(result) && after == (App { mode: after.mode, ..closed }) && (after.mode matches Mode::Settings(s) && s == (SettingsState {
                repository: s.repository,
                cursor: s.cursor,
                ..settings
            }) && s.repository@ == edited_text(settings.repository@, settings.cursor as int, key)
                && s.cursor == edited_cursor(settings.repository@, settings.cursor as int, key)),
        }
    } else {
        let connected = closed.sync_repository is Some;
        let conflict = closed.sync_status is Conflict;
        match key.code {
            KeyCode::Esc | KeyCode::Char('g') => after == closed && nothing(result),
            KeyCode::Char('e') => after == stay(SettingsState { editing: true, cursor: settings.repository@.len() as usize, ..settings })
                && nothing(result),
            KeyCode::Char('r') => after == stay(settings) && !result.quit && !result.changed
                && result.sync_action == if connected { Some(SyncAction::Synchronize) } else { None },
            KeyCode::Char('x') => after == stay(SettingsState { confirm_disconnect: connected, ..settings }) && nothing(result),
            KeyCode::Char('l') => after == stay(settings) && !result.quit && !result.changed
                && result.sync_action == if conflict { Some(SyncAction::Resolve(ConflictChoice::KeepLocal)) } else { None },
            KeyCode::Char('h') => after == stay(settings) && !result.quit && !result.changed
                && result.sync_action == if conflict { Some(SyncAction::Resolve(ConflictChoice::UseRemote)) } else { None },
            _ => after == stay(settings) && nothing(result),
        }
    }
}

/// What a key press does, in whatever overlay the dashboard is.
pub open spec fn key_handled(before: App, key: KeyEvent, after: App, result: HandleResult) -> bool {
    let closed = App { mode: Mode::Normal, ..before };
    match before.mode {
        Mode::Normal => normal_key(before, key, after, result),
        Mode::Editing(editor) => match key.code {
            KeyCode::Esc => after == closed && nothing(result),
            KeyCode::Enter => only_changed(result, result.changed) && editor_committed(
                closed,
                App { mode: Mode::Normal, ..after },
                editor,
                result.changed,
            ) && after.mode == if result.changed { Mode::Normal } else { Mode::Editing(editor) },
            _ => nothing(result) && after == (App { mode: after.mode, ..before }) && (after.mode matches Mode::Editing(e) && editor_edited(editor, key, e)),
        },
        Mode::Searching(editor) => nothing(result) && match key.code {
            KeyCode::Esc => after.query@.len() == 0 && after == with_visible_selection(App { query: after.query, ..closed }),
            KeyCode::Enter => after == closed,
            _ => (after.mode matches Mode::Searching(e) && editor_edited(editor, key, e) && after.query@ == e.input@)
                && after == with_visible_selection(App { mode: after.mode, query: after.query, ..before }),
        },
        Mode::SelectingStatus(picker) => match key.code {
            KeyCode::Esc => after == closed && nothing(result),
            KeyCode::Enter => status_committed(closed, after, picker, result),
            KeyCode::Up => nothing(result) && after == (App {
                mode: Mode::SelectingStatus(StatusPicker { selected: IdentityStatus::at(picker.selected.index() - 1), ..picker }),
                ..before
            }),
            KeyCode::Down => nothing(result) && after == (App {
                mode: Mode::SelectingStatus(StatusPicker { selected: IdentityStatus::at(picker.selected.index() + 1), ..picker }),
                ..before
            }),
            _ => after == before && nothing(result),
        },
        Mode::SelectingMood(picker) => match key.code {
            KeyCode::Esc => after == closed && nothing(result),
            KeyCode::Enter => mood_committed(closed, after, picker.date, Some(picker.selected), result),
            KeyCode::Char('c') | KeyCode::Char('C') => mood_committed(closed, after, picker.date, None, result),
            KeyCode::Char(c) => if '1' <= c && c <= '5' {
                mood_committed(closed, after, picker.date, Some(MoodRating::with_number(c as int - '0' as int)), result)
            } else {
                after == before && nothing(result)
            },
            KeyCode::Up | KeyCode::Left => nothing(result) && after == (App {
                mode: Mode::SelectingMood(MoodPicker { selected: MoodRating::with_number(picker.selected.number() - 1), ..picker }),
                ..before
            }),
            KeyCode::Down | KeyCode::Right => nothing(result) && after == (App {
                mode: Mode::SelectingMood(MoodPicker { selected: MoodRating::with_number(picker.selected.number() + 1), ..picker }),
                ..before
            }),
            _ => after == before && nothing(result),
        },
        Mode::EditingJudgement(form) => judgement_form_key(closed, form, key, after, result),
        Mode::EditingCharacteristic(form) => characteristic_form_key(closed, form, key, after, result),
        Mode::ConfirmDelete(target) => match key.code {
            KeyCode::Char('y') | KeyCode::Char('Y') | KeyCode::Enter => target_deleted(closed, after, target)
                && only_changed(result, true),
            KeyCode::Char('n') | KeyCode::Char('N') | KeyCode::Esc => after == closed && nothing(result),
            _ => after == before && nothing(result),
        },
        Mode::Settings(settings) => settings_key(closed, settings, key, after, result),
        Mode::Help => nothing(result) && match key.code {
            KeyCode::Esc | KeyCode::Char('?') | KeyCode::Char('q') => after == closed,
            _ => after == before,
        },
    }
}

/// Whether a key would show the month after the last month that dates reach.
pub open spec fn steps_past_last_month(app: App, key: KeyEvent) -> bool {
    &&& app.mode is Normal
    &&& app.feature is Calendar
    &&& !key.control
    &&& key.code == KeyCode::Char(']')
    &&& app.displayed_month.year == MAX_YEAR
    &&& app.displayed_month.month == 11
}

impl App {
    /// A key in the Identities view.
    fn handle_identities(&mut self, key: KeyEvent) -> (result: HandleResult)
        requires
            old(self).mode is Normal,
            old(self).topic_selection_ok(),
            old(self).selections_bounded(),
        ensures
            identities_key(*old(self), key, *final(self), result),
            keeps(*old(self), *final(self), result),
            old(self).consistent() ==> final(self).consistent(),
    {
        if key.control {
            let changed = match key.code {
                KeyCode::Up => self.move_item(-1),
                KeyCode::Down => self.move_item(1),
                KeyCode::Left => self.move_topic(-1),
                KeyCode::Right => self.move_topic(1),
                _ => false,
            };
            return HandleResult::with_change(changed);
        }
        let t = self.selected_topic;
        let exists = t < self.document.topics.len();
        match key.code {
            KeyCode::Char('/') => {
                let input = self.query.clone();
                let cursor = input.as_str().unicode_len();
                self.mode = Mode::Searching(Editor { kind: EditKind::Search, input, cursor });
            },
            KeyCode::Char('t') => {
                self.mode = Mode::Editing(Editor { kind: EditKind::NewTopic, input: String::new(), cursor: 0 });
            },
            KeyCode::Char('a') => {
                if exists {
                    self.mode = Mode::Editing(Editor { kind: EditKind::AddItem(t), input: String::new(), cursor: 0 });
                }
            },
            KeyCode::Char('s') => {
                if exists {
                    let status = self.document.topics[t].status;
                    self.mode = Mode::SelectingStatus(StatusPicker { topic: t, selected: status });
                }
            },
            KeyCode::Enter => {
                match self.selected_item {
                    Some(i) => {
                        if exists && i < self.document.topics[t].items.len() {
                            let input = self.document.topics[t].items[i].text.clone();
                            let cursor = input.as_str().unicode_len();
                            self.mode = Mode::Editing(Editor { kind: EditKind::EditItem(t, i), input, cursor });
                        }
                    },
                    None => {
                        if exists {
                            let input = self.document.topics[t].name.clone();
                            let cursor = input.as_str().unicode_len();
                            self.mode = Mode::Editing(Editor { kind: EditKind::RenameTopic(t), input, cursor });
                        }
                    },
                }
            },
            KeyCode::Char(' ') => {
                let changed = self.toggle_selected();
                return HandleResult::with_change(changed);
            },
            KeyCode::Char('d') => {
                if exists {
                    let target = match self.selected_item {
                        Some(i) => DeleteTarget::Item(t, i),
                        None => DeleteTarget::Topic(t),
                    };
                    self.mode = Mode::ConfirmDelete(target);
                }
            },
            KeyCode::Up => self.select_up(),
            KeyCode::Down => self.select_down(),
            KeyCode::Left | KeyCode::BackTab => self.select_topic(-1),
            KeyCode::Right | KeyCode::Tab => self.select_topic(1),
            KeyCode::Esc => {
                self.query = String::new();
                self.ensure_visible_selection();
            },
            _ => {},
        }
        HandleResult::none()
    }

    /// A key in the Calendar view.
    fn handle_calendar(&mut self, key: KeyEvent) -> (result: HandleResult)
        requires
            old(self).mode is Normal,
            old(self).displayed_month.is_valid(),
            old(self).selected_date.is_valid(),
            old(self).entry_selection_ok(),
            old(self).selections_bounded(),
            !(!key.control && key.code == KeyCode::Char(']') && old(self).displayed_month.year
                == MAX_YEAR && old(self).displayed_month.month == 11),
        ensures
            calendar_key(*old(self), key, *final(self), result),
            keeps(*old(self), *final(self), result),
            old(self).consistent() ==> final(self).consistent(),
    {
        if key.control {
            let changed = match key.code {
                KeyCode::Up => self.move_calendar_entry(-1),
                KeyCode::Down => self.move_calendar_entry(1),
                _ => false,
            };
            return HandleResult::with_change(changed);
        }
        proof {
            crate::model::lemma_find_day(self.document.calendar.days@, self.selected_date);
        }
        let date = self.selected_date;
        let grid = match self.calendar_focus {
            CalendarFocus::Grid => true,
            CalendarFocus::Entries => false,
        };
        match key.code {
            KeyCode::Char('[') => self.change_month(-1),
            KeyCode::Char(']') => self.change_month(1),
            KeyCode::Tab | KeyCode::BackTab => {
                self.calendar_focus = if grid { CalendarFocus::Entries } else { CalendarFocus::Grid };
                if grid && self.selected_calendar_entry.is_none() && self.selected_calendar_entries().len() > 0 {
                    self.selected_calendar_entry = Some(0);
                }
            },
            KeyCode::Char('a') => {
                self.mode = Mode::Editing(Editor {
                    kind: EditKind::AddCalendarEntry(date),
                    input: String::new(),
                    cursor: 0,
                });
            },
            KeyCode::Char('r') => {
                let selected = match self.document.calendar_day(date) {
                    Some(day) => match day.mood {
                        Some(m) => m,
                        None => MoodRating::NEUTRAL,
                    },
                    None => MoodRating::NEUTRAL,
                };
                self.mode = Mode::SelectingMood(MoodPicker { date, selected });
            },
            KeyCode::Enter => {
                if grid {
                    self.calendar_focus = CalendarFocus::Entries;
                    self.selected_calendar_entry = if self.selected_calendar_entries().len() > 0 {
                        Some(0)
                    } else {
                        None
                    };
                } else {
                    match self.selected_calendar_entry {
                        Some(i) => {
                            let entries = self.selected_calendar_entries();
                            if i < entries.len() {
                                let input = entries[i].text.clone();
                                let cursor = input.as_str().unicode_len();
                                self.mode = Mode::Editing(Editor {
                                    kind: EditKind::EditCalendarEntry(date, i),
                                    input,
                                    cursor,
                                });
                            }
                        },
                        None => {},
                    }
                }
            },
            KeyCode::Char(' ') => {
                if !grid {
                    let changed = self.toggle_calendar_entry();
                    return HandleResult::with_change(changed);
                }
            },
            KeyCode::Char('d') => {
                if !grid {
                    match self.selected_calendar_entry {
                        Some(i) => {
                            self.mode = Mode::ConfirmDelete(DeleteTarget::CalendarEntry(date, i));
                        },
                        None => {},
                    }
                }
            },
            KeyCode::Up => {
                if grid {
                    self.move_selected_date(-7, false);
                } else {
                    self.select_calendar_entry(-1);
                }
            },
            KeyCode::Down => {
                if grid {
                    self.move_selected_date(7, false);
                } else {
                    self.select_calendar_entry(1);
                }
            },
            KeyCode::Left => {
                if grid {
                    self.move_selected_date(-1, true);
                }
            },
            KeyCode::Right => {
                if grid {
                    self.move_selected_date(1, true);
                }
            },
            KeyCode::Esc => {
                self.calendar_focus = CalendarFocus::Grid;
            },
            _ => {},
        }
        HandleResult::none()
    }

    /// A key in the Statistics view.
    fn handle_statistics(&mut self, key: KeyEvent) -> (result: HandleResult)
        ensures
            statistics_key(*old(self), key, *final(self), result),
            keeps(*old(self), *final(self), result),
            old(self).consistent() ==> final(self).consistent(),
    {
        match key.code {
            KeyCode::Char('m') | KeyCode::Char('M') => self.statistics_period = StatisticsPeriod::Month,
            KeyCode::Char('y') | KeyCode::Char('Y') => self.statistics_period = StatisticsPeriod::Year,
            KeyCode::Char('f') | KeyCode::Char('F') => self.statistics_period = StatisticsPeriod::Forever,
            _ => {},
        }
        HandleResult::none()
    }

    /// A key in the Judgements view.
    fn handle_judgements(&mut self, key: KeyEvent) -> (result: HandleResult)
        requires
            old(self).mode is Normal,
            old(self).judgement_selection_ok(),
            old(self).selections_bounded(),
        ensures
            judgements_key(*old(self), key, *final(self), result),
            keeps(*old(self), *final(self), result),
            old(self).consistent() ==> final(self).consistent(),
    {
        if key.control {
            let changed = match key.code {
                KeyCode::Up => self.move_judgement_selection(-1),
                KeyCode::Down => self.move_judgement_selection(1),
                _ => false,
            };
            return HandleResult::with_change(changed);
        }
        let j = self.selected_judgement;
        let exists = j < self.document.judgements.len();
        let list = match self.judgement_focus {
            JudgementFocus::Judgements => true,
            JudgementFocus::Characteristics => false,
        };
        match key.code {
            KeyCode::Char('n') => {
                self.mode = Mode::EditingJudgement(JudgementForm {
                    target: None,
                    name: String::new(),
                    name_cursor: 0,
                    follow_up: String::new(),
                    follow_up_cursor: 0,
                    field: JudgementField::Name,
                });
            },
            KeyCode::Char('a') => {
                if exists {
                    self.mode = Mode::EditingCharacteristic(CharacteristicForm {
                        judgement: j,
                        target: None,
                        name: String::new(),
                        name_cursor: 0,
                        before_text: String::new(),
                        before_cursor: 0,
                        before_rating: Sentiment::Neutral,
                        after_text: String::new(),
                        after_cursor: 0,
                        after_rating: Sentiment::Neutral,
                        has_after: false,
                        field: CharacteristicField::Name,
                    });
                }
            },
            KeyCode::Char('v') => {
                if self.selected_characteristic().is_some() {
                    self.open_characteristic_form(CharacteristicField::AfterText);
                }
            },
            KeyCode::Enter => {
                if list {
                    self.open_judgement_form();
                } else {
                    self.open_characteristic_form(CharacteristicField::Name);
                }
            },
            KeyCode::Char('d') => {
                if list {
                    if exists {
                        self.mode = Mode::ConfirmDelete(DeleteTarget::Judgement(j));
                    }
                } else {
                    match self.selected_characteristic {
                        Some(c) => {
                            self.mode = Mode::ConfirmDelete(DeleteTarget::Characteristic(j, c));
                        },
                        None => {},
                    }
                }
            },
            KeyCode::Tab | KeyCode::BackTab => {
                self.judgement_focus = if list {
                    JudgementFocus::Characteristics
                } else {
                    JudgementFocus::Judgements
                };
                if list && self.selected_characteristic.is_none() && exists
                    && self.document.judgements[j].characteristics.len() > 0 {
                    self.selected_characteristic = Some(0);
                }
            },
            KeyCode::Up => self.select_judgement_row(-1),
            KeyCode::Down => self.select_judgement_row(1),
            KeyCode::Esc => {
                self.judgement_focus = JudgementFocus::Judgements;
            },
            _ => {},
        }
        HandleResult::none()
    }

    /// A key with no overlay open.
    fn handle_normal(&mut self, key: KeyEvent) -> (result: HandleResult)
        requires
            old(self).mode is Normal,
            old(self).dates_valid(),
            old(self).selection_consistent(),
            old(self).selections_bounded(),
            !steps_past_last_month(*old(self), key),
        ensures
            normal_key(*old(self), key, *final(self), result),
            keeps(*old(self), *final(self), result),
            old(self).consistent() ==> final(self).consistent(),
            result.quit <==> key.code == KeyCode::Char('q'),
            result.sync_action is None,
    {
        self.status = None;
        match key.code {
            KeyCode::Char('q') => {
                return HandleResult { quit: true, changed: false, sync_action: None };
            },
            KeyCode::Char('?') => {
                self.mode = Mode::Help;
                return HandleResult::none();
            },
            KeyCode::Char('g') => {
                let repository = match &self.sync_repository {
                    Some(r) => r.clone(),
                    None => String::new(),
                };
                let cursor = repository.as_str().unicode_len();
                self.mode = Mode::Settings(SettingsState {
                    repository,
                    cursor,
                    editing: false,
                    confirm_disconnect: false,
                });
                return HandleResult::none();
            },
            KeyCode::Char('1') => {
                self.feature = Feature::Identities;
                return HandleResult::none();
            },
            KeyCode::Char('2') => {
                self.feature = Feature::Calendar;
                return HandleResult::none();
            },
            KeyCode::Char('3') => {
                self.feature = Feature::Statistics;
                return HandleResult::none();
            },
            KeyCode::Char('4') => {
                self.feature = Feature::Judgements;
                return HandleResult::none();
            },
            _ => {},
        }
        match self.feature {
            Feature::Identities => self.handle_identities(key),
            Feature::Calendar => self.handle_calendar(key),
            Feature::Statistics => self.handle_statistics(key),
            Feature::Judgements => self.handle_judgements(key),
        }
    }

    /// A key in a text editor: Esc cancels, Enter saves (the editor stays open when saving
    /// is refused), other keys edit the text.
    fn handle_editor(&mut self, key: KeyEvent, editor: Editor) -> (result: HandleResult)
        requires
            old(self).mode is Normal,
            editor.cursor < usize::MAX,
            editor.kind matches EditKind::AddCalendarEntry(d) ==> d.is_valid(),
        ensures
            key_handled(App { mode: Mode::Editing(editor), ..*old(self) }, key, *final(self), result),
            keeps(*old(self), *final(self), result),
            (App { mode: Mode::Editing(editor), ..*old(self) }).consistent() ==> final(self).consistent(),
    {
        match key.code {
            KeyCode::Esc => HandleResult::none(),
            KeyCode::Enter => {
                let changed = self.commit_editor(&editor);
                if !changed {
                    self.mode = Mode::Editing(editor);
                }
                HandleResult::with_change(changed)
            },
            _ => {
                let mut editor = editor;
                edit_value(&mut editor.input, &mut editor.cursor, key);
                self.mode = Mode::Editing(editor);
                HandleResult::none()
            },
        }
    }

    /// A key in the search: Esc clears it, Enter closes it, other keys edit the query,
    /// and the selection follows what the query shows.
    fn handle_search(&mut self, key: KeyEvent, editor: Editor) -> (result: HandleResult)
        requires
            old(self).mode is Normal,
            editor.cursor < usize::MAX,
        ensures
            key_handled(App { mode: Mode::Searching(editor), ..*old(self) }, key, *final(self), result),
            keeps(*old(self), *final(self), result),
            (App { mode: Mode::Searching(editor), ..*old(self) }).consistent() ==> final(self).consistent(),
    {
        match key.code {
            KeyCode::Esc => {
                self.query = String::new();
                self.ensure_visible_selection();
            },
            KeyCode::Enter => {},
            _ => {
                let mut editor = editor;
                edit_value(&mut editor.input, &mut editor.cursor, key);
                self.query = editor.input.clone();
                self.mode = Mode::Searching(editor);
                self.ensure_visible_selection();
            },
        }
        HandleResult::none()
    }

    /// A key in the identity status picker.
    fn handle_status_picker(&mut self, key: KeyEvent, picker: StatusPicker) -> (result: HandleResult)
        requires
            old(self).mode is Normal,
        ensures
            key_handled(App { mode: Mode::SelectingStatus(picker), ..*old(self) }, key, *final(self), result),
            keeps(*old(self), *final(self), result),
            (App { mode: Mode::SelectingStatus(picker), ..*old(self) }).consistent() ==> final(self).consistent(),
    {
        match key.code {
            KeyCode::Esc => HandleResult::none(),
            KeyCode::Enter => self.commit_status(picker),
            KeyCode::Up => {
                self.mode = Mode::SelectingStatus(StatusPicker { selected: adjacent_status(picker.selected, -1), ..picker });
                HandleResult::none()
            },
            KeyCode::Down => {
                self.mode = Mode::SelectingStatus(StatusPicker { selected: adjacent_status(picker.selected, 1), ..picker });
                HandleResult::none()
            },
            _ => {
                self.mode = Mode::SelectingStatus(picker);
                HandleResult::none()
            },
        }
    }

    /// A key in the mood picker: Enter saves the chosen rating, `1` to `5` save that
    /// rating, `c` clears the day's rating, the arrows change the choice.
    fn handle_mood_picker(&mut self, key: KeyEvent, picker: MoodPicker) -> (result: HandleResult)
        requires
            old(self).mode is Normal,
            picker.date.is_valid(),
        ensures
            key_handled(App { mode: Mode::SelectingMood(picker), ..*old(self) }, key, *final(self), result),
            keeps(*old(self), *final(self), result),
            (App { mode: Mode::SelectingMood(picker), ..*old(self) }).consistent() ==> final(self).consistent(),
    {
        match key.code {
            KeyCode::Esc => HandleResult::none(),
            KeyCode::Enter => self.commit_mood(picker.date, Some(picker.selected)),
            KeyCode::Char('c') | KeyCode::Char('C') => self.commit_mood(picker.date, None),
            KeyCode::Char(c) => {
                let rating = match c {
                    '1' => Some(MoodRating::Depressed),
                    '2' => Some(MoodRating::Bad),
                    '3' => Some(MoodRating::Neutral),
                    '4' => Some(MoodRating::Good),
                    '5' => Some(MoodRating::Happy),
                    _ => None,
                };
                match rating {
                    Some(r) => self.commit_mood(picker.date, Some(r)),
                    None => {
                        self.mode = Mode::SelectingMood(picker);
                        HandleResult::none()
                    },
                }
            },
            KeyCode::Up | KeyCode::Left => {
                self.mode = Mode::SelectingMood(MoodPicker { selected: adjacent_mood(picker.selected, -1), ..picker });
                HandleResult::none()
            },
            KeyCode::Down | KeyCode::Right => {
                self.mode = Mode::SelectingMood(MoodPicker { selected: adjacent_mood(picker.selected, 1), ..picker });
                HandleResult::none()
            },
            _ => {
                self.mode = Mode::SelectingMood(picker);
                HandleResult::none()
            },
        }
    }

    /// A key in a judgement form.
    fn handle_judgement_form(&mut self, key: KeyEvent, form: JudgementForm) -> (result: HandleResult)
        requires
            old(self).mode is Normal,
            form.name_cursor < usize::MAX,
            form.follow_up_cursor < usize::MAX,
        ensures
            key_handled(App { mode: Mode::EditingJudgement(form), ..*old(self) }, key, *final(self), result),
            keeps(*old(self), *final(self), result),
            (App { mode: Mode::EditingJudgement(form), ..*old(self) }).consistent() ==> final(self).consistent(),
    {
        match key.code {
            KeyCode::Esc => HandleResult::none(),
            KeyCode::Tab | KeyCode::BackTab => {
                let field = match form.field {
                    JudgementField::Name => JudgementField::FollowUp,
                    JudgementField::FollowUp => JudgementField::Name,
                };
                self.mode = Mode::EditingJudgement(JudgementForm { field, ..form });
                HandleResult::none()
            },
            KeyCode::Enter => {
                match self.commit_judgement_form(&form) {
                    Some(changed) => HandleResult::with_change(changed),
                    None => {
                        self.mode = Mode::EditingJudgement(form);
                        HandleResult::none()
                    },
                }
            },
            _ => {
                let mut form = form;
                match form.field {
                    JudgementField::Name => edit_value(&mut form.name, &mut form.name_cursor, key),
                    JudgementField::FollowUp => edit_value(&mut form.follow_up, &mut form.follow_up_cursor, key),
                }
                self.mode = Mode::EditingJudgement(form);
                HandleResult::none()
            },
        }
    }

    /// A key in a characteristic form.
    fn handle_characteristic_form(&mut self, key: KeyEvent, form: CharacteristicForm) -> (result: HandleResult)
        requires
            old(self).mode is Normal,
            form.name_cursor < usize::MAX,
            form.before_cursor < usize::MAX,
            form.after_cursor < usize::MAX,
        ensures
            key_handled(App { mode: Mode::EditingCharacteristic(form), ..*old(self) }, key, *final(self), result),
            keeps(*old(self), *final(self), result),
            (App { mode: Mode::EditingCharacteristic(form), ..*old(self) }).consistent() ==> final(self).consistent(),
    {
        let mut form = form;
        if key.control && key.code == KeyCode::Char('x') {
            form.after_text = String::new();
            form.after_cursor = 0;
            form.after_rating = Sentiment::Neutral;
            form.has_after = false;
            self.mode = Mode::EditingCharacteristic(form);
            return HandleResult::none();
        }
        match key.code {
            KeyCode::Esc => {
                return HandleResult::none();
            },
            KeyCode::Tab => form.field = next_characteristic_field(form.field, 1),
            KeyCode::BackTab => form.field = next_characteristic_field(form.field, -1),
            KeyCode::Enter => {
                match self.commit_characteristic_form(&form) {
                    Some(changed) => {
                        return HandleResult::with_change(changed);
                    },
                    None => {},
                }
            },
            _ => match form.field {
                CharacteristicField::Name => edit_value(&mut form.name, &mut form.name_cursor, key),
                CharacteristicField::BeforeText => edit_value(&mut form.before_text, &mut form.before_cursor, key),
                CharacteristicField::BeforeRating => {
                    update_sentiment(&mut form.before_rating, key);
                },
                CharacteristicField::AfterText => {
                    edit_value(&mut form.after_text, &mut form.after_cursor, key);
                    if form.after_text.as_str().unicode_len() > 0 {
                        form.has_after = true;
                    }
                },
                CharacteristicField::AfterRating => {
                    if update_sentiment(&mut form.after_rating, key) {
                        form.has_after = true;
                    }
                },
            },
        }
        self.mode = Mode::EditingCharacteristic(form);
        HandleResult::none()
    }

    /// A key in a delete confirmation: `y` or Enter deletes, `n` or Esc cancels.
    fn handle_delete_confirmation(&mut self, key: KeyEvent, target: DeleteTarget) -> (result: HandleResult)
        requires
            old(self).mode is Normal,
        ensures
            key_handled(App { mode: Mode::ConfirmDelete(target), ..*old(self) }, key, *final(self), result),
            keeps(*old(self), *final(self), result),
            (App { mode: Mode::ConfirmDelete(target), ..*old(self) }).consistent() ==> final(self).consistent(),
    {
        match key.code {
            KeyCode::Char('y') | KeyCode::Char('Y') | KeyCode::Enter => {
                self.delete(target);
                HandleResult::with_change(true)
            },
            KeyCode::Char('n') | KeyCode::Char('N') | KeyCode::Esc => HandleResult::none(),
            _ => {
                self.mode = Mode::ConfirmDelete(target);
                HandleResult::none()
            },
        }
    }

    /// A key in the sync settings.
    fn handle_settings(&mut self, key: KeyEvent, settings: SettingsState) -> (result: HandleResult)
        requires
            old(self).mode is Normal,
            settings.cursor < usize::MAX,
        ensures
            key_handled(App { mode: Mode::Settings(settings), ..*old(self) }, key, *final(self), result),
            keeps(*old(self), *final(self), result),
            (App { mode: Mode::Settings(settings), ..*old(self) }).consistent() ==> final(self).consistent(),
            !result.quit,
    {
        let mut settings = settings;
        if settings.confirm_disconnect {
            match key.code {
                KeyCode::Char('y') | KeyCode::Char('Y') | KeyCode::Enter => {
                    settings.confirm_disconnect = false;
                    self.mode = Mode::Settings(settings);
                    return HandleResult { quit: false, changed: false, sync_action: Some(SyncAction::Disconnect) };
                },
                KeyCode::Char('n') | KeyCode::Char('N') | KeyCode::Esc => {
                    settings.confirm_disconnect = false;
                },
                _ => {},
            }
            self.mode = Mode::Settings(settings);
            return HandleResult::none();
        }
        if settings.editing {
            match key.code {
                KeyCode::Esc => settings.editing = false,
                KeyCode::Enter => {
                    let repository = trimmed(settings.repository.as_str());
                    match validate_github_url(repository.as_str()) {
                        Err(error) => {
                            let mut message = String::from_str("Could not connect: ");
                            message.append(error.as_str());
                            self.status = Some(message);
                        },
                        Ok(()) => {
                            settings.cursor = repository.as_str().unicode_len();
                            settings.repository = repository.clone();
                            settings.editing = false;
                            self.mode = Mode::Settings(settings);
                            return HandleResult {
                                quit: false,
                                changed: false,
                                sync_action: Some(SyncAction::Configure(repository)),
                            };
                        },
                    }
                },
                _ => edit_value(&mut settings.repository, &mut settings.cursor, key),
            }
            self.mode = Mode::Settings(settings);
            return HandleResult::none();
        }
        let connected = self.sync_repository.is_some();
        let conflict = match self.sync_status {
            SyncStatus::Conflict(_) => true,
            _ => false,
        };
        let action = match key.code {
            KeyCode::Esc | KeyCode::Char('g') => {
                return HandleResult::none();
            },
            KeyCode::Char('e') => {
                settings.editing = true;
                settings.cursor = settings.repository.as_str().unicode_len();
                None
            },
            KeyCode::Char('r') => if connected {
                Some(SyncAction::Synchronize)
            } else {
                None
            },
            KeyCode::Char('x') => {
                if connected {
                    settings.confirm_disconnect = true;
                }
                None
            },
            KeyCode::Char('l') => if conflict {
                Some(SyncAction::Resolve(ConflictChoice::KeepLocal))
            } else {
                None
            },
            KeyCode::Char('h') => if conflict {
                Some(SyncAction::Resolve(ConflictChoice::UseRemote))
            } else {
                None
            },
            _ => None,
        };
        self.mode = Mode::Settings(settings);
        HandleResult { quit: false, changed: false, sync_action: action }
    }

    /// Applies a key press: to the overlay that is open, or else to the view on screen.
    pub fn handle_key(&mut self, key: KeyEvent) -> (result: HandleResult)
        requires
            old(self).dates_valid(),
            old(self).selection_consistent(),
            old(self).within_limits(),
            !steps_past_last_month(*old(self), key),
        ensures
            key_handled(*old(self), key, *final(self), result),
            old(self).consistent() ==> final(self).consistent(),
            old(self).document.is_valid() ==> final(self).document.is_valid(),
            !result.changed ==> final(self).document == old(self).document,
            result.quit <==> (old(self).mode is Normal && key.code == KeyCode::Char('q')),
            result.sync_action is Some ==> old(self).mode is Settings,
            final(self).today == old(self).today,
            final(self).sync_status == old(self).sync_status,
            final(self).sync_repository == old(self).sync_repository,
            final(self).sync_branch == old(self).sync_branch,
    {
        let mut mode = Mode::Normal;
        core::mem::swap(&mut mode, &mut self.mode);
        match mode {
            Mode::Normal => self.handle_normal(key),
            Mode::Editing(editor) => self.handle_editor(key, editor),
            Mode::Searching(editor) => self.handle_search(key, editor),
            Mode::SelectingStatus(picker) => self.handle_status_picker(key, picker),
            Mode::SelectingMood(picker) => self.handle_mood_picker(key, picker),
            Mode::EditingJudgement(form) => self.handle_judgement_form(key, form),
            Mode::EditingCharacteristic(form) => self.handle_characteristic_form(key, form),
            Mode::ConfirmDelete(target) => self.handle_delete_confirmation(key, target),
            Mode::Settings(settings) => self.handle_settings(key, settings),
            Mode::Help => {
                match key.code {
                    KeyCode::Esc | KeyCode::Char('?') | KeyCode::Char('q') => {},
                    _ => {
                        self.mode = Mode::Help;
                    },
                }
                HandleResult::none()
            },
        }
    }
}

/// Applies a key to the text of an editor.
pub fn edit_text(editor: &mut Editor, key: KeyEvent)
    requires
        old(editor).cursor < usize::MAX,
    ensures
        editor_edited(*old(editor), key, *final(editor)),
{
    edit_value(&mut editor.input, &mut editor.cursor, key);
}

/// Whether `date` is a real date.
fn date_ok(date: crate::date::Date) -> (ok: bool)
    ensures
        ok == date.is_valid(),
{
    crate::date::Date::from_ymd(date.year, date.month, date.day).is_some()
}

/// Whether `value` leaves room for one step forward.
fn below_max(value: usize) -> (below: bool)
    ensures
        below == (value < usize::MAX),
{
    value < usize::MAX
}

impl App {
    /// Whether the dashboard's dates are real dates.
    pub fn check_dates(&self) -> (ok: bool)
        ensures
            ok == self.dates_valid(),
    {
        let mode_ok = match &self.mode {
            Mode::Editing(e) => match e.kind {
                EditKind::AddCalendarEntry(d) => date_ok(d),
                _ => true,
            },
            Mode::SelectingMood(p) => date_ok(p.date),
            _ => true,
        };
        date_ok(self.today) && date_ok(self.displayed_month) && date_ok(self.selected_date) && mode_ok
    }

    /// Whether every selection points into the document.
    pub fn check_selections(&self) -> (ok: bool)
        ensures
            ok == self.selection_consistent(),
    {
        let topics = &self.document.topics;
        let topic_ok = (topics.len() == 0 || self.selected_topic < topics.len()) && match self.selected_item {
            Some(i) => self.selected_topic >= topics.len() || i < topics[self.selected_topic].items.len(),
            None => true,
        };
        let entries = self.selected_calendar_entries();
        proof {
            crate::model::lemma_find_day(self.document.calendar.days@, self.selected_date);
        }
        let entry_ok = match self.selected_calendar_entry {
            Some(e) => e < entries.len(),
            None => true,
        };
        let js = &self.document.judgements;
        let judgement_ok = (js.len() == 0 || self.selected_judgement < js.len()) && match self.selected_characteristic {
            Some(c) => self.selected_judgement >= js.len() || c < js[self.selected_judgement].characteristics.len(),
            None => true,
        };
        topic_ok && entry_ok && judgement_ok
    }

    /// Whether cursors and selections leave room for one step forward.
    pub fn check_limits(&self) -> (ok: bool)
        ensures
            ok == self.within_limits(),
    {
        let selections = below_max(self.selected_topic) && match self.selected_item {
            Some(i) => below_max(i),
            None => true,
        } && match self.selected_calendar_entry {
            Some(i) => below_max(i),
            None => true,
        } && below_max(self.selected_judgement) && match self.selected_characteristic {
            Some(i) => below_max(i),
            None => true,
        };
        let cursors = match &self.mode {
            Mode::Editing(e) => below_max(e.cursor),
            Mode::Searching(e) => below_max(e.cursor),
            Mode::EditingJudgement(f) => below_max(f.name_cursor) && below_max(f.follow_up_cursor),
            Mode::EditingCharacteristic(f) => below_max(f.name_cursor) && below_max(f.before_cursor)
                && below_max(f.after_cursor),
            Mode::Settings(s) => below_max(s.cursor),
            _ => true,
        };
        selections && cursors
    }

    /// Whether `handle_key` can take `key` now: what it asks of the dashboard holds, and
    /// the key does not show a month after the last one dates reach.
    pub fn accepts_key(&self, key: KeyEvent) -> (ok: bool)
        ensures
            ok == (self.dates_valid() && self.selection_consistent() && self.within_limits()
                && !steps_past_last_month(*self, key)),
    {
        let past = match self.mode {
            Mode::Normal => match self.feature {
                crate::app::Feature::Calendar => !key.control && key.code == KeyCode::Char(']')
                    && self.displayed_month.year == MAX_YEAR && self.displayed_month.month == 11,
                _ => false,
            },
            _ => false,
        };
        self.check_dates() && self.check_selections() && self.check_limits() && !past
    }
}

/// In the calendar grid, Up moves the selected day one week back and Down one week on, so
/// that it keeps its weekday: inside the shown month the day of the month falls or rises
/// by exactly seven, and a week that would leave the month keeps the selected day.
pub proof fn lemma_grid_moves_by_whole_weeks(before: App, key: KeyEvent, after: App, result: HandleResult)
    requires
        before.mode is Normal,
        before.feature is Calendar,
        before.calendar_focus is Grid,
        !key.control,
        key.code == KeyCode::Up || key.code == KeyCode::Down,
        before.selected_date.is_valid(),
        before.selected_date.same_month(before.displayed_month),
        key_handled(before, key, after, result),
    ensures
        after.selected_date.year == before.selected_date.year,
        after.selected_date.month == before.selected_date.month,
        key.code == KeyCode::Up ==> after.selected_date.day == if before.selected_date.day > 7 {
            before.selected_date.day - 7
        } else {
            before.selected_date.day as int
        },
        key.code == KeyCode::Down ==> after.selected_date.day == if before.selected_date.day + 7 <= month_length(
            before.selected_date.year as int,
            before.selected_date.month as int,
        ) {
            before.selected_date.day + 7
        } else {
            before.selected_date.day as int
        },
        after.document == before.document,
{
    let d = before.selected_date;
    lemma_shift_back_in_month(d, 7);
    lemma_shift_forward_in_month(d, 7);
    lemma_shift_days_valid(d, -7);
    lemma_shift_days_valid(d, 7);
    if let Some(c) = shift_days(d, -7) {
        if d.day <= 7 {
            assert(date_key(c) < date_key(Date { day: 1, ..d }));
            assert(!c.same_month(before.displayed_month));
        }
    }
    if let Some(c) = shift_days(d, 7) {
        if d.day + 7 > month_length(d.year as int, d.month as int) {
            assert(!c.same_month(before.displayed_month));
        }
    }
}

/// In the calendar grid, Left selects the day before and Right the day after, into the
/// neighbouring month when needed, which is then shown.
pub proof fn lemma_grid_moves_by_days(before: App, key: KeyEvent, after: App, result: HandleResult)
    requires
        before.mode is Normal,
        before.feature is Calendar,
        before.calendar_focus is Grid,
        !key.control,
        before.selected_date.is_valid(),
        key_handled(before, key, after, result),
    ensures
        key.code == KeyCode::Left && previous_day(before.selected_date).is_valid() ==> after.selected_date
            == previous_day(before.selected_date) && after.displayed_month.year == after.selected_date.year
            && after.displayed_month.month == after.selected_date.month,
        key.code == KeyCode::Right && next_day(before.selected_date).is_valid() ==> after.selected_date
            == next_day(before.selected_date) && after.displayed_month.year == after.selected_date.year
            && after.displayed_month.month == after.selected_date.month,
        key.code == KeyCode::Left || key.code == KeyCode::Right ==> after.document == before.document,
{
    reveal_with_fuel(shift_days, 2);
}

/// In the statistics view `m` chooses the last 30 days, `y` the last 365 days and `f`
/// every day so far, in either case: the period then starts 29 or 364 days before today,
/// or nowhere. The document stays as it was.
pub proof fn lemma_statistics_keys_choose_periods(before: App, key: KeyEvent, after: App, result: HandleResult)
    requires
        before.mode is Normal,
        before.feature is Statistics,
        key_handled(before, key, after, result),
    ensures
        key.code == KeyCode::Char('m') || key.code == KeyCode::Char('M') ==> after.statistics_period
            is Month && period_start(after.today, after.statistics_period) == shift_days(before.today, -29),
        key.code == KeyCode::Char('y') || key.code == KeyCode::Char('Y') ==> after.statistics_period
            is Year && period_start(after.today, after.statistics_period) == shift_days(before.today, -364),
        key.code == KeyCode::Char('f') || key.code == KeyCode::Char('F') ==> after.statistics_period
            is Forever && period_start(after.today, after.statistics_period) is None,
        after.document == before.document,
{
}

} // verus!
