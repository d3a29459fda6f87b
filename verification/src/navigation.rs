//! Moving the selection: between identities and their items, through the calendar, and
//! through judgements, and the small choices pickers make.
use vstd::prelude::*;

use crate::app::{
    App, CalendarFocus, CharacteristicField, JudgementFocus, shown_items, shown_topics,
};
use crate::date::{Date, MAX_YEAR, days_in_month, month_after, month_before, shift_days};
use crate::input::{KeyCode, KeyEvent};
use crate::lists::{contains_index, position, position_of};
use crate::model::{IdentityStatus, MoodRating, Sentiment, find_day};

verus! {

/// The status next to `status` in the picker, up (`direction < 0`) or down, stopping at
/// the ends.
pub fn adjacent_status(status: IdentityStatus, direction: isize) -> (next: IdentityStatus)
    ensures
        next == IdentityStatus::at(
            if direction < 0 { status.index() - 1 } else { status.index() + 1 },
        ),
{
    match (status, direction < 0) {
        (IdentityStatus::Aspiring, true) => IdentityStatus::Aspiring,
        (IdentityStatus::Aspiring, false) => IdentityStatus::Active,
        (IdentityStatus::Active, true) => IdentityStatus::Aspiring,
        (IdentityStatus::Active, false) => IdentityStatus::Former,
        (IdentityStatus::Former, true) => IdentityStatus::Active,
        (IdentityStatus::Former, false) => IdentityStatus::Former,
    }
}

/// The rating next to `mood`, lower (`direction < 0`) or higher, stopping at 1 and 5.
pub fn adjacent_mood(mood: MoodRating, direction: isize) -> (next: MoodRating)
    ensures
        next == MoodRating::with_number(
            if direction < 0 { mood.number() - 1 } else { mood.number() + 1 },
        ),
{
    match (mood, direction < 0) {
        (MoodRating::Depressed, true) => MoodRating::Depressed,
        (MoodRating::Depressed, false) => MoodRating::Bad,
        (MoodRating::Bad, true) => MoodRating::Depressed,
        (MoodRating::Bad, false) => MoodRating::Neutral,
        (MoodRating::Neutral, true) => MoodRating::Bad,
        (MoodRating::Neutral, false) => MoodRating::Good,
        (MoodRating::Good, true) => MoodRating::Neutral,
        (MoodRating::Good, false) => MoodRating::Happy,
        (MoodRating::Happy, true) => MoodRating::Good,
        (MoodRating::Happy, false) => MoodRating::Happy,
    }
}

/// The position of `sentiment` in `Sentiment::ALL`.
pub fn sentiment_index(sentiment: Sentiment) -> (index: usize)
    ensures
        index == sentiment.index(),
{
    match sentiment {
        Sentiment::Positive => 0,
        Sentiment::Neutral => 1,
        Sentiment::Negative => 2,
    }
}

/// The index one step from `index` in a list of `len`, stopping at the ends.
pub open spec fn step_index(index: int, len: int, direction: int) -> int {
    if direction < 0 {
        if index > 0 { index - 1 } else { 0 }
    } else {
        let last = if len > 0 { len - 1 } else { 0 };
        if index + 1 <= last { index + 1 } else { last }
    }
}

/// The index one step from `index` in a list of `len`, stopping at the ends.
pub fn adjacent_index(index: usize, len: usize, direction: isize) -> (next: usize)
    requires
        index < usize::MAX,
    ensures
        next == step_index(index as int, len as int, direction as int),
{
    if direction < 0 {
        if index > 0 { index - 1 } else { 0 }
    } else {
        let last = if len > 0 { len - 1 } else { 0 };
        if index + 1 <= last { index + 1 } else { last }
    }
}

/// The index one step from `index`, or `None` at the end of the list.
pub fn bounded_destination(index: usize, len: usize, direction: isize) -> (destination: Option<usize>)
    requires
        index < usize::MAX,
    ensures
        destination is Some <==> step_index(index as int, len as int, direction as int) != index,
        destination matches Some(d) ==> d == step_index(index as int, len as int, direction as int),
{
    let destination = adjacent_index(index, len, direction);
    if destination != index {
        Some(destination)
    } else {
        None
    }
}

/// The position of a characteristic form field in tab order.
pub open spec fn field_position(field: CharacteristicField) -> int {
    match field {
        CharacteristicField::Name => 0,
        CharacteristicField::BeforeText => 1,
        CharacteristicField::BeforeRating => 2,
        CharacteristicField::AfterText => 3,
        CharacteristicField::AfterRating => 4,
    }
}

/// The next form field in tab order (the previous for `direction < 0`), wrapping around.
pub fn next_characteristic_field(field: CharacteristicField, direction: isize) -> (next: CharacteristicField)
    ensures
        field_position(next) == if direction < 0 {
            (field_position(field) + 4) % 5
        } else {
            (field_position(field) + 1) % 5
        },
{
    match (field, direction < 0) {
        (CharacteristicField::Name, true) => CharacteristicField::AfterRating,
        (CharacteristicField::Name, false) => CharacteristicField::BeforeText,
        (CharacteristicField::BeforeText, true) => CharacteristicField::Name,
        (CharacteristicField::BeforeText, false) => CharacteristicField::BeforeRating,
        (CharacteristicField::BeforeRating, true) => CharacteristicField::BeforeText,
        (CharacteristicField::BeforeRating, false) => CharacteristicField::AfterText,
        (CharacteristicField::AfterText, true) => CharacteristicField::BeforeRating,
        (CharacteristicField::AfterText, false) => CharacteristicField::AfterRating,
        (CharacteristicField::AfterRating, true) => CharacteristicField::AfterText,
        (CharacteristicField::AfterRating, false) => CharacteristicField::Name,
    }
}

/// The sentiment a key chooses: `+`, `0` and `-` pick one, and the arrows step through
/// them; other keys choose none.
pub open spec fn chosen_sentiment(current: Sentiment, key: KeyEvent) -> Option<Sentiment> {
    match key.code {
        KeyCode::Char('+') => Some(Sentiment::Positive),
        KeyCode::Char('0') => Some(Sentiment::Neutral),
        KeyCode::Char('-') => Some(Sentiment::Negative),
        KeyCode::Left | KeyCode::Up => Some(Sentiment::at(current.index() - 1)),
        KeyCode::Right | KeyCode::Down => Some(Sentiment::at(current.index() + 1)),
        _ => None,
    }
}

/// Applies a rating key to a sentiment, reporting whether it chose one.
pub fn update_sentiment(sentiment: &mut Sentiment, key: KeyEvent) -> (chosen: bool)
    ensures
        chosen == chosen_sentiment(*old(sentiment), key) is Some,
        chosen ==> *final(sentiment) == chosen_sentiment(*old(sentiment), key)->0,
        !chosen ==> *final(sentiment) == *old(sentiment),
{
    let index = sentiment_index(*sentiment);
    let selected = match key.code {
        KeyCode::Char('+') => Some(Sentiment::Positive),
        KeyCode::Char('0') => Some(Sentiment::Neutral),
        KeyCode::Char('-') => Some(Sentiment::Negative),
        KeyCode::Left | KeyCode::Up => Some(
            if index == 0 {
                Sentiment::Positive
            } else if index == 1 {
                Sentiment::Positive
            } else {
                Sentiment::Neutral
            },
        ),
        KeyCode::Right | KeyCode::Down => Some(
            if index == 0 {
                Sentiment::Neutral
            } else {
                Sentiment::Negative
            },
        ),
        _ => None,
    };
    match selected {
        Some(s) => {
            *sentiment = s;
            true
        },
        None => false,
    }
}

/// The item before the selected one among those shown, or none above the first.
pub open spec fn item_above(app: App, item: usize) -> Option<usize> {
    let shown = shown_items(app.document, app.query@, app.selected_topic as int);
    let p = match position_of(shown, item) {
        Some(p) => p,
        None => 0,
    };
    if p > 0 {
        Some(shown[p - 1])
    } else {
        None
    }
}

/// The item after the current selection among those shown: the first when no item is
/// selected, none after the last.
pub open spec fn item_below(app: App) -> Option<usize> {
    let shown = shown_items(app.document, app.query@, app.selected_topic as int);
    match app.selected_item {
        None => if shown.len() > 0 { Some(shown[0]) } else { None },
        Some(item) => match position_of(shown, item) {
            Some(p) => if p + 1 < shown.len() { Some(shown[p + 1]) } else { None },
            None => None,
        },
    }
}

/// `app` with its selection kept on what the search shows: the first shown topic when the
/// selected one is hidden, and no item when the selected item is hidden.
pub open spec fn with_visible_selection(app: App) -> App {
    let topics = shown_topics(app.document, app.query@);
    let hidden = topics.len() > 0 && !topics.contains(app.selected_topic);
    let topic = if hidden { topics[0] } else { app.selected_topic };
    let item = if topics.len() == 0 || hidden {
        None
    } else {
        match app.selected_item {
            Some(i) => if shown_items(app.document, app.query@, topic as int).contains(i) {
                Some(i)
            } else {
                None
            },
            None => None,
        }
    };
    App { selected_topic: topic, selected_item: item, ..app }
}

/// `app` without a selected entry when the selected day does not have it.
pub open spec fn with_calendar_selection(app: App) -> App {
    let keep = match app.selected_calendar_entry {
        Some(i) => i < selected_entry_count(app),
        None => true,
    };
    App { selected_calendar_entry: if keep { app.selected_calendar_entry } else { None }, ..app }
}

/// `app` with its judgement selection inside the judgements: the first judgement and the
/// list focused when there are none, and the selected characteristic clamped.
pub open spec fn with_judgement_selection(app: App) -> App {
    let js = app.document.judgements@;
    if js.len() == 0 {
        App {
            selected_judgement: 0,
            selected_characteristic: None,
            judgement_focus: JudgementFocus::Judgements,
            judgement_scroll: 0,
            characteristic_scroll: 0,
            ..app
        }
    } else {
        let j = min_int(app.selected_judgement as int, js.len() - 1);
        let count = js[j].characteristics@.len() as int;
        App {
            selected_judgement: j as usize,
            selected_characteristic: if count == 0 {
                None
            } else {
                match app.selected_characteristic {
                    Some(c) => Some(min_int(c as int, count - 1) as usize),
                    None => None,
                }
            },
            ..app
        }
    }
}

/// `after` is `before` after moving the selection up.
pub open spec fn moved_up(before: App, after: App) -> bool {
    &&& before.selected_item matches Some(item) ==> after == (App {
        selected_item: item_above(before, item),
        ..before
    })
    &&& before.selected_item is None ==> ({
        let topics = shown_topics(before.document, before.query@);
        match position_of(topics, before.selected_topic) {
            Some(p) => if p > 0 {
                let t = topics[p - 1];
                let items = shown_items(before.document, before.query@, t as int);
                after == (App {
                    selected_topic: t,
                    selected_item: if items.len() > 0 { Some(items.last()) } else { None },
                    ..before
                })
            } else {
                after == before
            },
            None => after == before,
        }
    })
}

/// `after` is `before` after moving the selection down.
pub open spec fn moved_down(before: App, after: App) -> bool {
    &&& item_below(before) matches Some(item) ==> after == (App {
        selected_item: Some(item),
        ..before
    })
    &&& item_below(before) is None ==> ({
        let topics = shown_topics(before.document, before.query@);
        match position_of(topics, before.selected_topic) {
            Some(p) => if p + 1 < topics.len() {
                after == (App {
                    selected_topic: topics[p + 1],
                    selected_item: None,
                    ..before
                })
            } else {
                after == before
            },
            None => after == before,
        }
    })
}

/// `after` is `before` after stepping to the previous (`direction < 0`) or next shown topic.
pub open spec fn topic_stepped(before: App, after: App, direction: isize) -> bool {
    &&& ({
        let topics = shown_topics(before.document, before.query@);
        let p = match position_of(topics, before.selected_topic) {
            Some(p) => p,
            None => 0,
        };
        if topics.len() == 0 {
            after == before
        } else {
            after == (App {
                selected_topic: topics[step_index(p, topics.len() as int, direction as int)],
                selected_item: None,
                ..before
            })
        }
    })
}

impl App {
    /// Selection indices below the largest `usize`, so that a step forward fits.
    pub open spec fn selections_bounded(self) -> bool {
        &&& self.selected_topic < usize::MAX
        &&& (self.selected_item matches Some(i) ==> i < usize::MAX)
        &&& (self.selected_calendar_entry matches Some(i) ==> i < usize::MAX)
        &&& self.selected_judgement < usize::MAX
        &&& (self.selected_characteristic matches Some(i) ==> i < usize::MAX)
    }

    /// Moves up: to the previous shown item, to the topic's title from its first item, or
    /// from a title to the last shown item of the previous shown topic.
    pub fn select_up(&mut self)
        ensures
            old(self).selection_consistent() ==> final(self).selection_consistent(),
            moved_up(*old(self), *final(self)),
    {
        proof {
            crate::app::lemma_shown_bounds(self.document, self.query@, self.selected_topic as int);
        }
        match self.selected_item {
            Some(item) => {
                let visible = self.visible_items(self.selected_topic);
                proof {
                    crate::lists::lemma_position_from(visible@, item, 0);
                }
                let p = match position(&visible, item) {
                    Some(p) => p,
                    None => 0,
                };
                self.selected_item = if p > 0 {
                    Some(visible[p - 1])
                } else {
                    None
                };
                return;
            },
            None => {},
        }
        let visible_topics = self.visible_topics();
        let p = match position(&visible_topics, self.selected_topic) {
            Some(p) => p,
            None => {
                return;
            },
        };
        if p == 0 {
            return;
        }
        proof {
            crate::lists::lemma_position_from(visible_topics@, self.selected_topic, 0);
        }
        let t = visible_topics[p - 1];
        proof {
            crate::app::lemma_shown_bounds(self.document, self.query@, t as int);
        }
        let items = self.visible_items(t);
        self.selected_topic = t;
        self.selected_item = if items.len() > 0 {
            Some(items[items.len() - 1])
        } else {
            None
        };
    }

    /// Moves down: to the next shown item, or from the last one to the title of the next
    /// shown topic.
    pub fn select_down(&mut self)
        ensures
            old(self).selection_consistent() ==> final(self).selection_consistent(),
            moved_down(*old(self), *final(self)),
    {
        proof {
            crate::app::lemma_shown_bounds(self.document, self.query@, self.selected_topic as int);
        }
        let visible = self.visible_items(self.selected_topic);
        proof {
            crate::lists::lemma_position_from(visible@, self.selected_item->0, 0);
        }
        let next_item = match self.selected_item {
            None => if visible.len() > 0 {
                Some(visible[0])
            } else {
                None
            },
            Some(item) => match position(&visible, item) {
                Some(p) => if p < visible.len() - 1 {
                    Some(visible[p + 1])
                } else {
                    None
                },
                None => None,
            },
        };
        match next_item {
            Some(item) => {
                self.selected_item = Some(item);
                return;
            },
            None => {},
        }
        let visible_topics = self.visible_topics();
        proof {
            crate::lists::lemma_position_from(visible_topics@, self.selected_topic, 0);
        }
        let p = match position(&visible_topics, self.selected_topic) {
            Some(p) => p,
            None => {
                return;
            },
        };
        if p + 1 < visible_topics.len() {
            self.selected_topic = visible_topics[p + 1];
            self.selected_item = None;
        }
    }

    /// Moves to the previous (`direction < 0`) or next shown topic, stopping at the ends;
    /// from a topic that is not shown, to a neighbour of the first.
    pub fn select_topic(&mut self, direction: isize)
        ensures
            old(self).selection_consistent() ==> final(self).selection_consistent(),
            topic_stepped(*old(self), *final(self), direction),
    {
        proof {
            crate::app::lemma_shown_bounds(self.document, self.query@, self.selected_topic as int);
        }
        let visible = self.visible_topics();
        if visible.len() == 0 {
            return;
        }
        proof {
            crate::lists::lemma_position_from(visible@, self.selected_topic, 0);
        }
        let p = match position(&visible, self.selected_topic) {
            Some(p) => p,
            None => 0,
        };
        let next = if direction < 0 {
            if p > 0 { p - 1 } else { 0 }
        } else if p + 1 <= visible.len() - 1 {
            p + 1
        } else {
            visible.len() - 1
        };
        self.selected_topic = visible[next];
        self.selected_item = None;
    }

    /// Keeps the selection on what the search shows: another topic when the selected one
    /// is hidden, and no item when the selected item is hidden.
    pub fn ensure_visible_selection(&mut self)
        ensures
            (old(self).document.topics@.len() > 0 ==> old(self).selected_topic < old(self).document.topics@.len())
                ==> final(self).topic_selection_ok(),
            *final(self) == with_visible_selection(*old(self)),
    {
        proof {
            crate::app::lemma_shown_bounds(self.document, self.query@, self.selected_topic as int);
        }
        let visible_topics = self.visible_topics();
        if visible_topics.len() == 0 {
            self.selected_item = None;
            return;
        }
        if !contains_index(&visible_topics, self.selected_topic) {
            self.selected_topic = visible_topics[0];
            self.selected_item = None;
        }
        match self.selected_item {
            Some(item) => {
                let items = self.visible_items(self.selected_topic);
                if !contains_index(&items, item) {
                    self.selected_item = None;
                }
            },
            None => {},
        }
    }
}

/// The number of entries of the selected day.
pub open spec fn selected_entry_count(app: App) -> int {
    let days = app.document.calendar.days@;
    let f = find_day(days, app.selected_date);
    if f < days.len() {
        days[f].entries@.len() as int
    } else {
        0
    }
}

/// The number of characteristics of the selected judgement, or none without one.
pub open spec fn selected_characteristic_count(app: App) -> int {
    if app.selected_judgement < app.document.judgements@.len() {
        app.document.judgements@[app.selected_judgement as int].characteristics@.len() as int
    } else {
        0
    }
}

/// The smaller of two numbers.
pub open spec fn min_int(a: int, b: int) -> int {
    if a <= b { a } else { b }
}

/// `after` is `before` after showing the previous (`direction < 0`) or next month.
pub open spec fn month_changed(before: App, after: App, direction: isize) -> bool {
    &&& ({
        let target = if direction < 0 {
            month_before(before.displayed_month)
        } else {
            month_after(before.displayed_month)
        };
        match target {
            None => after == before,
            Some(t) => after == (App {
                displayed_month: t,
                selected_date: Date {
                    day: min_int(
                        before.selected_date.day as int,
                        crate::date::month_length(t.year as int, t.month as int),
                    ) as u32,
                    ..t
                },
                selected_calendar_entry: None,
                calendar_focus: CalendarFocus::Grid,
                calendar_scroll: 0,
                ..before
            }),
        }
    })
    &&& after.displayed_month.is_valid()
    &&& after.selected_date.is_valid()
}

/// `after` is `before` after moving the selected day by `offset` days.
pub open spec fn date_moved(before: App, after: App, offset: i64, cross_month_boundary: bool) -> bool {
    &&& ({
        let candidate = shift_days(before.selected_date, offset as int);
        match candidate {
            Some(c) => if cross_month_boundary || c.same_month(before.displayed_month) {
                after == (App {
                    displayed_month: if c.same_month(before.displayed_month) {
                        before.displayed_month
                    } else {
                        Date { day: 1, ..c }
                    },
                    selected_date: c,
                    selected_calendar_entry: None,
                    calendar_scroll: 0,
                    ..before
                })
            } else {
                after == before
            },
            None => after == before,
        }
    })
    &&& after.displayed_month.is_valid()
    &&& after.selected_date.is_valid()
}

/// `after` is `before` after stepping through the selected day's entries.
pub open spec fn entry_stepped(before: App, after: App, direction: isize) -> bool {
    &&& ({
        let len = selected_entry_count(before);
        let next = if len == 0 {
            None
        } else {
            match before.selected_calendar_entry {
                Some(i) => Some(
                    if direction < 0 {
                        if i > 0 { (i - 1) as usize } else { 0usize }
                    } else {
                        min_int(i + 1, len - 1) as usize
                    },
                ),
                None => Some(0usize),
            }
        };
        after == (App { selected_calendar_entry: next, ..before })
    })
}

/// `after` is `before` after stepping through judgements or characteristics.
pub open spec fn judgement_row_stepped(before: App, after: App, direction: isize) -> bool {
    &&& before.judgement_focus is Judgements ==> if before.document.judgements@.len() == 0 {
        after == before
    } else {
        after == (App {
            selected_judgement: step_index(
                before.selected_judgement as int,
                before.document.judgements@.len() as int,
                direction as int,
            ) as usize,
            selected_characteristic: None,
            characteristic_scroll: 0,
            ..before
        })
    }
    &&& before.judgement_focus is Characteristics ==> ({
        let len = selected_characteristic_count(before);
        after == (App {
            selected_characteristic: if len == 0 {
                None
            } else {
                Some(
                    step_index(
                        match before.selected_characteristic {
                            Some(c) => c as int,
                            None => 0,
                        },
                        len,
                        direction as int,
                    ) as usize,
                )
            },
            ..before
        })
    })
}

impl App {
    /// Shows the previous (`direction < 0`) or next month, keeping the day of the month
    /// where it exists and the month's last day otherwise.
    pub fn change_month(&mut self, direction: isize)
        requires
            old(self).displayed_month.is_valid(),
            old(self).selected_date.is_valid(),
            direction >= 0 ==> !(old(self).displayed_month.year == MAX_YEAR && old(self).displayed_month.month == 11),
        ensures
            old(self).selection_consistent() ==> final(self).selection_consistent(),
            month_changed(*old(self), *final(self), direction),
    {
        let target = if direction < 0 {
            self.displayed_month.previous_month()
        } else {
            self.displayed_month.next_month()
        };
        let target = match target {
            Some(t) => t,
            None => {
                return;
            },
        };
        let length = days_in_month(target);
        let day = if self.selected_date.day <= length {
            self.selected_date.day
        } else {
            length
        };
        let selected = match target.with_day(day) {
            Some(d) => d,
            None => target,
        };
        self.displayed_month = target;
        self.selected_date = selected;
        self.selected_calendar_entry = None;
        self.calendar_focus = CalendarFocus::Grid;
        self.calendar_scroll = 0;
    }

    /// Moves the selected day by `offset` days; across a month boundary only when
    /// `cross_month_boundary` allows it, and then the displayed month follows.
    pub fn move_selected_date(&mut self, offset: i64, cross_month_boundary: bool)
        requires
            old(self).selected_date.is_valid(),
            old(self).displayed_month.is_valid(),
            offset > i64::MIN,
        ensures
            old(self).selection_consistent() ==> final(self).selection_consistent(),
            date_moved(*old(self), *final(self), offset, cross_month_boundary),
    {
        let candidate = if offset < 0 {
            self.selected_date.sub_days((0 - offset) as u64)
        } else {
            self.selected_date.add_days(offset as u64)
        };
        let c = match candidate {
            Some(c) => c,
            None => {
                return;
            },
        };
        let same = c.year == self.displayed_month.year && c.month == self.displayed_month.month;
        if cross_month_boundary || same {
            if !same {
                self.displayed_month = c.first_of_month();
            }
            self.selected_date = c;
            self.selected_calendar_entry = None;
            self.calendar_scroll = 0;
        }
    }

    /// Moves through the selected day's entries, stopping at the ends; with none
    /// selected, selects the first.
    pub fn select_calendar_entry(&mut self, direction: isize)
        requires
            old(self).selections_bounded(),
        ensures
            old(self).selection_consistent() ==> final(self).selection_consistent(),
            entry_stepped(*old(self), *final(self), direction),
    {
        let len = self.selected_calendar_entries().len();
        proof {
            crate::model::lemma_find_day(self.document.calendar.days@, self.selected_date);
        }
        if len == 0 {
            self.selected_calendar_entry = None;
            return;
        }
        self.selected_calendar_entry = Some(
            match self.selected_calendar_entry {
                Some(i) => if direction < 0 {
                    if i > 0 { i - 1 } else { 0 }
                } else if i + 1 <= len - 1 {
                    i + 1
                } else {
                    len - 1
                },
                None => 0,
            },
        );
    }

    /// Forgets the selected entry when the selected day no longer has it.
    pub fn ensure_calendar_selection(&mut self)
        ensures
            final(self).entry_selection_ok(),
            *final(self) == with_calendar_selection(*old(self)),
    {
        let count = self.selected_calendar_entries().len();
        proof {
            crate::model::lemma_find_day(self.document.calendar.days@, self.selected_date);
        }
        match self.selected_calendar_entry {
            Some(entry) => if entry >= count {
                self.selected_calendar_entry = None;
            },
            None => {},
        }
    }

    /// Moves through judgements or, with the characteristics focused, through the
    /// selected judgement's characteristics, stopping at the ends.
    pub fn select_judgement_row(&mut self, direction: isize)
        requires
            old(self).selections_bounded(),
        ensures
            old(self).selection_consistent() ==> final(self).selection_consistent(),
            judgement_row_stepped(*old(self), *final(self), direction),
    {
        match self.judgement_focus {
            JudgementFocus::Judgements => {
                let len = self.document.judgements.len();
                if len == 0 {
                    return;
                }
                self.selected_judgement = adjacent_index(self.selected_judgement, len, direction);
                self.selected_characteristic = None;
                self.characteristic_scroll = 0;
            },
            JudgementFocus::Characteristics => {
                let len = match self.selected_judgement() {
                    Some(judgement) => judgement.characteristics.len(),
                    None => 0,
                };
                if len == 0 {
                    self.selected_characteristic = None;
                    return;
                }
                let current = match self.selected_characteristic {
                    Some(c) => c,
                    None => 0,
                };
                self.selected_characteristic = Some(adjacent_index(current, len, direction));
            },
        }
    }

    /// Keeps the judgement selection within the judgements: the first judgement and the
    /// list focused when there are none, and the selected characteristic clamped.
    pub fn ensure_judgement_selection(&mut self)
        ensures
            final(self).judgement_selection_ok(),
            *final(self) == with_judgement_selection(*old(self)),
    {
        let len = self.document.judgements.len();
        if len == 0 {
            self.selected_judgement = 0;
            self.selected_characteristic = None;
            self.judgement_focus = JudgementFocus::Judgements;
            self.judgement_scroll = 0;
            self.characteristic_scroll = 0;
            return;
        }
        if self.selected_judgement > len - 1 {
            self.selected_judgement = len - 1;
        }
        let count = self.document.judgements[self.selected_judgement].characteristics.len();
        if count == 0 {
            self.selected_characteristic = None;
        } else {
            match self.selected_characteristic {
                Some(c) => {
                    self.selected_characteristic = Some(if c <= count - 1 { c } else { count - 1 });
                },
                None => {},
            }
        }
    }
}

} // verus!
