//! The dashboard's state: the document, what is selected, the open overlay, and the
//! queries that the views read.
use vstd::prelude::*;

use crate::date::{
    Date, MAX_YEAR, lemma_shift_days_back_in_two, lemma_shift_days_order, lemma_shift_days_valid,
    shift_days,
};
use crate::model::{
    CalendarDay, Characteristic, Document, IdentityStatus, Item, Judgement, MoodRating,
    Sentiment, Topic, date_before, find_day,
};
use crate::sync::{ConflictChoice, SyncStatus};
use crate::text::{blank, contains_case_insensitive, contains_ignoring_case, is_blank};

verus! {

/// The overlay or input mode the dashboard is in.
#[derive(Clone, Debug, PartialEq, Eq)]
pub enum Mode {
    Normal,
    Editing(Editor),
    Searching(Editor),
    SelectingStatus(StatusPicker),
    SelectingMood(MoodPicker),
    EditingJudgement(JudgementForm),
    EditingCharacteristic(CharacteristicForm),
    ConfirmDelete(DeleteTarget),
    Settings(SettingsState),
    Help,
}

/// The GitHub sync settings overlay.
#[derive(Clone, Debug, PartialEq, Eq)]
pub struct SettingsState {
    pub repository: String,
    pub cursor: usize,
    pub editing: bool,
    pub confirm_disconnect: bool,
}

/// The identity status picker.
#[derive(Clone, Copy, Debug, PartialEq, Eq)]
pub struct StatusPicker {
    pub topic: usize,
    pub selected: IdentityStatus,
}

/// The mood picker for a day.
#[derive(Clone, Copy, Debug, PartialEq, Eq)]
pub struct MoodPicker {
    pub date: Date,
    pub selected: MoodRating,
}

/// Which list of the Judgements view has the focus.
#[derive(Clone, Copy, Debug, PartialEq, Eq, Structural)]
pub enum JudgementFocus {
    Judgements,
    Characteristics,
}

/// The field of the judgement form being edited.
#[derive(Clone, Copy, Debug, PartialEq, Eq, Structural)]
pub enum JudgementField {
    Name,
    FollowUp,
}

/// The form that creates or edits a judgement.
#[derive(Clone, Debug, PartialEq, Eq)]
pub struct JudgementForm {
    pub target: Option<usize>,
    pub name: String,
    pub name_cursor: usize,
    pub follow_up: String,
    pub follow_up_cursor: usize,
    pub field: JudgementField,
}

/// The field of the characteristic form being edited.
#[derive(Clone, Copy, Debug, PartialEq, Eq, Structural)]
pub enum CharacteristicField {
    Name,
    BeforeText,
    BeforeRating,
    AfterText,
    AfterRating,
}

/// The form that creates, edits or verifies a characteristic.
#[derive(Clone, Debug, PartialEq, Eq)]
pub struct CharacteristicForm {
    pub judgement: usize,
    pub target: Option<usize>,
    pub name: String,
    pub name_cursor: usize,
    pub before_text: String,
    pub before_cursor: usize,
    pub before_rating: Sentiment,
    pub after_text: String,
    pub after_cursor: usize,
    pub after_rating: Sentiment,
    pub has_after: bool,
    pub field: CharacteristicField,
}

/// A one-line text editor.
#[derive(Clone, Debug, PartialEq, Eq)]
pub struct Editor {
    pub kind: EditKind,
    pub input: String,
    pub cursor: usize,
}

/// What a text editor changes when it is confirmed.
#[derive(Clone, Copy, Debug, PartialEq, Eq, Structural)]
pub enum EditKind {
    NewTopic,
    RenameTopic(usize),
    AddItem(usize),
    EditItem(usize, usize),
    AddCalendarEntry(Date),
    EditCalendarEntry(Date, usize),
    Search,
}

/// What a delete confirmation removes.
#[derive(Clone, Copy, Debug, PartialEq, Eq, Structural)]
pub enum DeleteTarget {
    Topic(usize),
    Item(usize, usize),
    CalendarEntry(Date, usize),
    Judgement(usize),
    Characteristic(usize, usize),
}

/// The feature on screen.
#[derive(Clone, Copy, Debug, PartialEq, Eq, Structural)]
pub enum Feature {
    Identities,
    Calendar,
    Statistics,
    Judgements,
}

/// The period that mood statistics cover.
#[derive(Clone, Copy, Debug, PartialEq, Eq, Structural)]
pub enum StatisticsPeriod {
    Month,
    Year,
    Forever,
}

/// The mood ratings of a period: how many days had each rating, how many were rated,
/// and the sum of the ratings.
#[derive(Clone, Copy, Debug, PartialEq, Eq)]
pub struct MoodStatistics {
    pub counts: [usize; 5],
    pub rated_days: usize,
    pub total: usize,
}

/// The sentiments of a judgement's characteristics, before and after.
#[derive(Clone, Copy, Debug, PartialEq, Eq)]
pub struct JudgementStatistics {
    pub before_counts: [usize; 3],
    pub after_counts: [usize; 3],
    pub characteristics: usize,
    pub verified: usize,
}

/// Which part of the Calendar view has the focus.
#[derive(Clone, Copy, Debug, PartialEq, Eq, Structural)]
pub enum CalendarFocus {
    Grid,
    Entries,
}

/// What the dashboard asks the sync service to do.
#[derive(Clone, Debug, PartialEq, Eq)]
pub enum SyncAction {
    Configure(String),
    Synchronize,
    Resolve(ConflictChoice),
    Disconnect,
}

/// The outcome of a key press: whether to quit, whether the document changed and must be
/// saved, and what to ask of sync.
#[derive(Clone, Debug, PartialEq, Eq)]
pub struct HandleResult {
    pub quit: bool,
    pub changed: bool,
    pub sync_action: Option<SyncAction>,
}

/// The state of the dashboard.
#[derive(Clone, Debug)]
pub struct App {
    pub document: Document,
    pub feature: Feature,
    pub selected_topic: usize,
    pub selected_item: Option<usize>,
    pub mode: Mode,
    pub query: String,
    pub status: Option<String>,
    pub scroll: u16,
    pub today: Date,
    pub displayed_month: Date,
    pub selected_date: Date,
    pub selected_calendar_entry: Option<usize>,
    pub calendar_focus: CalendarFocus,
    pub calendar_scroll: u16,
    pub statistics_period: StatisticsPeriod,
    pub selected_judgement: usize,
    pub selected_characteristic: Option<usize>,
    pub judgement_focus: JudgementFocus,
    pub judgement_scroll: u16,
    pub characteristic_scroll: u16,
    pub sync_status: SyncStatus,
    pub sync_repository: Option<String>,
    pub sync_branch: Option<String>,
}

impl HandleResult {
    /// Nothing to do: no quit, no change, no sync request.
    pub fn none() -> (result: HandleResult)
        ensures
            !result.quit,
            !result.changed,
            result.sync_action is None,
    {
        HandleResult { quit: false, changed: false, sync_action: None }
    }

    /// A key press that changed, or did not change, the document.
    pub fn with_change(changed: bool) -> (result: HandleResult)
        ensures
            !result.quit,
            result.changed == changed,
            result.sync_action is None,
    {
        HandleResult { quit: false, changed, sync_action: None }
    }
}

impl StatisticsPeriod {
    /// The title shown for the period.
    pub open spec fn label_text(self) -> Seq<char> {
        match self {
            StatisticsPeriod::Month => "Last 30 days"@,
            StatisticsPeriod::Year => "Last 365 days"@,
            StatisticsPeriod::Forever => "Forever"@,
        }
    }

    /// The title shown for the period.
    pub fn label(self) -> (label: &'static str)
        ensures
            label@ == self.label_text(),
    {
        match self {
            StatisticsPeriod::Month => "Last 30 days",
            StatisticsPeriod::Year => "Last 365 days",
            StatisticsPeriod::Forever => "Forever",
        }
    }
}

// ---------------------------------------------------------------------------------------
// What the views show
// ---------------------------------------------------------------------------------------

/// Whether topic `t` is shown for the search `query`: every topic when the query is blank,
/// else a topic whose name or some item contains it, ignoring case.
pub open spec fn topic_shown(doc: Document, query: Seq<char>, t: int) -> bool {
    ||| is_blank(query)
    ||| contains_ignoring_case(doc.topics@[t].name@, query)
    ||| exists|j: int|
        0 <= j < doc.topics@[t].items@.len() && contains_ignoring_case(
            #[trigger] doc.topics@[t].items@[j].text@,
            query,
        )
}

/// Whether item `j` of topic `t` is shown for the search `query`: every item when the
/// query is blank or matches the topic's name, else an item that contains it.
pub open spec fn item_shown(doc: Document, query: Seq<char>, t: int, j: int) -> bool {
    ||| is_blank(query)
    ||| contains_ignoring_case(doc.topics@[t].name@, query)
    ||| contains_ignoring_case(doc.topics@[t].items@[j].text@, query)
}

/// The indices below `n`, in order.
pub open spec fn indices(n: int) -> Seq<usize> {
    Seq::new(n as nat, |i: int| i as usize)
}

/// The indices of the topics shown for the search, in order.
pub open spec fn shown_topics(doc: Document, query: Seq<char>) -> Seq<usize> {
    indices(doc.topics@.len() as int).filter(|t: usize| topic_shown(doc, query, t as int))
}

/// The indices of the items of topic `t` shown for the search, in order; none for a
/// topic that does not exist.
pub open spec fn shown_items(doc: Document, query: Seq<char>, t: int) -> Seq<usize> {
    if 0 <= t < doc.topics@.len() {
        indices(doc.topics@[t].items@.len() as int).filter(
            |j: usize| item_shown(doc, query, t, j as int),
        )
    } else {
        Seq::empty()
    }
}

/// The shown topics are topics of the document, and the shown items are items of their
/// topic.
pub proof fn lemma_shown_bounds(doc: Document, query: Seq<char>, t: int)
    ensures
        forall|k: int| 0 <= k < shown_topics(doc, query).len() ==> #[trigger] shown_topics(doc, query)[k]
            < doc.topics@.len(),
        forall|k: int| 0 <= k < shown_items(doc, query, t).len() ==> #[trigger] shown_items(doc, query, t)[k]
            < doc.topics@[t].items@.len(),
{
    let n = doc.topics@.len() as int;
    let pred = |x: usize| topic_shown(doc, query, x as int);
    indices(n).filter_lemma(pred);
    assert(shown_topics(doc, query) == indices(n).filter(pred));
    assert(doc.topics.len() == n);
    assert forall|k: int| 0 <= k < shown_topics(doc, query).len() implies #[trigger] shown_topics(doc, query)[k]
        < doc.topics@.len() by {
        let x = shown_topics(doc, query)[k];
        assert(indices(n).filter(pred).contains(x));
        indices(n).lemma_filter_contains_rev(pred, x);
        let i = choose|i: int| 0 <= i < indices(n).len() && indices(n)[i] == x;
        assert(indices(n)[i] == i as usize);
    }
    if 0 <= t < doc.topics@.len() {
        let m = doc.topics@[t].items@.len() as int;
        let ipred = |j: usize| item_shown(doc, query, t, j as int);
        indices(m).filter_lemma(ipred);
        assert(shown_items(doc, query, t) == indices(m).filter(ipred));
        assert(doc.topics@[t].items.len() == m);
        assert forall|k: int| 0 <= k < shown_items(doc, query, t).len() implies #[trigger] shown_items(doc, query, t)[k]
            < doc.topics@[t].items@.len() by {
            let x = shown_items(doc, query, t)[k];
            assert(indices(m).filter(ipred).contains(x));
            indices(m).lemma_filter_contains_rev(ipred, x);
            let i = choose|i: int| 0 <= i < indices(m).len() && indices(m)[i] == x;
            assert(indices(m)[i] == i as usize);
        }
    }
}

/// The first day of the period that statistics cover, if it has one.
pub open spec fn period_start(today: Date, period: StatisticsPeriod) -> Option<Date> {
    match period {
        StatisticsPeriod::Month => shift_days(today, -29),
        StatisticsPeriod::Year => shift_days(today, -364),
        StatisticsPeriod::Forever => None,
    }
}

/// Whether a date falls in the period: not after today, and not before its start.
pub open spec fn in_period(date: Date, today: Date, start: Option<Date>) -> bool {
    &&& !date_before(today, date)
    &&& (start matches Some(s) ==> !date_before(date, s))
}

/// The number of days of the period rated `mood`.
pub open spec fn mood_count(days: Seq<CalendarDay>, today: Date, start: Option<Date>, mood: MoodRating) -> nat
    decreases days.len(),
{
    if days.len() == 0 {
        0
    } else {
        mood_count(days.drop_last(), today, start, mood) + if in_period(days.last().date, today, start)
            && days.last().mood == Some(mood) {
            1nat
        } else {
            0nat
        }
    }
}

/// The number of rated days of the period.
pub open spec fn rated_count(days: Seq<CalendarDay>, today: Date, start: Option<Date>) -> nat
    decreases days.len(),
{
    if days.len() == 0 {
        0
    } else {
        rated_count(days.drop_last(), today, start) + if in_period(days.last().date, today, start)
            && days.last().mood is Some {
            1nat
        } else {
            0nat
        }
    }
}

/// The sum of the ratings of the period.
pub open spec fn rating_total(days: Seq<CalendarDay>, today: Date, start: Option<Date>) -> nat
    decreases days.len(),
{
    if days.len() == 0 {
        0
    } else {
        rating_total(days.drop_last(), today, start) + if in_period(days.last().date, today, start)
            && days.last().mood is Some {
            days.last().mood->0.number() as nat
        } else {
            0nat
        }
    }
}

/// The number of characteristics whose expectation (or, with `after`, whose outcome) had
/// `sentiment`.
pub open spec fn sentiment_count(cs: Seq<Characteristic>, sentiment: Sentiment, after: bool) -> nat
    decreases cs.len(),
{
    if cs.len() == 0 {
        0
    } else {
        sentiment_count(cs.drop_last(), sentiment, after) + if after {
            if cs.last().after matches Some(o) && o.rating == sentiment {
                1nat
            } else {
                0nat
            }
        } else if cs.last().before.rating == sentiment {
            1nat
        } else {
            0nat
        }
    }
}

/// The number of characteristics that have an outcome.
pub open spec fn verified_count(cs: Seq<Characteristic>) -> nat
    decreases cs.len(),
{
    if cs.len() == 0 {
        0
    } else {
        verified_count(cs.drop_last()) + if cs.last().after is Some {
            1nat
        } else {
            0nat
        }
    }
}

/// A period's rated days are its days of each rating put together, and the total of its
/// ratings is each rating's number times its days.
pub proof fn lemma_mood_statistics_add_up(days: Seq<CalendarDay>, today: Date, start: Option<Date>)
    ensures
        rated_count(days, today, start) == mood_count(days, today, start, MoodRating::Depressed)
            + mood_count(days, today, start, MoodRating::Bad) + mood_count(days, today, start, MoodRating::Neutral)
            + mood_count(days, today, start, MoodRating::Good) + mood_count(days, today, start, MoodRating::Happy),
        rating_total(days, today, start) == mood_count(days, today, start, MoodRating::Depressed)
            + 2 * mood_count(days, today, start, MoodRating::Bad) + 3 * mood_count(days, today, start, MoodRating::Neutral)
            + 4 * mood_count(days, today, start, MoodRating::Good) + 5 * mood_count(days, today, start, MoodRating::Happy),
    decreases days.len(),
{
    if days.len() > 0 {
        lemma_mood_statistics_add_up(days.drop_last(), today, start);
        match days.last().mood {
            Some(MoodRating::Depressed) => {},
            Some(MoodRating::Bad) => {},
            Some(MoodRating::Neutral) => {},
            Some(MoodRating::Good) => {},
            Some(MoodRating::Happy) => {},
            None => {},
        }
    }
}

/// A judgement's characteristics are those expected positive, neutral and negative put
/// together, and its verified ones are those found positive, neutral and negative.
pub proof fn lemma_judgement_statistics_add_up(cs: Seq<Characteristic>)
    ensures
        cs.len() == sentiment_count(cs, Sentiment::Positive, false) + sentiment_count(cs, Sentiment::Neutral, false)
            + sentiment_count(cs, Sentiment::Negative, false),
        verified_count(cs) == sentiment_count(cs, Sentiment::Positive, true) + sentiment_count(cs, Sentiment::Neutral, true)
            + sentiment_count(cs, Sentiment::Negative, true),
    decreases cs.len(),
{
    if cs.len() > 0 {
        lemma_judgement_statistics_add_up(cs.drop_last());
    }
}

/// Counts never exceed the number of days or characteristics they are taken from.
pub proof fn lemma_counts_bounded(days: Seq<CalendarDay>, today: Date, start: Option<Date>, cs: Seq<Characteristic>)
    ensures
        rated_count(days, today, start) <= days.len(),
        rating_total(days, today, start) <= 5 * days.len(),
        forall|m: MoodRating| #[trigger] mood_count(days, today, start, m) <= days.len(),
        verified_count(cs) <= cs.len(),
        forall|s: Sentiment, after: bool| #[trigger] sentiment_count(cs, s, after) <= cs.len(),
    decreases days.len() + cs.len(),
{
    if days.len() > 0 {
        lemma_counts_bounded(days.drop_last(), today, start, cs);
        assert forall|m: MoodRating| #[trigger] mood_count(days, today, start, m) <= days.len() by {
            assert(mood_count(days.drop_last(), today, start, m) <= days.drop_last().len());
        }
    }
    if cs.len() > 0 {
        lemma_counts_bounded(days, today, start, cs.drop_last());
        assert forall|s: Sentiment, after: bool| #[trigger] sentiment_count(cs, s, after) <= cs.len() by {
            assert(sentiment_count(cs.drop_last(), s, after) <= cs.drop_last().len());
        }
    }
}

/// Counting over a period that holds every date of another counts at least as many days of
/// each rating, at least as many rated days, and at least as large a total.
proof fn lemma_wider_period_counts_more(days: Seq<CalendarDay>, today: Date, narrow: Option<Date>, wide: Option<Date>)
    requires
        forall|d: Date| in_period(d, today, narrow) ==> #[trigger] in_period(d, today, wide),
    ensures
        forall|m: MoodRating| #[trigger] mood_count(days, today, narrow, m) <= mood_count(days, today, wide, m),
        rated_count(days, today, narrow) <= rated_count(days, today, wide),
        rating_total(days, today, narrow) <= rating_total(days, today, wide),
    decreases days.len(),
{
    if days.len() > 0 {
        lemma_wider_period_counts_more(days.drop_last(), today, narrow, wide);
        assert(in_period(days.last().date, today, narrow) ==> in_period(days.last().date, today, wide));
        assert forall|m: MoodRating| #[trigger] mood_count(days, today, narrow, m) <= mood_count(days, today, wide, m) by {
            assert(mood_count(days.drop_last(), today, narrow, m) <= mood_count(days.drop_last(), today, wide, m));
        }
    }
}

/// The start of the last 30 days is never before the start of the last 365 days, and when
/// the longer period reaches back past the first supported date, so does the shorter one
/// not: a missing start of the shorter period means none for the longer period either.
proof fn lemma_period_starts_nest(today: Date)
    requires
        today.is_valid(),
    ensures
        forall|d: Date| #[trigger] in_period(d, today, period_start(today, StatisticsPeriod::Month))
            ==> in_period(d, today, period_start(today, StatisticsPeriod::Year)),
        forall|d: Date| #[trigger] in_period(d, today, period_start(today, StatisticsPeriod::Year))
            ==> in_period(d, today, period_start(today, StatisticsPeriod::Forever)),
{
    lemma_shift_days_back_in_two(today, 29, 335);
    lemma_shift_days_valid(today, -29);
    if let Some(month) = shift_days(today, -29) {
        lemma_shift_days_valid(month, -335);
        lemma_shift_days_order(month, -335);
    }
}

/// Over the same days, the last 30 days count no more days of each rating, no more rated
/// days and no larger a total than the last 365 days, and those no more than all the days
/// up to today.
pub proof fn lemma_longer_periods_count_more(days: Seq<CalendarDay>, today: Date)
    requires
        today.is_valid(),
    ensures
        forall|m: MoodRating| #[trigger] mood_count(days, today, period_start(today, StatisticsPeriod::Month), m)
            <= mood_count(days, today, period_start(today, StatisticsPeriod::Year), m),
        forall|m: MoodRating| #[trigger] mood_count(days, today, period_start(today, StatisticsPeriod::Year), m)
            <= mood_count(days, today, period_start(today, StatisticsPeriod::Forever), m),
        rated_count(days, today, period_start(today, StatisticsPeriod::Month))
            <= rated_count(days, today, period_start(today, StatisticsPeriod::Year)),
        rated_count(days, today, period_start(today, StatisticsPeriod::Year))
            <= rated_count(days, today, period_start(today, StatisticsPeriod::Forever)),
        rating_total(days, today, period_start(today, StatisticsPeriod::Month))
            <= rating_total(days, today, period_start(today, StatisticsPeriod::Year)),
        rating_total(days, today, period_start(today, StatisticsPeriod::Year))
            <= rating_total(days, today, period_start(today, StatisticsPeriod::Forever)),
{
    lemma_period_starts_nest(today);
    let month = period_start(today, StatisticsPeriod::Month);
    let year = period_start(today, StatisticsPeriod::Year);
    let forever = period_start(today, StatisticsPeriod::Forever);
    lemma_wider_period_counts_more(days, today, month, year);
    lemma_wider_period_counts_more(days, today, year, forever);
}

impl App {
    /// The selected topic is a topic (when there are any), and the selected item an item
    /// of it.
    pub open spec fn topic_selection_ok(self) -> bool {
        let topics = self.document.topics@;
        &&& topics.len() > 0 ==> self.selected_topic < topics.len()
        &&& self.selected_item matches Some(i) ==> (self.selected_topic < topics.len() ==> i
            < topics[self.selected_topic as int].items@.len())
    }

    /// The selected entry is an entry of the selected day.
    pub open spec fn entry_selection_ok(self) -> bool {
        self.selected_calendar_entry matches Some(e) ==> e < crate::navigation::selected_entry_count(self)
    }

    /// The selected judgement is a judgement (when there are any), and the selected
    /// characteristic one of its characteristics.
    pub open spec fn judgement_selection_ok(self) -> bool {
        let js = self.document.judgements@;
        &&& js.len() > 0 ==> self.selected_judgement < js.len()
        &&& self.selected_characteristic matches Some(c) ==> (self.selected_judgement < js.len()
            ==> c < js[self.selected_judgement as int].characteristics@.len())
    }

    /// Every selection points into the document: the selected topic and item, the entry of
    /// the selected day, and the judgement and characteristic.
    pub open spec fn selection_consistent(self) -> bool {
        &&& self.topic_selection_ok()
        &&& self.entry_selection_ok()
        &&& self.judgement_selection_ok()
    }

    /// A dashboard for `document` that starts today, on the Identities view.
    pub fn new(document: Document) -> (app: App)
        ensures
            app.document == document,
            app.today.is_valid(),
            app.feature is Identities,
            app.selected_topic == 0,
            app.selected_item is None,
            app.mode is Normal,
            app.query@.len() == 0,
            app.status is None,
            app.scroll == 0,
            app.displayed_month == (Date { day: 1, ..app.today }),
            app.selected_date == app.today,
            app.selected_calendar_entry is None,
            app.calendar_focus is Grid,
            app.calendar_scroll == 0,
            app.statistics_period is Month,
            app.selected_judgement == 0,
            app.selected_characteristic is None,
            app.judgement_focus is Judgements,
            app.judgement_scroll == 0,
            app.characteristic_scroll == 0,
            app.sync_status is LocalOnly,
            app.sync_repository is None,
            app.sync_branch is None,
            app.consistent(),
    {
        let today = crate::date::local_today();
        App::new_at(document, today)
    }

    /// A dashboard for `document` that takes `today` as the current date.
    pub fn new_at(document: Document, today: Date) -> (app: App)
        requires
            today.is_valid(),
        ensures
            app.document == document,
            app.feature is Identities,
            app.selected_topic == 0,
            app.selected_item is None,
            app.mode is Normal,
            app.query@.len() == 0,
            app.status is None,
            app.scroll == 0,
            app.today == today,
            app.displayed_month == (Date { day: 1, ..today }),
            app.selected_date == today,
            app.selected_calendar_entry is None,
            app.calendar_focus is Grid,
            app.calendar_scroll == 0,
            app.statistics_period is Month,
            app.selected_judgement == 0,
            app.selected_characteristic is None,
            app.judgement_focus is Judgements,
            app.judgement_scroll == 0,
            app.characteristic_scroll == 0,
            app.sync_status is LocalOnly,
            app.sync_repository is None,
            app.sync_branch is None,
            app.consistent(),
    {
        let displayed_month = today.first_of_month();
        App {
            document,
            feature: Feature::Identities,
            selected_topic: 0,
            selected_item: None,
            mode: Mode::Normal,
            query: String::new(),
            status: None,
            scroll: 0,
            today,
            displayed_month,
            selected_date: today,
            selected_calendar_entry: None,
            calendar_focus: CalendarFocus::Grid,
            calendar_scroll: 0,
            statistics_period: StatisticsPeriod::Month,
            selected_judgement: 0,
            selected_characteristic: None,
            judgement_focus: JudgementFocus::Judgements,
            judgement_scroll: 0,
            characteristic_scroll: 0,
            sync_status: SyncStatus::LocalOnly,
            sync_repository: None,
            sync_branch: None,
        }
    }

    /// Takes the current date from the clock, so that statistics follow the day.
    pub fn refresh_today(&mut self)
        ensures
            final(self).today.is_valid(),
            *final(self) == (App { today: final(self).today, ..*old(self) }),
    {
        let today = crate::date::local_today();
        self.update_today(today);
    }

    /// Takes `today` as the current date.
    pub fn update_today(&mut self, today: Date)
        ensures
            *final(self) == (App { today, ..*old(self) }),
    {
        self.today = today;
    }

    /// Whether topic `t` is shown for the current search.
    pub fn topic_matches(&self, t: usize) -> (shown: bool)
        requires
            t < self.document.topics@.len(),
        ensures
            shown == topic_shown(self.document, self.query@, t as int),
    {
        if blank(self.query.as_str()) {
            return true;
        }
        let topic = &self.document.topics[t];
        if contains_case_insensitive(topic.name.as_str(), self.query.as_str()) {
            return true;
        }
        let mut j: usize = 0;
        while j < topic.items.len()
            invariant
                *topic == self.document.topics@[t as int],
                j <= topic.items@.len(),
                forall|k: int|
                    0 <= k < j ==> !contains_ignoring_case(
                        #[trigger] topic.items@[k].text@,
                        self.query@,
                    ),
            decreases topic.items@.len() - j,
        {
            if contains_case_insensitive(topic.items[j].text.as_str(), self.query.as_str()) {
                return true;
            }
            j = j + 1;
        }
        false
    }

    /// The indices of the topics shown for the current search, in order.
    pub fn visible_topics(&self) -> (topics: Vec<usize>)
        ensures
            topics@ == shown_topics(self.document, self.query@),
    {
        let n = self.document.topics.len();
        let ghost pred = |t: usize| topic_shown(self.document, self.query@, t as int);
        let mut topics: Vec<usize> = Vec::new();
        let mut t: usize = 0;
        while t < n
            invariant
                n == self.document.topics@.len(),
                t <= n,
                pred == (|t: usize| topic_shown(self.document, self.query@, t as int)),
                topics@ == indices(t as int).filter(pred),
            decreases n - t,
        {
            assert(indices(t + 1).drop_last() =~= indices(t as int));
            assert(indices(t + 1).last() == t);
            let shown = self.topic_matches(t);
            assert(pred(t) == shown);
            if shown {
                topics.push(t);
            }
            reveal_with_fuel(Seq::<_>::filter, 1);
            assert(indices(t + 1).filter(pred) == (if pred(t) {
                indices(t as int).filter(pred).push(t)
            } else {
                indices(t as int).filter(pred)
            }));
            t = t + 1;
        }
        topics
    }

    /// Whether item `j` of topic `t` is shown for the current search.
    fn item_matches(&self, t: usize, j: usize, whole_topic: bool) -> (shown: bool)
        requires
            t < self.document.topics@.len(),
            j < self.document.topics@[t as int].items@.len(),
            whole_topic == (is_blank(self.query@) || contains_ignoring_case(
                self.document.topics@[t as int].name@,
                self.query@,
            )),
        ensures
            shown == item_shown(self.document, self.query@, t as int, j as int),
    {
        whole_topic || contains_case_insensitive(
            self.document.topics[t].items[j].text.as_str(),
            self.query.as_str(),
        )
    }

    /// The indices of the items of topic `topic_index` shown for the current search, in order.
    pub fn visible_items(&self, topic_index: usize) -> (items: Vec<usize>)
        ensures
            items@ == shown_items(self.document, self.query@, topic_index as int),
    {
        if topic_index >= self.document.topics.len() {
            return Vec::new();
        }
        let topic = &self.document.topics[topic_index];
        let whole_topic = blank(self.query.as_str()) || contains_case_insensitive(
            topic.name.as_str(),
            self.query.as_str(),
        );
        let n = topic.items.len();
        let ghost pred = |j: usize| item_shown(self.document, self.query@, topic_index as int, j as int);
        let mut items: Vec<usize> = Vec::new();
        let mut j: usize = 0;
        while j < n
            invariant
                topic_index < self.document.topics@.len(),
                n == self.document.topics@[topic_index as int].items@.len(),
                j <= n,
                whole_topic == (is_blank(self.query@) || contains_ignoring_case(
                    self.document.topics@[topic_index as int].name@,
                    self.query@,
                )),
                pred == (|j: usize| item_shown(self.document, self.query@, topic_index as int, j as int)),
                items@ == indices(j as int).filter(pred),
            decreases n - j,
        {
            assert(indices(j + 1).drop_last() =~= indices(j as int));
            assert(indices(j + 1).last() == j);
            let shown = self.item_matches(topic_index, j, whole_topic);
            assert(pred(j) == shown);
            if shown {
                items.push(j);
            }
            reveal_with_fuel(Seq::<_>::filter, 1);
            assert(indices(j + 1).filter(pred) == (if pred(j) {
                indices(j as int).filter(pred).push(j)
            } else {
                indices(j as int).filter(pred)
            }));
            j = j + 1;
        }
        items
    }

    /// The selected topic, if there is one.
    pub fn selected_topic(&self) -> (topic: Option<&Topic>)
        ensures
            self.selected_topic < self.document.topics@.len() ==> topic == Some(
                &self.document.topics@[self.selected_topic as int],
            ),
            self.selected_topic >= self.document.topics@.len() ==> topic is None,
    {
        if self.selected_topic < self.document.topics.len() {
            Some(&self.document.topics[self.selected_topic])
        } else {
            None
        }
    }

    /// The entries of the selected day; none when the day has no record.
    pub fn selected_calendar_entries(&self) -> (entries: &[Item])
        ensures
            find_day(self.document.calendar.days@, self.selected_date)
                < self.document.calendar.days@.len() ==> entries@
                == self.document.calendar.days@[find_day(
                self.document.calendar.days@,
                self.selected_date,
            )].entries@,
            find_day(self.document.calendar.days@, self.selected_date)
                == self.document.calendar.days@.len() ==> entries@.len() == 0,
    {
        match self.document.calendar_day(self.selected_date) {
            Some(day) => day.entries.as_slice(),
            None => &[],
        }
    }

    /// How the days of the selected period were rated: the days after today do not count,
    /// nor, for the last 30 or 365 days, the days before that period began.
    pub fn mood_statistics(&self) -> (statistics: MoodStatistics)
        requires
            self.today.is_valid(),
            self.document.calendar.days@.len() <= usize::MAX / 5,
        ensures
            ({
                let days = self.document.calendar.days@;
                let start = period_start(self.today, self.statistics_period);
                &&& statistics.counts@[0] == mood_count(days, self.today, start, MoodRating::Depressed)
                &&& statistics.counts@[1] == mood_count(days, self.today, start, MoodRating::Bad)
                &&& statistics.counts@[2] == mood_count(days, self.today, start, MoodRating::Neutral)
                &&& statistics.counts@[3] == mood_count(days, self.today, start, MoodRating::Good)
                &&& statistics.counts@[4] == mood_count(days, self.today, start, MoodRating::Happy)
                &&& statistics.rated_days == rated_count(days, self.today, start)
                &&& statistics.total == rating_total(days, self.today, start)
            }),
    {
        let start = match self.statistics_period {
            StatisticsPeriod::Month => self.today.sub_days(29),
            StatisticsPeriod::Year => self.today.sub_days(364),
            StatisticsPeriod::Forever => None,
        };
        let days = &self.document.calendar.days;
        let ghost all = days@;
        let mut c1: usize = 0;
        let mut c2: usize = 0;
        let mut c3: usize = 0;
        let mut c4: usize = 0;
        let mut c5: usize = 0;
        let mut rated: usize = 0;
        let mut total: usize = 0;
        let mut i: usize = 0;
        while i < days.len()
            invariant
                all == days@,
                all.len() <= usize::MAX / 5,
                i <= all.len(),
                start == period_start(self.today, self.statistics_period),
                c1 == mood_count(all.take(i as int), self.today, start, MoodRating::Depressed),
                c2 == mood_count(all.take(i as int), self.today, start, MoodRating::Bad),
                c3 == mood_count(all.take(i as int), self.today, start, MoodRating::Neutral),
                c4 == mood_count(all.take(i as int), self.today, start, MoodRating::Good),
                c5 == mood_count(all.take(i as int), self.today, start, MoodRating::Happy),
                rated == rated_count(all.take(i as int), self.today, start),
                total == rating_total(all.take(i as int), self.today, start),
            decreases all.len() - i,
        {
            proof {
                let empty: Seq<Characteristic> = Seq::empty();
                lemma_counts_bounded(all.take(i as int), self.today, start, empty);
                assert(all.take(i + 1).drop_last() =~= all.take(i as int));
            }
            let day = &days[i];
            let after_today = date_is_before(self.today, day.date);
            let before_start = match start {
                Some(s) => date_is_before(day.date, s),
                None => false,
            };
            if !after_today && !before_start {
                match day.mood {
                    Some(mood) => {
                        match mood {
                            MoodRating::Depressed => c1 = c1 + 1,
                            MoodRating::Bad => c2 = c2 + 1,
                            MoodRating::Neutral => c3 = c3 + 1,
                            MoodRating::Good => c4 = c4 + 1,
                            MoodRating::Happy => c5 = c5 + 1,
                        }
                        rated = rated + 1;
                        total = total + mood.value() as usize;
                    },
                    None => {},
                }
            }
            i = i + 1;
        }
        proof {
            assert(all.take(all.len() as int) =~= all);
        }
        MoodStatistics { counts: [c1, c2, c3, c4, c5], rated_days: rated, total }
    }

    /// The selected judgement, if there is one.
    pub fn selected_judgement(&self) -> (judgement: Option<&Judgement>)
        ensures
            self.selected_judgement < self.document.judgements@.len() ==> judgement == Some(
                &self.document.judgements@[self.selected_judgement as int],
            ),
            self.selected_judgement >= self.document.judgements@.len() ==> judgement is None,
    {
        if self.selected_judgement < self.document.judgements.len() {
            Some(&self.document.judgements[self.selected_judgement])
        } else {
            None
        }
    }

    /// The selected characteristic of the selected judgement, if there is one.
    pub fn selected_characteristic(&self) -> (characteristic: Option<&Characteristic>)
        ensures
            characteristic is Some <==> (self.selected_characteristic matches Some(c)
                && self.selected_judgement < self.document.judgements@.len() && c
                < self.document.judgements@[self.selected_judgement as int].characteristics@.len()),
            characteristic matches Some(c) ==> *c == self.document.judgements@[self.selected_judgement as int].characteristics@[self.selected_characteristic->0 as int],
    {
        match self.selected_characteristic {
            Some(c) => match self.selected_judgement() {
                Some(judgement) => if c < judgement.characteristics.len() {
                    Some(&judgement.characteristics[c])
                } else {
                    None
                },
                None => None,
            },
            None => None,
        }
    }

    /// How the characteristics of the selected judgement were rated before and after, and
    /// how many have been verified; all zero without a selected judgement.
    pub fn judgement_statistics(&self) -> (statistics: JudgementStatistics)
        ensures
            self.selected_judgement >= self.document.judgements@.len() ==> {
                &&& statistics.before_counts@ == seq![0usize, 0usize, 0usize]
                &&& statistics.after_counts@ == seq![0usize, 0usize, 0usize]
                &&& statistics.characteristics == 0
                &&& statistics.verified == 0
            },
            self.selected_judgement < self.document.judgements@.len() ==> ({
                let cs = self.document.judgements@[self.selected_judgement as int].characteristics@;
                &&& statistics.before_counts@[0] == sentiment_count(cs, Sentiment::Positive, false)
                &&& statistics.before_counts@[1] == sentiment_count(cs, Sentiment::Neutral, false)
                &&& statistics.before_counts@[2] == sentiment_count(cs, Sentiment::Negative, false)
                &&& statistics.after_counts@[0] == sentiment_count(cs, Sentiment::Positive, true)
                &&& statistics.after_counts@[1] == sentiment_count(cs, Sentiment::Neutral, true)
                &&& statistics.after_counts@[2] == sentiment_count(cs, Sentiment::Negative, true)
                &&& statistics.characteristics == cs.len()
                &&& statistics.verified == verified_count(cs)
            }),
    {
        let judgement = match self.selected_judgement() {
            Some(judgement) => judgement,
            None => {
                return JudgementStatistics {
                    before_counts: [0, 0, 0],
                    after_counts: [0, 0, 0],
                    characteristics: 0,
                    verified: 0,
                };
            },
        };
        let cs = &judgement.characteristics;
        let ghost all = cs@;
        let mut b0: usize = 0;
        let mut b1: usize = 0;
        let mut b2: usize = 0;
        let mut a0: usize = 0;
        let mut a1: usize = 0;
        let mut a2: usize = 0;
        let mut verified: usize = 0;
        let mut i: usize = 0;
        while i < cs.len()
            invariant
                all == cs@,
                i <= all.len(),
                b0 == sentiment_count(all.take(i as int), Sentiment::Positive, false),
                b1 == sentiment_count(all.take(i as int), Sentiment::Neutral, false),
                b2 == sentiment_count(all.take(i as int), Sentiment::Negative, false),
                a0 == sentiment_count(all.take(i as int), Sentiment::Positive, true),
                a1 == sentiment_count(all.take(i as int), Sentiment::Neutral, true),
                a2 == sentiment_count(all.take(i as int), Sentiment::Negative, true),
                verified == verified_count(all.take(i as int)),
            decreases all.len() - i,
        {
            proof {
                let none: Seq<CalendarDay> = Seq::empty();
                lemma_counts_bounded(none, self.today, None, all.take(i as int));
                assert(all.take(i + 1).drop_last() =~= all.take(i as int));
            }
            let c = &cs[i];
            match c.before.rating {
                Sentiment::Positive => b0 = b0 + 1,
                Sentiment::Neutral => b1 = b1 + 1,
                Sentiment::Negative => b2 = b2 + 1,
            }
            match &c.after {
                Some(after) => {
                    match after.rating {
                        Sentiment::Positive => a0 = a0 + 1,
                        Sentiment::Neutral => a1 = a1 + 1,
                        Sentiment::Negative => a2 = a2 + 1,
                    }
                    verified = verified + 1;
                },
                None => {},
            }
            i = i + 1;
        }
        proof {
            assert(all.take(all.len() as int) =~= all);
        }
        JudgementStatistics {
            before_counts: [b0, b1, b2],
            after_counts: [a0, a1, a2],
            characteristics: cs.len(),
            verified,
        }
    }

    /// Shows `message` in the status line.
    pub fn set_error(&mut self, message: String)
        ensures
            *final(self) == (App { status: Some(message), ..*old(self) }),
    {
        self.status = Some(message);
    }

    /// Records the state of sync.
    pub fn set_sync_status(&mut self, status: SyncStatus)
        ensures
            *final(self) == (App { sync_status: status, ..*old(self) }),
    {
        self.sync_status = status;
    }

    /// Records the connected repository, or none.
    pub fn set_sync_repository(&mut self, repository: Option<String>)
        ensures
            *final(self) == (App { sync_repository: repository, ..*old(self) }),
    {
        self.sync_repository = repository;
    }

    /// Records the synchronised branch, or none.
    pub fn set_sync_branch(&mut self, branch: Option<String>)
        ensures
            *final(self) == (App { sync_branch: branch, ..*old(self) }),
    {
        self.sync_branch = branch;
    }
}

/// Whether `a` comes before `b` in the calendar.
pub fn date_is_before(a: Date, b: Date) -> (before: bool)
    ensures
        before == date_before(a, b),
{
    a.year < b.year || (a.year == b.year && a.month < b.month) || (a.year == b.year && a.month
        == b.month && a.day < b.day)
}

} // verus!
