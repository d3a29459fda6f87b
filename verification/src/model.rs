//! The document: identity topics with checklist items, calendar days with entries and a
//! mood rating, and judgements with their characteristics.
use vstd::prelude::*;

use crate::date::{Date, date_key, valid_ymd, lemma_date_key_injective};
use crate::text::{blank, is_blank};
use crate::text_format::{
    date_text, debug_text, decimal, describe_date, describe_quoted, describe_number,
};

use std::collections::HashSet;

verus! {

broadcast use vstd::std_specs::hash::group_hash_axioms;

/// The data version that this build reads and writes.
pub const DATA_VERSION: u32 = 3;

/// The first data version, which had identities only.
pub const LEGACY_DATA_VERSION: u32 = 1;

/// The data version before mood ratings and judgements.
pub const CALENDAR_DATA_VERSION: u32 = 2;

/// A checklist entry.
#[derive(Clone, Debug, PartialEq, Eq)]
pub struct Item {
    pub text: String,
    pub done: bool,
}

/// How an identity stands: hoped for, lived, or left behind.
#[derive(Clone, Copy, Debug, PartialEq, Eq, Structural)]
pub enum IdentityStatus {
    Aspiring,
    Active,
    Former,
}

/// An identity with its checklist.
#[derive(Clone, Debug, PartialEq, Eq)]
pub struct Topic {
    pub name: String,
    pub status: IdentityStatus,
    pub items: Vec<Item>,
}

/// How a day felt, from 1 (Depressed) to 5 (Happy).
#[derive(Clone, Copy, Debug, PartialEq, Eq, Structural)]
pub enum MoodRating {
    Depressed,
    Bad,
    Neutral,
    Good,
    Happy,
}

/// A day of the calendar: its checklist entries and its mood rating.
#[derive(Clone, Debug, PartialEq, Eq)]
pub struct CalendarDay {
    pub date: Date,
    pub mood: Option<MoodRating>,
    pub entries: Vec<Item>,
}

/// The calendar: the days that have entries or a rating.
#[derive(Clone, Debug, PartialEq, Eq)]
pub struct Calendar {
    pub days: Vec<CalendarDay>,
}

/// Whether an expectation or an outcome looked good, neutral or bad.
#[derive(Clone, Copy, Debug, PartialEq, Eq, Structural)]
pub enum Sentiment {
    Positive,
    Neutral,
    Negative,
}

/// A described observation with its sentiment.
#[derive(Clone, Debug, PartialEq, Eq)]
pub struct Observation {
    pub text: String,
    pub rating: Sentiment,
}

/// A characteristic of a judgement: what was expected before, and what was found after.
#[derive(Clone, Debug, PartialEq, Eq)]
pub struct Characteristic {
    pub name: String,
    pub before: Observation,
    pub after: Option<Observation>,
}

/// A judgement made now, to be checked again at its follow-up.
#[derive(Clone, Debug, PartialEq, Eq)]
pub struct Judgement {
    pub name: String,
    pub follow_up: String,
    pub characteristics: Vec<Characteristic>,
}

/// All the data of the dashboard.
#[derive(Clone, Debug, PartialEq, Eq)]
pub struct Document {
    pub version: u32,
    pub topics: Vec<Topic>,
    pub calendar: Calendar,
    pub judgements: Vec<Judgement>,
}

impl IdentityStatus {
    /// The statuses in the order the picker shows them.
    pub const ALL: [IdentityStatus; 3] = [
        IdentityStatus::Aspiring,
        IdentityStatus::Active,
        IdentityStatus::Former,
    ];

    /// The position of the status in `ALL`.
    pub open spec fn index(self) -> int {
        match self {
            IdentityStatus::Aspiring => 0,
            IdentityStatus::Active => 1,
            IdentityStatus::Former => 2,
        }
    }

    /// The status at position `index` of `ALL`.
    pub open spec fn at(index: int) -> IdentityStatus {
        if index <= 0 {
            IdentityStatus::Aspiring
        } else if index == 1 {
            IdentityStatus::Active
        } else {
            IdentityStatus::Former
        }
    }

    /// The name shown for the status.
    pub open spec fn label_text(self) -> Seq<char> {
        match self {
            IdentityStatus::Aspiring => "Aspiring"@,
            IdentityStatus::Active => "Active"@,
            IdentityStatus::Former => "Former"@,
        }
    }

    /// The word that stands for the status in the data file.
    pub open spec fn key_text(self) -> Seq<char> {
        match self {
            IdentityStatus::Aspiring => "aspiring"@,
            IdentityStatus::Active => "active"@,
            IdentityStatus::Former => "former"@,
        }
    }

    /// The status the data file assumes when it names none.
    pub fn default_status() -> (status: IdentityStatus)
        ensures
            status == IdentityStatus::Active,
    {
        IdentityStatus::Active
    }

    /// The name shown for the status.
    pub fn label(self) -> (label: &'static str)
        ensures
            label@ == self.label_text(),
    {
        match self {
            IdentityStatus::Aspiring => "Aspiring",
            IdentityStatus::Active => "Active",
            IdentityStatus::Former => "Former",
        }
    }

    /// The word that stands for the status in the data file.
    pub fn key(self) -> (key: &'static str)
        ensures
            key@ == self.key_text(),
    {
        match self {
            IdentityStatus::Aspiring => "aspiring",
            IdentityStatus::Active => "active",
            IdentityStatus::Former => "former",
        }
    }

    /// The status a word of the data file stands for.
    pub fn from_key(key: &str) -> (status: Option<IdentityStatus>)
        ensures
            status matches Some(s) ==> s.key_text() == key@,
            status is None ==> forall|s: IdentityStatus| s.key_text() != key@,
    {
        proof {
            reveal_strlit("aspiring");
            reveal_strlit("active");
            reveal_strlit("former");
        }
        if equal_text(key, "aspiring") {
            Some(IdentityStatus::Aspiring)
        } else if equal_text(key, "active") {
            Some(IdentityStatus::Active)
        } else if equal_text(key, "former") {
            Some(IdentityStatus::Former)
        } else {
            proof {
                assert forall|s: IdentityStatus| s.key_text() != key@ by {
                    match s {
                        IdentityStatus::Aspiring => {},
                        IdentityStatus::Active => {},
                        IdentityStatus::Former => {},
                    }
                }
            }
            None
        }
    }
}

/// Every rating is read back from the number it is written as, and no two ratings share
/// a number.
pub proof fn lemma_mood_number_round_trip(mood: MoodRating, other: MoodRating)
    ensures
        MoodRating::with_number(mood.number()) == mood,
        1 <= mood.number() <= 5,
        mood.number() == other.number() <==> mood == other,
{
}

/// Every status is read back from the word it is written as.
pub proof fn lemma_status_key_round_trip(status: IdentityStatus, other: IdentityStatus)
    ensures
        status.key_text() == other.key_text() <==> status == other,
{
    reveal_strlit("aspiring");
    reveal_strlit("active");
    reveal_strlit("former");
    if status.key_text() == other.key_text() {
        match status {
            IdentityStatus::Aspiring => {
                assert(status.key_text()[1] == 's');
            },
            IdentityStatus::Active => {
                assert(status.key_text()[1] == 'c');
            },
            IdentityStatus::Former => {
                assert(status.key_text()[0] == 'f');
            },
        }
    }
}

/// Whether two strings hold the same characters.
pub fn equal_text(a: &str, b: &str) -> (same: bool)
    ensures
        same == (a@ == b@),
{
    let n = a.unicode_len();
    if n != b.unicode_len() {
        return false;
    }
    let mut i: usize = 0;
    while i < n
        invariant
            n == a@.len(),
            n == b@.len(),
            i <= n,
            forall|k: int| 0 <= k < i ==> a@[k] == b@[k],
        decreases n - i,
    {
        if a.get_char(i) != b.get_char(i) {
            return false;
        }
        i = i + 1;
    }
    assert(a@ =~= b@);
    true
}

impl MoodRating {
    /// The ratings from 1 to 5.
    pub const ALL: [MoodRating; 5] = [
        MoodRating::Depressed,
        MoodRating::Bad,
        MoodRating::Neutral,
        MoodRating::Good,
        MoodRating::Happy,
    ];

    /// The middle rating, which the picker starts on.
    pub const NEUTRAL: MoodRating = MoodRating::Neutral;

    /// The number of the rating, from 1 to 5.
    pub open spec fn number(self) -> int {
        match self {
            MoodRating::Depressed => 1,
            MoodRating::Bad => 2,
            MoodRating::Neutral => 3,
            MoodRating::Good => 4,
            MoodRating::Happy => 5,
        }
    }

    /// The rating with number `value`, clamped to the range from 1 to 5.
    pub open spec fn with_number(value: int) -> MoodRating {
        if value <= 1 {
            MoodRating::Depressed
        } else if value == 2 {
            MoodRating::Bad
        } else if value == 3 {
            MoodRating::Neutral
        } else if value == 4 {
            MoodRating::Good
        } else {
            MoodRating::Happy
        }
    }

    /// The word shown for the rating.
    pub open spec fn label_text(self) -> Seq<char> {
        match self {
            MoodRating::Depressed => "Depressed"@,
            MoodRating::Bad => "Bad"@,
            MoodRating::Neutral => "Neutral"@,
            MoodRating::Good => "Good"@,
            MoodRating::Happy => "Happy"@,
        }
    }

    /// The number of the rating, from 1 to 5.
    pub fn value(self) -> (value: u8)
        ensures
            value == self.number(),
            1 <= value <= 5,
    {
        match self {
            MoodRating::Depressed => 1,
            MoodRating::Bad => 2,
            MoodRating::Neutral => 3,
            MoodRating::Good => 4,
            MoodRating::Happy => 5,
        }
    }

    /// The rating with number `value`; any number outside 1 to 5 is given back as the error.
    pub fn try_from(value: u8) -> (rating: Result<MoodRating, u8>)
        ensures
            rating is Ok <==> 1 <= value <= 5,
            rating matches Ok(r) ==> r.number() == value,
            rating matches Err(v) ==> v == value,
    {
        match value {
            1 => Ok(MoodRating::Depressed),
            2 => Ok(MoodRating::Bad),
            3 => Ok(MoodRating::Neutral),
            4 => Ok(MoodRating::Good),
            5 => Ok(MoodRating::Happy),
            _ => Err(value),
        }
    }

    /// The word shown for the rating.
    pub fn label(self) -> (label: &'static str)
        ensures
            label@ == self.label_text(),
    {
        match self {
            MoodRating::Depressed => "Depressed",
            MoodRating::Bad => "Bad",
            MoodRating::Neutral => "Neutral",
            MoodRating::Good => "Good",
            MoodRating::Happy => "Happy",
        }
    }
}

impl Sentiment {
    /// The sentiments from good to bad, in the order statistics count them.
    pub const ALL: [Sentiment; 3] = [Sentiment::Positive, Sentiment::Neutral, Sentiment::Negative];

    /// The position of the sentiment in `ALL`.
    pub open spec fn index(self) -> int {
        match self {
            Sentiment::Positive => 0,
            Sentiment::Neutral => 1,
            Sentiment::Negative => 2,
        }
    }

    /// The sentiment at position `index` of `ALL`, clamped to the ends.
    pub open spec fn at(index: int) -> Sentiment {
        if index <= 0 {
            Sentiment::Positive
        } else if index == 1 {
            Sentiment::Neutral
        } else {
            Sentiment::Negative
        }
    }

    /// The word shown for the sentiment.
    pub open spec fn label_text(self) -> Seq<char> {
        match self {
            Sentiment::Positive => "Positive"@,
            Sentiment::Neutral => "Neutral"@,
            Sentiment::Negative => "Negative"@,
        }
    }

    /// The word shown for the sentiment.
    pub fn label(self) -> (label: &'static str)
        ensures
            label@ == self.label_text(),
    {
        match self {
            Sentiment::Positive => "Positive",
            Sentiment::Neutral => "Neutral",
            Sentiment::Negative => "Negative",
        }
    }
}

// ---------------------------------------------------------------------------------------
// Validity
// ---------------------------------------------------------------------------------------

/// Every item has text that is not blank.
pub open spec fn items_filled(items: Seq<Item>) -> bool {
    forall|i: int| 0 <= i < items.len() ==> !is_blank(#[trigger] items[i].text@)
}

/// A topic has a name and every item has text.
pub open spec fn topic_ok(topic: Topic) -> bool {
    !is_blank(topic.name@) && items_filled(topic.items@)
}

/// Day `k` of `days` has a real date not used by an earlier day, something recorded, and
/// filled entries.
pub open spec fn day_ok(days: Seq<CalendarDay>, k: int) -> bool {
    &&& days[k].date.is_valid()
    &&& forall|i: int| 0 <= i < k ==> #[trigger] days[i].date != days[k].date
    &&& (days[k].entries@.len() > 0 || days[k].mood is Some)
    &&& items_filled(days[k].entries@)
}

/// A characteristic has a name, a described expectation, and a described outcome if any.
pub open spec fn characteristic_ok(c: Characteristic) -> bool {
    &&& !is_blank(c.name@)
    &&& !is_blank(c.before.text@)
    &&& (c.after matches Some(after) ==> !is_blank(after.text@))
}

/// A judgement has a name and complete characteristics.
pub open spec fn judgement_ok(j: Judgement) -> bool {
    &&& !is_blank(j.name@)
    &&& forall|c: int|
        0 <= c < j.characteristics@.len() ==> characteristic_ok(#[trigger] j.characteristics@[c])
}

/// All topics are complete.
pub open spec fn topics_ok(topics: Seq<Topic>) -> bool {
    forall|i: int| 0 <= i < topics.len() ==> topic_ok(#[trigger] topics[i])
}

/// All days are complete and no two share a date.
pub open spec fn days_ok(days: Seq<CalendarDay>) -> bool {
    forall|k: int| 0 <= k < days.len() ==> #[trigger] day_ok(days, k)
}

/// All judgements are complete.
pub open spec fn judgements_ok(judgements: Seq<Judgement>) -> bool {
    forall|j: int| 0 <= j < judgements.len() ==> judgement_ok(#[trigger] judgements[j])
}

/// No two days share a date.
pub open spec fn distinct_dates(days: Seq<CalendarDay>) -> bool {
    forall|i: int, k: int| 0 <= i < days.len() && 0 <= k < days.len() && i != k ==> #[trigger] days[i].date != #[trigger] days[k].date
}

/// A day has a real date, something recorded, and filled entries.
pub open spec fn day_complete(day: CalendarDay) -> bool {
    &&& day.date.is_valid()
    &&& (day.entries@.len() > 0 || day.mood is Some)
    &&& items_filled(day.entries@)
}

/// The days are valid exactly when each is complete and no two share a date.
pub proof fn lemma_days_ok(days: Seq<CalendarDay>)
    ensures
        days_ok(days) <==> (distinct_dates(days) && forall|k: int|
            0 <= k < days.len() ==> day_complete(#[trigger] days[k])),
{
    if days_ok(days) {
        assert forall|i: int, k: int|
            0 <= i < days.len() && 0 <= k < days.len() && i != k implies #[trigger] days[i].date
            != #[trigger] days[k].date by {
            if i < k {
                assert(day_ok(days, k));
            } else {
                assert(day_ok(days, i));
            }
        }
        assert forall|k: int| 0 <= k < days.len() implies day_complete(#[trigger] days[k]) by {
            assert(day_ok(days, k));
        }
    }
    if distinct_dates(days) && forall|k: int| 0 <= k < days.len() ==> day_complete(#[trigger] days[k]) {
        assert forall|k: int| 0 <= k < days.len() implies #[trigger] day_ok(days, k) by {
            assert(day_complete(days[k]));
        }
    }
}

/// A problem that keeps a document from being valid, located by index.
#[derive(Clone, Copy, Debug, PartialEq, Eq, Structural)]
pub enum Problem {
    UnsupportedVersion(u32),
    EmptyTopicName(usize),
    EmptyItem(usize, usize),
    InvalidDate(usize),
    DuplicateDate(usize),
    EmptyDay(usize),
    EmptyEntry(usize, usize),
    EmptyJudgementName(usize),
    IncompleteCharacteristic(usize, usize),
}

impl Document {
    /// Whether the document can be saved: the current version, named topics with filled
    /// items, days with real distinct dates that record something, and complete judgements.
    pub open spec fn is_valid(self) -> bool {
        &&& self.version == DATA_VERSION
        &&& topics_ok(self.topics@)
        &&& days_ok(self.calendar.days@)
        &&& judgements_ok(self.judgements@)
    }
}

impl Problem {
    /// Whether this is the first problem found when the document is read in order: the
    /// version, then each topic and its items, each day and its entries, and each
    /// judgement and its characteristics.
    pub open spec fn is_first_in(self, doc: Document) -> bool {
        let topics = doc.topics@;
        let days = doc.calendar.days@;
        let judgements = doc.judgements@;
        match self {
            Problem::UnsupportedVersion(v) => doc.version != DATA_VERSION && v == doc.version,
            Problem::EmptyTopicName(i) => {
                &&& doc.version == DATA_VERSION
                &&& i < topics.len()
                &&& topics_ok(topics.take(i as int))
                &&& is_blank(topics[i as int].name@)
            },
            Problem::EmptyItem(i, j) => {
                &&& doc.version == DATA_VERSION
                &&& i < topics.len()
                &&& topics_ok(topics.take(i as int))
                &&& !is_blank(topics[i as int].name@)
                &&& j < topics[i as int].items@.len()
                &&& items_filled(topics[i as int].items@.take(j as int))
                &&& is_blank(topics[i as int].items@[j as int].text@)
            },
            Problem::InvalidDate(k) => {
                &&& doc.version == DATA_VERSION
                &&& topics_ok(topics)
                &&& k < days.len()
                &&& days_ok(days.take(k as int))
                &&& !days[k as int].date.is_valid()
            },
            Problem::DuplicateDate(k) => {
                &&& doc.version == DATA_VERSION
                &&& topics_ok(topics)
                &&& k < days.len()
                &&& days_ok(days.take(k as int))
                &&& days[k as int].date.is_valid()
                &&& exists|i: int| 0 <= i < k && #[trigger] days[i].date == days[k as int].date
            },
            Problem::EmptyDay(k) => {
                &&& doc.version == DATA_VERSION
                &&& topics_ok(topics)
                &&& k < days.len()
                &&& days_ok(days.take(k as int))
                &&& days[k as int].date.is_valid()
                &&& (forall|i: int| 0 <= i < k ==> #[trigger] days[i].date != days[k as int].date)
                &&& days[k as int].entries@.len() == 0
                &&& days[k as int].mood is None
            },
            Problem::EmptyEntry(k, e) => {
                &&& doc.version == DATA_VERSION
                &&& topics_ok(topics)
                &&& k < days.len()
                &&& days_ok(days.take(k as int))
                &&& days[k as int].date.is_valid()
                &&& (forall|i: int| 0 <= i < k ==> #[trigger] days[i].date != days[k as int].date)
                &&& (days[k as int].entries@.len() > 0 || days[k as int].mood is Some)
                &&& e < days[k as int].entries@.len()
                &&& items_filled(days[k as int].entries@.take(e as int))
                &&& is_blank(days[k as int].entries@[e as int].text@)
            },
            Problem::EmptyJudgementName(j) => {
                &&& doc.version == DATA_VERSION
                &&& topics_ok(topics)
                &&& days_ok(days)
                &&& j < judgements.len()
                &&& judgements_ok(judgements.take(j as int))
                &&& is_blank(judgements[j as int].name@)
            },
            Problem::IncompleteCharacteristic(j, c) => {
                &&& doc.version == DATA_VERSION
                &&& topics_ok(topics)
                &&& days_ok(days)
                &&& j < judgements.len()
                &&& judgements_ok(judgements.take(j as int))
                &&& !is_blank(judgements[j as int].name@)
                &&& c < judgements[j as int].characteristics@.len()
                &&& (forall|cc: int|
                    0 <= cc < c ==> characteristic_ok(
                        #[trigger] judgements[j as int].characteristics@[cc],
                    ))
                &&& !characteristic_ok(judgements[j as int].characteristics@[c as int])
            },
        }
    }

    /// The message that reports the problem, as the data file's reader shows it.
    pub open spec fn message_text(self, doc: Document) -> Seq<char> {
        let days = doc.calendar.days@;
        match self {
            Problem::UnsupportedVersion(v) => "unsupported data version "@ + decimal(v as nat)
                + " (this build supports version 3)"@,
            Problem::EmptyTopicName(i) => "topic "@ + decimal((i + 1) as nat) + " has an empty name"@,
            Problem::EmptyItem(i, j) => "item "@ + decimal((j + 1) as nat) + " in topic "@ + debug_text(
                doc.topics@[i as int].name@,
            ) + " is empty"@,
            Problem::InvalidDate(k) => "calendar day "@ + decimal((k + 1) as nat) + " has an invalid date"@,
            Problem::DuplicateDate(k) => "calendar date "@ + date_text(days[k as int].date)
                + " appears more than once"@,
            Problem::EmptyDay(k) => "calendar date "@ + date_text(days[k as int].date)
                + " has no entries"@,
            Problem::EmptyEntry(k, e) => "entry "@ + decimal((e + 1) as nat) + " on calendar date "@
                + date_text(days[k as int].date) + " is empty"@,
            Problem::EmptyJudgementName(j) => "judgement "@ + decimal((j + 1) as nat)
                + " has an empty name"@,
            Problem::IncompleteCharacteristic(j, c) => "characteristic "@ + decimal((c + 1) as nat)
                + " in judgement "@ + debug_text(doc.judgements@[j as int].name@)
                + " is incomplete"@,
        }
    }

    /// The message that reports the problem.
    pub fn message(&self, doc: &Document) -> (message: String)
        requires
            self.is_first_in(*doc),
        ensures
            message@ == self.message_text(*doc),
    {
        match *self {
            Problem::UnsupportedVersion(v) => {
                let mut m = String::from_str("unsupported data version ");
                describe_number(&mut m, v as u64);
                m.append(" (this build supports version 3)");
                m
            },
            Problem::EmptyTopicName(i) => {
                assert(i < doc.topics.len());
                let mut m = String::from_str("topic ");
                describe_number(&mut m, i as u64 + 1);
                m.append(" has an empty name");
                m
            },
            Problem::EmptyItem(i, j) => {
                assert(j < doc.topics@[i as int].items.len());
                let mut m = String::from_str("item ");
                describe_number(&mut m, j as u64 + 1);
                m.append(" in topic ");
                describe_quoted(&mut m, doc.topics[i].name.as_str());
                m.append(" is empty");
                m
            },
            Problem::InvalidDate(k) => {
                assert(k < doc.calendar.days.len());
                let mut m = String::from_str("calendar day ");
                describe_number(&mut m, k as u64 + 1);
                m.append(" has an invalid date");
                m
            },
            Problem::DuplicateDate(k) => {
                let mut m = String::from_str("calendar date ");
                describe_date(&mut m, doc.calendar.days[k].date);
                m.append(" appears more than once");
                m
            },
            Problem::EmptyDay(k) => {
                let mut m = String::from_str("calendar date ");
                describe_date(&mut m, doc.calendar.days[k].date);
                m.append(" has no entries");
                m
            },
            Problem::EmptyEntry(k, e) => {
                assert(e < doc.calendar.days@[k as int].entries.len());
                let mut m = String::from_str("entry ");
                describe_number(&mut m, e as u64 + 1);
                m.append(" on calendar date ");
                describe_date(&mut m, doc.calendar.days[k].date);
                m.append(" is empty");
                m
            },
            Problem::EmptyJudgementName(j) => {
                assert(j < doc.judgements.len());
                let mut m = String::from_str("judgement ");
                describe_number(&mut m, j as u64 + 1);
                m.append(" has an empty name");
                m
            },
            Problem::IncompleteCharacteristic(j, c) => {
                assert(c < doc.judgements@[j as int].characteristics.len());
                let mut m = String::from_str("characteristic ");
                describe_number(&mut m, c as u64 + 1);
                m.append(" in judgement ");
                describe_quoted(&mut m, doc.judgements[j].name.as_str());
                m.append(" is incomplete");
                m
            },
        }
    }
}

// ---------------------------------------------------------------------------------------
// Searching the calendar
// ---------------------------------------------------------------------------------------

/// The index of the first day of `days` at or after `i` on `date`, or the length.
pub open spec fn find_day_from(days: Seq<CalendarDay>, date: Date, i: int) -> int
    decreases days.len() - i,
{
    if i < 0 || i >= days.len() {
        days.len() as int
    } else if days[i].date == date {
        i
    } else {
        find_day_from(days, date, i + 1)
    }
}

/// The index of the first day of `days` on `date`, or the length when there is none.
pub open spec fn find_day(days: Seq<CalendarDay>, date: Date) -> int {
    find_day_from(days, date, 0)
}

/// `find_day_from` points at the first day on the date at or after `i`.
pub proof fn lemma_find_day_from(days: Seq<CalendarDay>, date: Date, i: int)
    requires
        0 <= i <= days.len(),
    ensures
        i <= find_day_from(days, date, i) <= days.len(),
        find_day_from(days, date, i) < days.len() ==> days[find_day_from(days, date, i)].date
            == date,
        forall|k: int| i <= k < find_day_from(days, date, i) ==> #[trigger] days[k].date != date,
    decreases days.len() - i,
{
    if i < days.len() && days[i].date != date {
        lemma_find_day_from(days, date, i + 1);
    }
}

/// Days with the same dates in the same order are found at the same places.
pub proof fn lemma_find_day_same_dates(a: Seq<CalendarDay>, b: Seq<CalendarDay>, date: Date, i: int)
    requires
        a.len() == b.len(),
        forall|k: int| 0 <= k < a.len() ==> #[trigger] a[k].date == b[k].date,
    ensures
        find_day_from(a, date, i) == find_day_from(b, date, i),
    decreases a.len() - i,
{
    if 0 <= i < a.len() {
        lemma_find_day_same_dates(a, b, date, i + 1);
    }
}

/// `find_day` points at the first day on the date, and is the length when none is.
pub proof fn lemma_find_day(days: Seq<CalendarDay>, date: Date)
    ensures
        0 <= find_day(days, date) <= days.len(),
        find_day(days, date) < days.len() ==> days[find_day(days, date)].date == date,
        forall|k: int| 0 <= k < find_day(days, date) ==> #[trigger] days[k].date != date,
{
    lemma_find_day_from(days, date, 0);
}

/// Lexicographic order on dates, which is chronological order for valid dates.
pub open spec fn date_before(a: Date, b: Date) -> bool {
    ||| a.year < b.year
    ||| (a.year == b.year && a.month < b.month)
    ||| (a.year == b.year && a.month == b.month && a.day < b.day)
}

/// The days are in chronological order.
pub open spec fn sorted_by_date(days: Seq<CalendarDay>) -> bool {
    forall|i: int, k: int| 0 <= i < k < days.len() ==> !date_before(#[trigger] days[k].date, #[trigger] days[i].date)
}

/// `p` is a rearrangement of the indices below `n`.
pub open spec fn is_index_permutation(p: Seq<int>, n: int) -> bool {
    &&& p.len() == n
    &&& forall|i: int| 0 <= i < n ==> 0 <= #[trigger] p[i] < n
    &&& forall|i: int, k: int| 0 <= i < n && 0 <= k < n && i != k ==> #[trigger] p[i] != #[trigger] p[k]
    &&& forall|j: int| 0 <= j < n ==> #[trigger] index_covered(p, n, j)
}

/// Some index below `n` is sent to `j`.
pub open spec fn index_covered(p: Seq<int>, n: int, j: int) -> bool {
    exists|i: int| 0 <= i < n && #[trigger] p[i] == j
}

/// `after` holds the elements of `before` in a stable chronological order.
pub open spec fn stable_date_sort_of(before: Seq<CalendarDay>, after: Seq<CalendarDay>) -> bool {
    exists|p: Seq<int>|
        #![trigger is_index_permutation(p, before.len() as int)]
        {
            &&& is_index_permutation(p, before.len() as int)
            &&& after.len() == before.len()
            &&& forall|i: int| 0 <= i < after.len() ==> #[trigger] after[i] == before[p[i]]
            &&& forall|i: int, k: int|
                0 <= i < k < after.len() && after[i].date == after[k].date ==> #[trigger] p[i]
                    < #[trigger] p[k]
        }
}

impl Default for Calendar {
    fn default() -> (calendar: Calendar)
        ensures
            calendar.days@.len() == 0,
    {
        Calendar { days: Vec::new() }
    }
}

impl Default for Document {
    fn default() -> (doc: Document)
        ensures
            doc.version == DATA_VERSION,
            doc.topics@.len() == 0,
            doc.calendar.days@.len() == 0,
            doc.judgements@.len() == 0,
            doc.is_valid(),
    {
        Document {
            version: DATA_VERSION,
            topics: Vec::new(),
            calendar: Calendar { days: Vec::new() },
            judgements: Vec::new(),
        }
    }
}

/// The version a document is given when its data file names none.
pub fn current_version() -> (version: u32)
    ensures
        version == DATA_VERSION,
{
    DATA_VERSION
}

impl Document {
    /// Whether the document has neither topics nor calendar days.
    pub fn is_empty(&self) -> (empty: bool)
        ensures
            empty == (self.topics@.len() == 0 && self.calendar.days@.len() == 0),
    {
        self.topics.is_empty() && self.calendar.days.is_empty()
    }

    /// Brings a document of an earlier version to the current one. Reports whether the
    /// version changed; a version this build does not know is an error.
    pub fn upgrade(&mut self) -> (upgraded: Result<bool, String>)
        ensures
            upgraded == Ok::<bool, String>(false) <==> old(self).version == DATA_VERSION,
            upgraded == Ok::<bool, String>(true) <==> (old(self).version == LEGACY_DATA_VERSION
                || old(self).version == CALENDAR_DATA_VERSION),
            upgraded matches Err(m) ==> m@ == (Problem::UnsupportedVersion(old(self).version)).message_text(*old(self)),
            upgraded is Ok ==> final(self).version == DATA_VERSION,
            upgraded is Err ==> final(self).version == old(self).version,
            final(self).topics == old(self).topics,
            final(self).calendar == old(self).calendar,
            final(self).judgements == old(self).judgements,
    {
        if self.version == DATA_VERSION {
            Ok(false)
        } else if self.version == LEGACY_DATA_VERSION || self.version == CALENDAR_DATA_VERSION {
            self.version = DATA_VERSION;
            Ok(true)
        } else {
            let problem = Problem::UnsupportedVersion(self.version);
            Err(problem.message(self))
        }
    }

    /// The first problem found when reading the document in order, if any.
    #[verifier::loop_isolation(false)]
    pub fn check(&self) -> (result: Result<(), Problem>)
        ensures
            result is Ok <==> self.is_valid(),
            result matches Err(p) ==> p.is_first_in(*self),
    {
        if self.version != DATA_VERSION {
            return Err(Problem::UnsupportedVersion(self.version));
        }
        let topics = &self.topics;
        let mut i: usize = 0;
        while i < topics.len()
            invariant
                topics == &self.topics,
                self.version == DATA_VERSION,
                i <= topics@.len(),
                topics_ok(topics@.take(i as int)),
            decreases topics@.len() - i,
        {
            let topic = &topics[i];
            if blank(topic.name.as_str()) {
                assert(!topic_ok(topics@[i as int]));
                return Err(Problem::EmptyTopicName(i));
            }
            let mut j: usize = 0;
            while j < topic.items.len()
                invariant
                    j <= topic.items@.len(),
                    items_filled(topic.items@.take(j as int)),
                decreases topic.items@.len() - j,
            {
                if blank(topic.items[j].text.as_str()) {
                    assert(is_blank(topic.items@[j as int].text@));
                    assert(!items_filled(topic.items@));
                    assert(!topic_ok(topics@[i as int]));
                    return Err(Problem::EmptyItem(i, j));
                }
                assert(topic.items@.take(j + 1) =~= topic.items@.take(j as int).push(topic.items@[j as int]));
                j = j + 1;
            }
            assert(topic.items@.take(j as int) =~= topic.items@);
            assert(topics@.take(i + 1) =~= topics@.take(i as int).push(*topic));
            i = i + 1;
        }
        assert(topics@.take(i as int) =~= topics@);
        let days = &self.calendar.days;
        let mut dates: HashSet<i64> = HashSet::new();
        let mut k: usize = 0;
        while k < days.len()
            invariant
                days == &self.calendar.days,
                k <= days@.len(),
                self.version == DATA_VERSION,
                topics_ok(self.topics@),
                days_ok(days@.take(k as int)),
                forall|key: i64| #[trigger] dates@.contains(key) <==> exists|i: int|
                    0 <= i < k && date_key(#[trigger] days@[i].date) == key,
            decreases days@.len() - k,
        {
            let day = &days[k];
            if !is_valid_date(day.date) {
                assert(!day_ok(days@, k as int));
                return Err(Problem::InvalidDate(k));
            }
            let fresh = dates.insert(day.date.key());
            if !fresh {
                proof {
                    let i = choose|i: int| 0 <= i < k && date_key(days@[i].date) == date_key(day.date);
                    assert(day_ok(days@.take(k as int), i));
                    lemma_date_key_injective(days@[i].date, day.date);
                }
                assert(!day_ok(days@, k as int));
                return Err(Problem::DuplicateDate(k));
            }
            assert forall|i: int| 0 <= i < k implies #[trigger] days@[i].date != days@[k as int].date by {
                if days@[i].date == days@[k as int].date {
                    assert(exists|i2: int| 0 <= i2 < k && date_key(#[trigger] days@[i2].date) == date_key(day.date));
                }
            }
            if day.entries.is_empty() && day.mood.is_none() {
                assert(!day_ok(days@, k as int));
                return Err(Problem::EmptyDay(k));
            }
            let mut e: usize = 0;
            while e < day.entries.len()
                invariant
                    e <= day.entries@.len(),
                    items_filled(day.entries@.take(e as int)),
                decreases day.entries@.len() - e,
            {
                if blank(day.entries[e].text.as_str()) {
                    assert(is_blank(day.entries@[e as int].text@));
                    assert(!items_filled(day.entries@));
                    assert(!day_ok(days@, k as int));
                    return Err(Problem::EmptyEntry(k, e));
                }
                assert(day.entries@.take(e + 1) =~= day.entries@.take(e as int).push(day.entries@[e as int]));
                e = e + 1;
            }
            assert(day.entries@.take(e as int) =~= day.entries@);
            assert(days@.take(k + 1) =~= days@.take(k as int).push(*day));
            assert forall|m: int| 0 <= m < k + 1 implies #[trigger] day_ok(days@.take(k + 1), m) by {
                if m < k {
                    assert(day_ok(days@.take(k as int), m));
                }
            }
            k = k + 1;
        }
        assert(days@.take(k as int) =~= days@);
        let judgements = &self.judgements;
        let mut j: usize = 0;
        while j < judgements.len()
            invariant
                judgements == &self.judgements,
                j <= judgements@.len(),
                self.version == DATA_VERSION,
                topics_ok(self.topics@),
                days_ok(self.calendar.days@),
                judgements_ok(judgements@.take(j as int)),
            decreases judgements@.len() - j,
        {
            let judgement = &judgements[j];
            if blank(judgement.name.as_str()) {
                assert(!judgement_ok(judgements@[j as int]));
                return Err(Problem::EmptyJudgementName(j));
            }
            let mut c: usize = 0;
            while c < judgement.characteristics.len()
                invariant
                    c <= judgement.characteristics@.len(),
                    forall|cc: int|
                        0 <= cc < c ==> characteristic_ok(
                            #[trigger] judgement.characteristics@[cc],
                        ),
                decreases judgement.characteristics@.len() - c,
            {
                if !characteristic_complete(&judgement.characteristics[c]) {
                    assert(!judgement_ok(judgements@[j as int]));
                    return Err(Problem::IncompleteCharacteristic(j, c));
                }
                c = c + 1;
            }
            assert(judgements@.take(j + 1) =~= judgements@.take(j as int).push(*judgement));
            j = j + 1;
        }
        assert(judgements@.take(j as int) =~= judgements@);
        Ok(())
    }

    /// Checks the document before it is saved or after it is read.
    pub fn validate(&self) -> (result: Result<(), String>)
        ensures
            result is Ok <==> self.is_valid(),
            result matches Err(m) ==> exists|p: Problem|
                p.is_first_in(*self) && m@ == #[trigger] p.message_text(*self),
    {
        match self.check() {
            Ok(()) => Ok(()),
            Err(problem) => Err(problem.message(self)),
        }
    }
}


impl Document {
    /// The position of the day on `date` in the calendar, if the calendar has one.
    pub fn calendar_day_index(&self, date: Date) -> (index: Option<usize>)
        ensures
            index is None <==> find_day(self.calendar.days@, date) == self.calendar.days@.len(),
            index matches Some(i) ==> i == find_day(self.calendar.days@, date),
            index matches Some(i) ==> i < self.calendar.days@.len() && self.calendar.days@[i as int].date == date,
    {
        proof {
            lemma_find_day(self.calendar.days@, date);
        }
        let days = &self.calendar.days;
        let mut i: usize = 0;
        while i < days.len()
            invariant
                days == &self.calendar.days,
                i <= days@.len(),
                find_day(days@, date) == find_day_from(days@, date, i as int),
            decreases days@.len() - i,
        {
            if days[i].date == date {
                return Some(i);
            }
            i = i + 1;
        }
        None
    }

    /// The day on `date`, if the calendar has one.
    pub fn calendar_day(&self, date: Date) -> (day: Option<&CalendarDay>)
        ensures
            day is None <==> find_day(self.calendar.days@, date) == self.calendar.days@.len(),
            day matches Some(d) ==> *d == self.calendar.days@[find_day(self.calendar.days@, date)],
    {
        match self.calendar_day_index(date) {
            Some(i) => Some(&self.calendar.days[i]),
            None => None,
        }
    }

    /// The day on `date`, to change in place, if the calendar has one.
    pub fn calendar_day_mut(&mut self, date: Date) -> (day: Option<&mut CalendarDay>)
        ensures
            day is None <==> find_day(old(self).calendar.days@, date) == old(self).calendar.days@.len(),
            day is None ==> *final(self) == *old(self),
            day matches Some(d) ==> {
                &&& *d == old(self).calendar.days@[find_day(old(self).calendar.days@, date)]
                &&& final(self).calendar.days@ == old(self).calendar.days@.update(
                    find_day(old(self).calendar.days@, date),
                    *final(d),
                )
            },
            final(self).version == old(self).version,
            final(self).topics == old(self).topics,
            final(self).judgements == old(self).judgements,
    {
        match self.calendar_day_index(date) {
            Some(i) => Some(&mut self.calendar.days[i]),
            None => None,
        }
    }
}


/// The index of the first day at or after `i` on `date` with neither entries nor a mood,
/// or the length.
pub open spec fn find_empty_day_from(days: Seq<CalendarDay>, date: Date, i: int) -> int
    decreases days.len() - i,
{
    if i < 0 || i >= days.len() {
        days.len() as int
    } else if days[i].date == date && days[i].entries@.len() == 0 && days[i].mood is None {
        i
    } else {
        find_empty_day_from(days, date, i + 1)
    }
}

/// The days as they stand once `initial` is added to a calendar without its date and the
/// days are sorted again, with the new day then changed to `changed`.
pub open spec fn inserted_day(
    days: Seq<CalendarDay>,
    initial: CalendarDay,
    sorted: Seq<CalendarDay>,
    changed: CalendarDay,
    result: Seq<CalendarDay>,
) -> bool {
    &&& stable_date_sort_of(days.push(initial), sorted)
    &&& sorted_by_date(sorted)
    &&& find_day(sorted, initial.date) < sorted.len()
    &&& result == sorted.update(find_day(sorted, initial.date), changed)
}

impl Document {
    /// The day on `date`, to change in place; an empty day on that date is added first,
    /// and the days sorted by date, when the calendar has none.
    pub fn ensure_calendar_day(&mut self, date: Date) -> (day: &mut CalendarDay)
        ensures
            find_day(old(self).calendar.days@, date) < old(self).calendar.days@.len() ==> {
                &&& *day == old(self).calendar.days@[find_day(old(self).calendar.days@, date)]
                &&& final(self).calendar.days@ == old(self).calendar.days@.update(
                    find_day(old(self).calendar.days@, date),
                    *final(day),
                )
            },
            find_day(old(self).calendar.days@, date) == old(self).calendar.days@.len() ==> {
                &&& *day == (CalendarDay { date, mood: None, entries: day.entries })
                &&& day.entries@.len() == 0
                &&& exists|sorted: Seq<CalendarDay>|
                    #![trigger stable_date_sort_of(old(self).calendar.days@.push(*day), sorted)]
                    inserted_day(old(self).calendar.days@, *day, sorted, *final(day), final(self).calendar.days@)
            },
            final(self).version == old(self).version,
            final(self).topics == old(self).topics,
            final(self).judgements == old(self).judgements,
    {
        match self.calendar_day_index(date) {
            Some(i) => {
                return &mut self.calendar.days[i];
            },
            None => {},
        }
        let ghost old_days = self.calendar.days@;
        let initial = CalendarDay { date, mood: None, entries: Vec::new() };
        let ghost initial_value = initial;
        self.calendar.days.push(initial);
        sort_days_by_date(&mut self.calendar.days);
        let ghost sorted = self.calendar.days@;
        let ghost pushed = old_days.push(initial_value);
        proof {
            lemma_find_day(old_days, date);
            let p = choose|p: Seq<int>|
                #![trigger is_index_permutation(p, pushed.len() as int)]
                {
                    &&& is_index_permutation(p, pushed.len() as int)
                    &&& sorted.len() == pushed.len()
                    &&& forall|i: int| 0 <= i < sorted.len() ==> #[trigger] sorted[i] == pushed[p[i]]
                    &&& forall|i: int, k: int|
                        0 <= i < k < sorted.len() && sorted[i].date == sorted[k].date ==> #[trigger] p[i]
                            < #[trigger] p[k]
                };
            let last = old_days.len() as int;
            assert(0 <= last < pushed.len());
            assert(index_covered(p, pushed.len() as int, last));
            let at = choose|i: int| 0 <= i < pushed.len() && #[trigger] p[i] == last;
            assert(sorted[at] == initial_value);
            assert(sorted[at].date == date);
            lemma_find_day(sorted, date);
            let f = find_day(sorted, date);
            assert(f <= at);
            assert(f < sorted.len());
            assert(sorted[f].date == date);
            if p[f] != last {
                assert(pushed[p[f]] == old_days[p[f]]);
                assert(old_days[p[f]].date == date);
            }
            assert(p[f] == last);
            assert(sorted[f] == initial_value);
        }
        let index = self.calendar_day_index(date);
        let i = index.unwrap();
        &mut self.calendar.days[i]
    }

    /// Removes the day on `date` when it has neither entries nor a mood.
    pub fn remove_calendar_day_if_empty(&mut self, date: Date)
        ensures
            find_empty_day_from(old(self).calendar.days@, date, 0) < old(self).calendar.days@.len()
                ==> final(self).calendar.days@ == old(self).calendar.days@.remove(
                find_empty_day_from(old(self).calendar.days@, date, 0),
            ),
            find_empty_day_from(old(self).calendar.days@, date, 0) == old(self).calendar.days@.len()
                ==> final(self).calendar.days@ == old(self).calendar.days@,
            final(self).version == old(self).version,
            final(self).topics == old(self).topics,
            final(self).judgements == old(self).judgements,
    {
        let ghost days0 = self.calendar.days@;
        let mut i: usize = 0;
        while i < self.calendar.days.len()
            invariant
                *self == *old(self),
                self.calendar.days@ == days0,
                i <= days0.len(),
                find_empty_day_from(days0, date, 0) == find_empty_day_from(days0, date, i as int),
            decreases days0.len() - i,
        {
            let day = &self.calendar.days[i];
            if day.date == date && day.entries.is_empty() && day.mood.is_none() {
                self.calendar.days.remove(i);
                return;
            }
            i = i + 1;
        }
    }
}

/// Calls `slice::sort_by_key` with the year, month and day of each date as the key. The
/// sort is stable: days are put in chronological order, and days on the same date keep
/// their order.
#[verifier::external_body]
fn sort_days_by_date(days: &mut Vec<CalendarDay>)
    ensures
        stable_date_sort_of(old(days)@, final(days)@),
        sorted_by_date(final(days)@),
{
    days.sort_by_key(|day| (day.date.year, day.date.month, day.date.day));
}



/// Changing one day in place keeps the days valid when the changed day keeps its date and
/// is complete.
pub proof fn lemma_days_update(days: Seq<CalendarDay>, i: int, day: CalendarDay)
    requires
        days_ok(days),
        0 <= i < days.len(),
        day.date == days[i].date,
        day_complete(day),
    ensures
        days_ok(days.update(i, day)),
{
    lemma_days_ok(days);
    let result = days.update(i, day);
    assert forall|a: int, b: int|
        0 <= a < result.len() && 0 <= b < result.len() && a != b implies #[trigger] result[a].date
        != #[trigger] result[b].date by {
        assert(days[a].date != days[b].date);
    }
    assert forall|k: int| 0 <= k < result.len() implies day_complete(#[trigger] result[k]) by {
        if k != i {
            assert(day_complete(days[k]));
        }
    }
    lemma_days_ok(result);
}

/// Removing a day keeps the days valid.
pub proof fn lemma_days_remove(days: Seq<CalendarDay>, i: int)
    requires
        days_ok(days),
        0 <= i < days.len(),
    ensures
        days_ok(days.remove(i)),
{
    lemma_days_ok(days);
    let result = days.remove(i);
    assert forall|a: int, b: int|
        0 <= a < result.len() && 0 <= b < result.len() && a != b implies #[trigger] result[a].date
        != #[trigger] result[b].date by {
        let a2 = if a < i { a } else { a + 1 };
        let b2 = if b < i { b } else { b + 1 };
        assert(result[a] == days[a2]);
        assert(result[b] == days[b2]);
    }
    assert forall|k: int| 0 <= k < result.len() implies day_complete(#[trigger] result[k]) by {
        let k2 = if k < i { k } else { k + 1 };
        assert(result[k] == days[k2]);
    }
    lemma_days_ok(result);
}

/// Adding a day on a date the calendar did not have, sorting, and completing the new day
/// keeps the days valid.
pub proof fn lemma_days_insert(
    days: Seq<CalendarDay>,
    initial: CalendarDay,
    sorted: Seq<CalendarDay>,
    changed: CalendarDay,
    result: Seq<CalendarDay>,
)
    requires
        days_ok(days),
        find_day(days, initial.date) == days.len(),
        inserted_day(days, initial, sorted, changed, result),
        changed.date == initial.date,
        day_complete(changed),
    ensures
        days_ok(result),
{
    lemma_days_ok(days);
    lemma_find_day(days, initial.date);
    let date = initial.date;
    let pushed = days.push(initial);
    let last = days.len() as int;
    let p = choose|p: Seq<int>|
        #![trigger is_index_permutation(p, pushed.len() as int)]
        {
            &&& is_index_permutation(p, pushed.len() as int)
            &&& sorted.len() == pushed.len()
            &&& forall|i: int| 0 <= i < sorted.len() ==> #[trigger] sorted[i] == pushed[p[i]]
            &&& forall|i: int, k: int|
                0 <= i < k < sorted.len() && sorted[i].date == sorted[k].date ==> #[trigger] p[i]
                    < #[trigger] p[k]
        };
    let f = find_day(sorted, date);
    lemma_find_day(sorted, date);
    assert(sorted[f] == pushed[p[f]]);
    assert(p[f] == last) by {
        if p[f] != last {
            assert(pushed[p[f]] == days[p[f]]);
        }
    }
    assert forall|k: int| 0 <= k < sorted.len() && k != f implies p[k] != last && #[trigger] sorted[k]
        == days[p[k]] && days[p[k]].date != date by {
        assert(p[k] != p[f]);
        assert(sorted[k] == pushed[p[k]]);
    }
    assert forall|a: int, b: int|
        0 <= a < result.len() && 0 <= b < result.len() && a != b implies #[trigger] result[a].date
        != #[trigger] result[b].date by {
        if a != f && b != f {
            assert(sorted[a] == days[p[a]]);
            assert(sorted[b] == days[p[b]]);
            assert(p[a] != p[b]);
        } else if a == f {
            assert(sorted[b] == days[p[b]]);
        } else {
            assert(sorted[a] == days[p[a]]);
        }
    }
    assert forall|k: int| 0 <= k < result.len() implies day_complete(#[trigger] result[k]) by {
        if k != f {
            assert(sorted[k] == days[p[k]]);
            assert(day_complete(days[p[k]]));
        }
    }
    lemma_days_ok(result);
}


/// Changing, adding and removing entries of valid lists keeps them valid.
pub proof fn lemma_items_edit(items: Seq<Item>, i: int, item: Item)
    requires
        items_filled(items),
        !is_blank(item.text@),
    ensures
        0 <= i < items.len() ==> items_filled(items.update(i, item)),
        items_filled(items.push(item)),
        0 <= i < items.len() ==> items_filled(items.remove(i)),
        0 <= i && i + 1 < items.len() ==> items_filled(crate::lists::swapped(items, i)),
{
    if 0 <= i < items.len() {
        let r = items.remove(i);
        assert forall|k: int| 0 <= k < r.len() implies !is_blank(#[trigger] r[k].text@) by {
            if k >= i {
                assert(r[k] == items[k + 1]);
            }
        }
    }
}

/// Changing, adding and removing topics of a valid list keeps it valid.
pub proof fn lemma_topics_edit(topics: Seq<Topic>, i: int, topic: Topic)
    requires
        topics_ok(topics),
        topic_ok(topic),
    ensures
        0 <= i < topics.len() ==> topics_ok(topics.update(i, topic)),
        topics_ok(topics.push(topic)),
        0 <= i < topics.len() ==> topics_ok(topics.remove(i)),
        0 <= i && i + 1 < topics.len() ==> topics_ok(crate::lists::swapped(topics, i)),
{
    if 0 <= i < topics.len() {
        let r = topics.remove(i);
        assert forall|k: int| 0 <= k < r.len() implies topic_ok(#[trigger] r[k]) by {
            if k >= i {
                assert(r[k] == topics[k + 1]);
            }
        }
    }
}

/// Changing, adding and removing judgements of a valid list keeps it valid.
pub proof fn lemma_judgements_edit(judgements: Seq<Judgement>, i: int, judgement: Judgement)
    requires
        judgements_ok(judgements),
        judgement_ok(judgement),
    ensures
        0 <= i < judgements.len() ==> judgements_ok(judgements.update(i, judgement)),
        judgements_ok(judgements.push(judgement)),
        0 <= i < judgements.len() ==> judgements_ok(judgements.remove(i)),
        0 <= i && i + 1 < judgements.len() ==> judgements_ok(crate::lists::swapped(judgements, i)),
{
    if 0 <= i < judgements.len() {
        let r = judgements.remove(i);
        assert forall|k: int| 0 <= k < r.len() implies judgement_ok(#[trigger] r[k]) by {
            if k >= i {
                assert(r[k] == judgements[k + 1]);
            }
        }
    }
}

/// Changing, adding and removing characteristics of a valid judgement keeps it valid.
pub proof fn lemma_characteristics_edit(cs: Seq<Characteristic>, i: int, c: Characteristic)
    requires
        forall|k: int| 0 <= k < cs.len() ==> characteristic_ok(#[trigger] cs[k]),
        characteristic_ok(c),
    ensures
        0 <= i < cs.len() ==> forall|k: int| 0 <= k < cs.len() ==> characteristic_ok(#[trigger] cs.update(i, c)[k]),
        forall|k: int| 0 <= k < cs.len() + 1 ==> characteristic_ok(#[trigger] cs.push(c)[k]),
        0 <= i < cs.len() ==> forall|k: int| 0 <= k < cs.len() - 1 ==> characteristic_ok(#[trigger] cs.remove(i)[k]),
        0 <= i && i + 1 < cs.len() ==> forall|k: int| 0 <= k < cs.len() ==> characteristic_ok(#[trigger] crate::lists::swapped(cs, i)[k]),
{
    if 0 <= i < cs.len() {
        let r = cs.remove(i);
        assert forall|k: int| 0 <= k < r.len() implies characteristic_ok(#[trigger] r[k]) by {
            if k >= i {
                assert(r[k] == cs[k + 1]);
            }
        }
    }
    assert forall|k: int| 0 <= k < cs.len() + 1 implies characteristic_ok(#[trigger] cs.push(c)[k]) by {
        if k < cs.len() {
            assert(cs.push(c)[k] == cs[k]);
        }
    }
}

/// The index of the first day without entries or mood on `date` at or after `i`.
pub proof fn lemma_find_empty_day_from(days: Seq<CalendarDay>, date: Date, i: int)
    requires
        0 <= i <= days.len(),
    ensures
        i <= find_empty_day_from(days, date, i) <= days.len(),
        find_empty_day_from(days, date, i) < days.len() ==> ({
            let f = find_empty_day_from(days, date, i);
            days[f].date == date && days[f].entries@.len() == 0 && days[f].mood is None
        }),
        forall|k: int| i <= k < find_empty_day_from(days, date, i) ==> !(#[trigger] days[k].date == date
            && days[k].entries@.len() == 0 && days[k].mood is None),
    decreases days.len() - i,
{
    if i < days.len() && !(days[i].date == date && days[i].entries@.len() == 0 && days[i].mood is None) {
        lemma_find_empty_day_from(days, date, i + 1);
    }
}

/// Changing the day at `f` so that it keeps its date and filled entries, then removing it
/// if it has neither entries nor a mood, leaves valid days.
pub proof fn lemma_days_clear(days: Seq<CalendarDay>, f: int, day: CalendarDay)
    requires
        days_ok(days),
        0 <= f < days.len(),
        day.date == days[f].date,
        items_filled(day.entries@),
    ensures
        ({
            let u = days.update(f, day);
            let e = find_empty_day_from(u, day.date, 0);
            &&& (e < u.len() ==> e == f && days_ok(u.remove(e)))
            &&& (e == u.len() ==> days_ok(u))
        }),
{
    let u = days.update(f, day);
    lemma_days_ok(days);
    lemma_find_empty_day_from(u, day.date, 0);
    let e = find_empty_day_from(u, day.date, 0);
    if e < u.len() {
        if e != f {
            assert(days[e].date != days[f].date);
        }
        assert(u.remove(f) =~= days.remove(f));
        lemma_days_remove(days, f);
    } else {
        assert(!(u[f].date == day.date && u[f].entries@.len() == 0 && u[f].mood is None));
        assert(day_complete(day)) by {
            assert(day_ok(days, f));
        }
        lemma_days_update(days, f, day);
    }
}

/// Whether the date exists and lies in chrono's range.
pub fn is_valid_date(date: Date) -> (valid: bool)
    ensures
        valid == date.is_valid(),
{
    match Date::from_ymd(date.year, date.month, date.day) {
        Some(_) => true,
        None => false,
    }
}

/// Whether a characteristic has a name, a described expectation, and a described outcome if any.
pub fn characteristic_complete(c: &Characteristic) -> (complete: bool)
    ensures
        complete == characteristic_ok(*c),
{
    if blank(c.name.as_str()) || blank(c.before.text.as_str()) {
        return false;
    }
    match &c.after {
        Some(after) => !blank(after.text.as_str()),
        None => true,
    }
}

/// Two items with the same text and check mark.
pub open spec fn same_item(a: Item, b: Item) -> bool {
    a.text@ == b.text@ && a.done == b.done
}

/// Two lists of items with the same texts and check marks.
pub open spec fn same_items(a: Seq<Item>, b: Seq<Item>) -> bool {
    &&& a.len() == b.len()
    &&& forall|i: int| 0 <= i < a.len() ==> same_item(#[trigger] a[i], b[i])
}

/// Two topics with the same name, status and items.
pub open spec fn same_topic(a: Topic, b: Topic) -> bool {
    a.name@ == b.name@ && a.status == b.status && same_items(a.items@, b.items@)
}

/// Two days with the same date, mood and entries.
pub open spec fn same_day(a: CalendarDay, b: CalendarDay) -> bool {
    a.date == b.date && a.mood == b.mood && same_items(a.entries@, b.entries@)
}

/// Whether two characteristics hold the same texts and ratings.
pub open spec fn same_characteristic(a: Characteristic, b: Characteristic) -> bool {
    &&& a.name@ == b.name@
    &&& a.before.text@ == b.before.text@
    &&& a.before.rating == b.before.rating
    &&& match (a.after, b.after) {
        (Some(x), Some(y)) => x.text@ == y.text@ && x.rating == y.rating,
        (None, None) => true,
        _ => false,
    }
}

/// Two judgements with the same name, follow-up and characteristics.
pub open spec fn same_judgement(a: Judgement, b: Judgement) -> bool {
    &&& a.name@ == b.name@
    &&& a.follow_up@ == b.follow_up@
    &&& a.characteristics@.len() == b.characteristics@.len()
    &&& forall|i: int| 0 <= i < a.characteristics@.len() ==> same_characteristic(
        #[trigger] a.characteristics@[i],
        b.characteristics@[i],
    )
}

/// Two documents that hold the same data.
pub open spec fn same_document(a: Document, b: Document) -> bool {
    &&& a.version == b.version
    &&& a.topics@.len() == b.topics@.len()
    &&& forall|i: int| 0 <= i < a.topics@.len() ==> same_topic(#[trigger] a.topics@[i], b.topics@[i])
    &&& a.calendar.days@.len() == b.calendar.days@.len()
    &&& forall|i: int| 0 <= i < a.calendar.days@.len() ==> same_day(#[trigger] a.calendar.days@[i], b.calendar.days@[i])
    &&& a.judgements@.len() == b.judgements@.len()
    &&& forall|i: int| 0 <= i < a.judgements@.len() ==> same_judgement(#[trigger] a.judgements@[i], b.judgements@[i])
}

/// Whether two characteristics hold the same texts and ratings.
pub fn characteristics_equal(a: &Characteristic, b: &Characteristic) -> (same: bool)
    ensures
        same == same_characteristic(*a, *b),
{
    if !equal_text(a.name.as_str(), b.name.as_str()) || !equal_text(
        a.before.text.as_str(),
        b.before.text.as_str(),
    ) || a.before.rating != b.before.rating {
        return false;
    }
    match (&a.after, &b.after) {
        (Some(x), Some(y)) => equal_text(x.text.as_str(), y.text.as_str()) && x.rating == y.rating,
        (None, None) => true,
        _ => false,
    }
}

/// Whether two lists of items hold the same texts and check marks.
fn items_equal(a: &Vec<Item>, b: &Vec<Item>) -> (same: bool)
    ensures
        same == same_items(a@, b@),
{
    if a.len() != b.len() {
        return false;
    }
    let mut i: usize = 0;
    while i < a.len()
        invariant
            a@.len() == b@.len(),
            i <= a@.len(),
            forall|k: int| 0 <= k < i ==> same_item(#[trigger] a@[k], b@[k]),
        decreases a@.len() - i,
    {
        if !equal_text(a[i].text.as_str(), b[i].text.as_str()) || a[i].done != b[i].done {
            assert(!same_item(a@[i as int], b@[i as int]));
            return false;
        }
        i = i + 1;
    }
    true
}

/// Whether two judgements hold the same name, follow-up and characteristics.
fn judgements_match(a: &Judgement, b: &Judgement) -> (same: bool)
    ensures
        same == same_judgement(*a, *b),
{
    if !equal_text(a.name.as_str(), b.name.as_str()) || !equal_text(a.follow_up.as_str(), b.follow_up.as_str()) {
        return false;
    }
    let ca = &a.characteristics;
    let cb = &b.characteristics;
    if ca.len() != cb.len() {
        return false;
    }
    let mut c: usize = 0;
    while c < ca.len()
        invariant
            ca == &a.characteristics,
            cb == &b.characteristics,
            ca@.len() == cb@.len(),
            c <= ca@.len(),
            forall|k: int| 0 <= k < c ==> same_characteristic(#[trigger] ca@[k], cb@[k]),
        decreases ca@.len() - c,
    {
        if !characteristics_equal(&ca[c], &cb[c]) {
            assert(!same_characteristic(ca@[c as int], cb@[c as int]));
            return false;
        }
        c = c + 1;
    }
    true
}

impl Document {
    /// Whether two documents hold the same data.
    pub fn same_as(&self, other: &Document) -> (same: bool)
        ensures
            same == same_document(*self, *other),
    {
        if self.version != other.version {
            return false;
        }
        let ta = &self.topics;
        let tb = &other.topics;
        if ta.len() != tb.len() {
            return false;
        }
        let mut i: usize = 0;
        while i < ta.len()
            invariant
                ta == &self.topics,
                tb == &other.topics,
                ta@.len() == tb@.len(),
                i <= ta@.len(),
                forall|k: int| 0 <= k < i ==> same_topic(#[trigger] ta@[k], tb@[k]),
            decreases ta@.len() - i,
        {
            if !equal_text(ta[i].name.as_str(), tb[i].name.as_str()) || ta[i].status != tb[i].status
                || !items_equal(&ta[i].items, &tb[i].items) {
                assert(!same_topic(ta@[i as int], tb@[i as int]));
                return false;
            }
            i = i + 1;
        }
        let da = &self.calendar.days;
        let db = &other.calendar.days;
        if da.len() != db.len() {
            return false;
        }
        let mut i: usize = 0;
        while i < da.len()
            invariant
                da == &self.calendar.days,
                db == &other.calendar.days,
                da@.len() == db@.len(),
                i <= da@.len(),
                forall|k: int| 0 <= k < i ==> same_day(#[trigger] da@[k], db@[k]),
            decreases da@.len() - i,
        {
            let same_mood = match (da[i].mood, db[i].mood) {
                (Some(x), Some(y)) => x == y,
                (None, None) => true,
                _ => false,
            };
            if da[i].date != db[i].date || !same_mood || !items_equal(&da[i].entries, &db[i].entries) {
                assert(!same_day(da@[i as int], db@[i as int]));
                return false;
            }
            i = i + 1;
        }
        let ja = &self.judgements;
        let jb = &other.judgements;
        if ja.len() != jb.len() {
            return false;
        }
        let mut i: usize = 0;
        while i < ja.len()
            invariant
                ja == &self.judgements,
                jb == &other.judgements,
                ja@.len() == jb@.len(),
                i <= ja@.len(),
                forall|k: int| 0 <= k < i ==> same_judgement(#[trigger] ja@[k], jb@[k]),
            decreases ja@.len() - i,
        {
            if !judgements_match(&ja[i], &jb[i]) {
                return false;
            }
            i = i + 1;
        }
        true
    }
}

} // verus!
