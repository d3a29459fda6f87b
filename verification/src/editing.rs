//! The commands that change the document: checking, reordering, saving edited text,
//! rating days, saving forms, and deleting.
use vstd::prelude::*;

use crate::app::{
    App, CalendarFocus, CharacteristicField, CharacteristicForm, EditKind, Editor, JudgementField,
    DeleteTarget, JudgementFocus, JudgementForm, Mode, StatusPicker,
};
use crate::navigation::{
    min_int, selected_entry_count, with_calendar_selection, with_judgement_selection,
    with_visible_selection,
};
use crate::lists::{swap_adjacent, swapped};
use crate::app::HandleResult;
use crate::date::Date;
use crate::model::{
    CalendarDay, Characteristic, Document, IdentityStatus, Item, Judgement, MoodRating, Observation,
    Sentiment, Topic, characteristics_equal, equal_text, same_characteristic,
    characteristic_ok, day_complete, days_ok, find_day, find_empty_day_from, inserted_day,
    items_filled, judgement_ok, judgements_ok, lemma_days_clear, lemma_days_insert,
    lemma_days_update, lemma_find_day, topic_ok, topics_ok, date_before, sorted_by_date,
    is_index_permutation, index_covered, stable_date_sort_of, lemma_find_empty_day_from, day_ok,
};
use crate::text::{is_blank, lemma_trim, trim, trimmed};
use crate::text_format::{decimal, describe_number};

verus! {

/// Whether `app` shows `text` in its status line.
pub open spec fn shows(app: App, text: Seq<char>) -> bool {
    app.status matches Some(s) && s@ == text
}

/// Topic `t` of `after` has the items `items`; every other topic, and the rest of topic
/// `t`, is as in `before`.
pub open spec fn items_replaced(before: Seq<Topic>, after: Seq<Topic>, t: int, items: Seq<Item>) -> bool {
    &&& 0 <= t < before.len()
    &&& after.len() == before.len()
    &&& forall|k: int| 0 <= k < before.len() && k != t ==> #[trigger] after[k] == before[k]
    &&& after[t].name == before[t].name
    &&& after[t].status == before[t].status
    &&& after[t].items@ == items
}

/// Day `f` of `after` has the entries `entries`; every other day, and the rest of day `f`,
/// is as in `before`.
pub open spec fn entries_replaced(
    before: Seq<CalendarDay>,
    after: Seq<CalendarDay>,
    f: int,
    entries: Seq<Item>,
) -> bool {
    &&& 0 <= f < before.len()
    &&& after.len() == before.len()
    &&& forall|k: int| 0 <= k < before.len() && k != f ==> #[trigger] after[k] == before[k]
    &&& after[f].date == before[f].date
    &&& after[f].mood == before[f].mood
    &&& after[f].entries@ == entries
}

/// Judgement `j` of `after` has the characteristics `cs`; every other judgement, and the
/// rest of judgement `j`, is as in `before`.
pub open spec fn characteristics_replaced(
    before: Seq<Judgement>,
    after: Seq<Judgement>,
    j: int,
    cs: Seq<Characteristic>,
) -> bool {
    &&& 0 <= j < before.len()
    &&& after.len() == before.len()
    &&& forall|k: int| 0 <= k < before.len() && k != j ==> #[trigger] after[k] == before[k]
    &&& after[j].name == before[j].name
    &&& after[j].follow_up == before[j].follow_up
    &&& after[j].characteristics@ == cs
}

/// The mood of the day on `date`, none when the calendar has no such day.
pub open spec fn day_mood(days: Seq<CalendarDay>, date: Date) -> Option<MoodRating> {
    let f = find_day(days, date);
    if f < days.len() {
        days[f].mood
    } else {
        None
    }
}

/// The entries of the day on `date`, none when the calendar has no such day.
pub open spec fn day_entries(days: Seq<CalendarDay>, date: Date) -> Seq<Item> {
    let f = find_day(days, date);
    if f < days.len() {
        days[f].entries@
    } else {
        Seq::empty()
    }
}

/// `after` is `before` with the day on `date` given `mood` and `entries`: the day found in
/// `before`, or, when it has none, a day added on that date, the days sorted again.
pub open spec fn day_set(
    before: Seq<CalendarDay>,
    after: Seq<CalendarDay>,
    date: Date,
    mood: Option<MoodRating>,
    entries: Seq<Item>,
) -> bool {
    let f = find_day(before, date);
    if f < before.len() {
        &&& after.len() == before.len()
        &&& forall|k: int| 0 <= k < before.len() && k != f ==> #[trigger] after[k] == before[k]
        &&& after[f].date == date
        &&& after[f].mood == mood
        &&& after[f].entries@ == entries
    } else {
        exists|initial: CalendarDay, sorted: Seq<CalendarDay>, changed: CalendarDay|
            #![trigger inserted_day(before, initial, sorted, changed, after)]
            {
                &&& initial.date == date
                &&& initial.mood is None
                &&& initial.entries@.len() == 0
                &&& changed.date == date
                &&& changed.mood == mood
                &&& changed.entries@ == entries
                &&& inserted_day(before, initial, sorted, changed, after)
            }
    }
}

/// `after` is `before` with day `f` replaced by `day`, and then removed if it has neither
/// entries nor a mood.
pub open spec fn day_cleared(before: Seq<CalendarDay>, after: Seq<CalendarDay>, f: int, day: CalendarDay) -> bool {
    let u = before.update(f, day);
    let e = find_empty_day_from(u, day.date, 0);
    if e < u.len() {
        after == u.remove(e)
    } else {
        after == u
    }
}

/// Changing a day in place without changing its date leaves every date found where it
/// was.
pub proof fn lemma_day_in_place(before: Seq<CalendarDay>, after: Seq<CalendarDay>, f: int, date: Date)
    requires
        after.len() == before.len(),
        0 <= f < before.len(),
        forall|k: int| 0 <= k < before.len() && k != f ==> #[trigger] after[k] == before[k],
        after[f].date == before[f].date,
    ensures
        find_day(after, date) == find_day(before, date),
{
    assert forall|k: int| 0 <= k < before.len() implies #[trigger] before[k].date == after[k].date by {
        if k != f {
            assert(after[k] == before[k]);
        }
    }
    crate::model::lemma_find_day_same_dates(before, after, date, 0);
}

/// A date first found at `f` is still first found there when the days up to `f` stay.
pub proof fn lemma_find_day_kept(a: Seq<CalendarDay>, b: Seq<CalendarDay>, date: Date)
    requires
        find_day(a, date) < a.len(),
        find_day(a, date) < b.len(),
        forall|k: int| 0 <= k <= find_day(a, date) ==> #[trigger] b[k] == a[k],
    ensures
        find_day(b, date) == find_day(a, date),
{
    lemma_find_day(a, date);
    lemma_find_day_kept_from(a, b, date, 0);
}

/// `lemma_find_day_kept`, searching from `i`.
proof fn lemma_find_day_kept_from(a: Seq<CalendarDay>, b: Seq<CalendarDay>, date: Date, i: int)
    requires
        0 <= i <= find_day(a, date),
        find_day(a, date) < a.len(),
        find_day(a, date) < b.len(),
        forall|k: int| 0 <= k <= find_day(a, date) ==> #[trigger] b[k] == a[k],
    ensures
        crate::model::find_day_from(b, date, i) == find_day(a, date),
    decreases find_day(a, date) - i,
{
    lemma_find_day(a, date);
    let f = find_day(a, date);
    assert(b[i] == a[i]);
    if i < f {
        lemma_find_day_kept_from(a, b, date, i + 1);
    }
}

/// Giving a day on a real date a mood or entries keeps the days valid.
pub proof fn lemma_day_set_ok(
    before: Seq<CalendarDay>,
    after: Seq<CalendarDay>,
    date: Date,
    mood: Option<MoodRating>,
    entries: Seq<Item>,
)
    requires
        days_ok(before),
        date.is_valid(),
        day_set(before, after, date, mood, entries),
        items_filled(entries),
        entries.len() > 0 || mood is Some,
    ensures
        days_ok(after),
{
    lemma_find_day(before, date);
    let f = find_day(before, date);
    if f < before.len() {
        assert(after =~= before.update(f, after[f]));
        assert(day_complete(after[f]));
        lemma_days_update(before, f, after[f]);
    } else {
        let (initial, sorted, changed) = choose|initial: CalendarDay, sorted: Seq<CalendarDay>, changed: CalendarDay|
            #![trigger inserted_day(before, initial, sorted, changed, after)]
            {
                &&& initial.date == date
                &&& initial.mood is None
                &&& initial.entries@.len() == 0
                &&& changed.date == date
                &&& changed.mood == mood
                &&& changed.entries@ == entries
                &&& inserted_day(before, initial, sorted, changed, after)
            };
        assert(day_complete(changed));
        lemma_days_insert(before, initial, sorted, changed, after);
    }
}

/// The status line after an identity's status changes.
pub open spec fn status_text(status: IdentityStatus) -> Seq<char> {
    "Identity is now "@ + status.label_text()
}

/// The status line after a day is rated.
pub open spec fn mood_saved_text(mood: MoodRating) -> Seq<char> {
    "Mood saved: "@ + decimal(mood.number() as nat) + " — "@ + mood.label_text()
}

/// `after` is `before` with an unchecked item of text `text` added at the end.
pub open spec fn item_appended(before: Seq<Item>, after: Seq<Item>, text: Seq<char>) -> bool {
    &&& after.len() == before.len() + 1
    &&& forall|k: int| 0 <= k < before.len() ==> #[trigger] after[k] == before[k]
    &&& after[before.len() as int].text@ == text
    &&& !after[before.len() as int].done
}

/// `after` is `before` with item `i` given the text `text`, its check mark kept.
pub open spec fn item_text_set(before: Seq<Item>, after: Seq<Item>, i: int, text: Seq<char>) -> bool {
    &&& 0 <= i < before.len()
    &&& after.len() == before.len()
    &&& forall|k: int| 0 <= k < before.len() && k != i ==> #[trigger] after[k] == before[k]
    &&& after[i].text@ == text
    &&& after[i].done == before[i].done
}

/// `after` is `before` with an active identity named `name`, without items, added at the
/// end.
pub open spec fn topic_added(before: Seq<Topic>, after: Seq<Topic>, name: Seq<char>) -> bool {
    &&& after.len() == before.len() + 1
    &&& forall|k: int| 0 <= k < before.len() ==> #[trigger] after[k] == before[k]
    &&& after[before.len() as int].name@ == name
    &&& after[before.len() as int].status == IdentityStatus::Active
    &&& after[before.len() as int].items@.len() == 0
}

/// `after` is `before` with topic `t` named `name`.
pub open spec fn topic_renamed(before: Seq<Topic>, after: Seq<Topic>, t: int, name: Seq<char>) -> bool {
    &&& 0 <= t < before.len()
    &&& after.len() == before.len()
    &&& forall|k: int| 0 <= k < before.len() && k != t ==> #[trigger] after[k] == before[k]
    &&& after[t].name@ == name
    &&& after[t].status == before[t].status
    &&& after[t].items == before[t].items
}

/// Whether what an editor edits exists in the document: the topic, item, day or entry.
pub open spec fn edit_applies(doc: Document, kind: EditKind) -> bool {
    match kind {
        EditKind::NewTopic => true,
        EditKind::RenameTopic(t) => t < doc.topics@.len(),
        EditKind::AddItem(t) => t < doc.topics@.len(),
        EditKind::EditItem(t, i) => t < doc.topics@.len() && i < doc.topics@[t as int].items@.len(),
        EditKind::AddCalendarEntry(_) => true,
        EditKind::EditCalendarEntry(date, e) => {
            let days = doc.calendar.days@;
            find_day(days, date) < days.len() && e < days[find_day(days, date)].entries@.len()
        },
        EditKind::Search => false,
    }
}

/// `after` is `before` once the text `value` of an editor of kind `kind` is saved: the
/// document changed as the kind says, the selection following it, the search cleared and
/// "Saved" shown.
pub open spec fn edit_saved(before: App, after: App, kind: EditKind, value: Seq<char>) -> bool {
    let doc = before.document;
    &&& after.query@.len() == 0
    &&& shows(after, "Saved"@)
    &&& after.document.version == doc.version
    &&& match kind {
        EditKind::NewTopic => {
            &&& topic_added(doc.topics@, after.document.topics@, value)
            &&& after.document == (Document { topics: after.document.topics, ..doc })
            &&& after == (App {
                document: after.document,
                selected_topic: doc.topics@.len() as usize,
                selected_item: None,
                query: after.query,
                status: after.status,
                ..before
            })
        },
        EditKind::RenameTopic(t) => {
            &&& topic_renamed(doc.topics@, after.document.topics@, t as int, value)
            &&& after.document == (Document { topics: after.document.topics, ..doc })
            &&& after == (App {
                document: after.document,
                query: after.query,
                status: after.status,
                ..before
            })
        },
        EditKind::AddItem(t) => {
            &&& items_replaced(doc.topics@, after.document.topics@, t as int, after.document.topics@[t as int].items@)
            &&& item_appended(doc.topics@[t as int].items@, after.document.topics@[t as int].items@, value)
            &&& after.document == (Document { topics: after.document.topics, ..doc })
            &&& after == (App {
                document: after.document,
                selected_topic: t,
                selected_item: Some(doc.topics@[t as int].items@.len() as usize),
                query: after.query,
                status: after.status,
                ..before
            })
        },
        EditKind::EditItem(t, i) => {
            &&& items_replaced(doc.topics@, after.document.topics@, t as int, after.document.topics@[t as int].items@)
            &&& item_text_set(doc.topics@[t as int].items@, after.document.topics@[t as int].items@, i as int, value)
            &&& after.document == (Document { topics: after.document.topics, ..doc })
            &&& after == (App {
                document: after.document,
                query: after.query,
                status: after.status,
                ..before
            })
        },
        EditKind::AddCalendarEntry(date) => {
            &&& exists|entries: Seq<Item>|
                #![trigger day_set(doc.calendar.days@, after.document.calendar.days@, date, day_mood(doc.calendar.days@, date), entries)]
                item_appended(day_entries(doc.calendar.days@, date), entries, value) && day_set(
                    doc.calendar.days@,
                    after.document.calendar.days@,
                    date,
                    day_mood(doc.calendar.days@, date),
                    entries,
                )
            &&& after.document == (Document { calendar: after.document.calendar, ..doc })
            &&& after == (App {
                document: after.document,
                selected_date: date,
                selected_calendar_entry: Some(day_entries(doc.calendar.days@, date).len() as usize),
                calendar_focus: CalendarFocus::Entries,
                query: after.query,
                status: after.status,
                ..before
            })
        },
        EditKind::EditCalendarEntry(date, e) => {
            let days = doc.calendar.days@;
            let f = find_day(days, date);
            &&& entries_replaced(days, after.document.calendar.days@, f, after.document.calendar.days@[f].entries@)
            &&& item_text_set(days[f].entries@, after.document.calendar.days@[f].entries@, e as int, value)
            &&& after.document == (Document { calendar: after.document.calendar, ..doc })
            &&& after == (App {
                document: after.document,
                query: after.query,
                status: after.status,
                ..before
            })
        },
        EditKind::Search => false,
    }
}

/// Adding an item with text, or giving an item text, keeps every item filled.
pub proof fn lemma_items_text(before: Seq<Item>, after: Seq<Item>, i: int, text: Seq<char>)
    requires
        items_filled(before),
        !is_blank(text),
        item_appended(before, after, text) || item_text_set(before, after, i, text),
    ensures
        items_filled(after),
{
    assert forall|k: int| 0 <= k < after.len() implies !is_blank(#[trigger] after[k].text@) by {
        if item_appended(before, after, text) {
            if k < before.len() {
                assert(after[k] == before[k]);
            }
        } else if k != i {
            assert(after[k] == before[k]);
        }
    }
}

/// Whether `c` is the characteristic that `form` describes: its trimmed name and
/// expectation, and the trimmed outcome when the form has one.
pub open spec fn described_by(c: Characteristic, form: CharacteristicForm) -> bool {
    &&& c.name@ == trim(form.name@)
    &&& c.before.text@ == trim(form.before_text@)
    &&& c.before.rating == form.before_rating
    &&& if form.has_after {
        c.after matches Some(o) && o.text@ == trim(form.after_text@) && o.rating == form.after_rating
    } else {
        c.after is None
    }
}

/// The selected characteristic of the selected judgement, if both exist.
pub open spec fn chosen_characteristic(app: App) -> Option<Characteristic> {
    let js = app.document.judgements@;
    match app.selected_characteristic {
        Some(c) => if app.selected_judgement < js.len() && c < js[app.selected_judgement as int].characteristics@.len() {
            Some(js[app.selected_judgement as int].characteristics@[c as int])
        } else {
            None
        },
        None => None,
    }
}


/// Why a characteristic form cannot be saved, if it cannot: a blank name, a blank
/// expectation, or an outcome without text.
pub open spec fn characteristic_refusal(form: CharacteristicForm) -> Option<Seq<char>> {
    if is_blank(form.name@) {
        Some("Characteristic name cannot be empty"@)
    } else if is_blank(form.before_text@) {
        Some("Before text cannot be empty"@)
    } else if form.has_after && is_blank(form.after_text@) {
        Some("After text cannot be empty; Ctrl+x clears it"@)
    } else {
        None
    }
}

/// The index that stays selected after the element at `index` of a list is removed,
/// leaving `len` elements: the same place, or the new last one, or none when empty.
pub open spec fn kept_index(index: int, len: int) -> Option<usize> {
    if len == 0 {
        None
    } else {
        Some(min_int(index, len - 1) as usize)
    }
}

/// The index that a selection falls back to when a list of `len` elements has lost the
/// selected one: the same place, or the last one, or the first in an empty list.
pub open spec fn fallback_index(index: int, len: int) -> usize {
    if len == 0 {
        0
    } else {
        min_int(index, len - 1) as usize
    }
}

/// Whether `target` names something the document has.
pub open spec fn delete_applies(doc: Document, target: DeleteTarget) -> bool {
    match target {
        DeleteTarget::Topic(t) => t < doc.topics@.len(),
        DeleteTarget::Item(t, i) => t < doc.topics@.len() && i < doc.topics@[t as int].items@.len(),
        DeleteTarget::CalendarEntry(date, e) => {
            let days = doc.calendar.days@;
            find_day(days, date) < days.len() && e < days[find_day(days, date)].entries@.len()
        },
        DeleteTarget::Judgement(j) => j < doc.judgements@.len(),
        DeleteTarget::Characteristic(j, c) => j < doc.judgements@.len() && c
            < doc.judgements@[j as int].characteristics@.len(),
    }
}

/// `mid` is `before` once `target` is removed, before the selections are checked again:
/// the document without it, the selection on its neighbour, and a message. Nothing
/// changes when the document does not have `target`.
pub open spec fn deleted(before: App, target: DeleteTarget, mid: App) -> bool {
    let doc = before.document;
    if !delete_applies(doc, target) {
        mid == before
    } else {
        match target {
            DeleteTarget::Topic(t) => {
                &&& mid.document.topics@ == doc.topics@.remove(t as int)
                &&& mid.document == (Document { topics: mid.document.topics, ..doc })
                &&& shows(mid, "Topic deleted"@)
                &&& mid == (App {
                    document: mid.document,
                    selected_topic: fallback_index(t as int, doc.topics@.len() - 1),
                    selected_item: None,
                    status: mid.status,
                    ..before
                })
            },
            DeleteTarget::Item(t, i) => {
                let items = doc.topics@[t as int].items@.remove(i as int);
                &&& items_replaced(doc.topics@, mid.document.topics@, t as int, items)
                &&& mid.document == (Document { topics: mid.document.topics, ..doc })
                &&& shows(mid, "Entry deleted"@)
                &&& mid == (App {
                    document: mid.document,
                    selected_topic: t,
                    selected_item: kept_index(i as int, items.len() as int),
                    status: mid.status,
                    ..before
                })
            },
            DeleteTarget::CalendarEntry(date, e) => {
                let days = doc.calendar.days@;
                let f = find_day(days, date);
                let entries = days[f].entries@.remove(e as int);
                &&& exists|day: CalendarDay|
                    #![trigger day_cleared(days, mid.document.calendar.days@, f, day)]
                    day.date == days[f].date && day.mood == days[f].mood && day.entries@ == entries
                        && day_cleared(days, mid.document.calendar.days@, f, day)
                &&& mid.document == (Document { calendar: mid.document.calendar, ..doc })
                &&& shows(mid, "Calendar entry deleted"@)
                &&& mid == (App {
                    document: mid.document,
                    selected_calendar_entry: kept_index(e as int, entries.len() as int),
                    status: mid.status,
                    ..before
                })
            },
            DeleteTarget::Judgement(j) => {
                &&& mid.document.judgements@ == doc.judgements@.remove(j as int)
                &&& mid.document == (Document { judgements: mid.document.judgements, ..doc })
                &&& shows(mid, "Judgement deleted"@)
                &&& mid == (App {
                    document: mid.document,
                    selected_judgement: fallback_index(j as int, doc.judgements@.len() - 1),
                    selected_characteristic: None,
                    judgement_focus: JudgementFocus::Judgements,
                    status: mid.status,
                    ..before
                })
            },
            DeleteTarget::Characteristic(j, c) => {
                let cs = doc.judgements@[j as int].characteristics@.remove(c as int);
                &&& characteristics_replaced(doc.judgements@, mid.document.judgements@, j as int, cs)
                &&& mid.document == (Document { judgements: mid.document.judgements, ..doc })
                &&& shows(mid, "Characteristic deleted"@)
                &&& mid == (App {
                    document: mid.document,
                    selected_judgement: j,
                    selected_characteristic: kept_index(c as int, cs.len() as int),
                    status: mid.status,
                    ..before
                })
            },
        }
    }
}

/// `item` with its check mark flipped.
pub open spec fn flipped(item: Item) -> Item {
    Item { done: !item.done, ..item }
}

/// The status line for a check mark.
pub open spec fn check_text(done: bool) -> Seq<char> {
    if done {
        "Checked"@
    } else {
        "Unchecked"@
    }
}

/// The index one step from `index` in a list of `len` when that step stays inside it.
pub open spec fn step_within(index: int, len: int, direction: int) -> Option<int> {
    if direction < 0 {
        if index > 0 { Some(index - 1) } else { None }
    } else if index + 1 < len {
        Some(index + 1)
    } else {
        None
    }
}

/// `s` with the element at `index` swapped with its neighbour at `destination`.
pub open spec fn swapped_with<T>(s: Seq<T>, index: int, destination: int) -> Seq<T> {
    if destination < index {
        swapped(s, destination)
    } else {
        swapped(s, index)
    }
}

/// Replacing the items of one topic by filled items keeps the topics valid.
pub proof fn lemma_items_replaced_ok(before: Seq<Topic>, after: Seq<Topic>, t: int, items: Seq<Item>)
    requires
        topics_ok(before),
        items_replaced(before, after, t, items),
        items_filled(items),
    ensures
        topics_ok(after),
{
    assert forall|k: int| 0 <= k < after.len() implies topic_ok(#[trigger] after[k]) by {
        if k != t {
            assert(after[k] == before[k]);
        } else {
            assert(topic_ok(before[t]));
        }
    }
}

/// Replacing the entries of one day by filled entries keeps the days valid when the day
/// still records something.
pub proof fn lemma_entries_replaced_ok(
    before: Seq<CalendarDay>,
    after: Seq<CalendarDay>,
    f: int,
    entries: Seq<Item>,
)
    requires
        days_ok(before),
        entries_replaced(before, after, f, entries),
        items_filled(entries),
        entries.len() > 0 || before[f].mood is Some,
    ensures
        days_ok(after),
{
    crate::model::lemma_days_ok(before);
    assert(day_complete(before[f]));
    assert(after =~= before.update(f, after[f]));
    lemma_days_update(before, f, after[f]);
}

/// Replacing the characteristics of one judgement by complete ones keeps the judgements
/// valid.
pub proof fn lemma_characteristics_replaced_ok(
    before: Seq<Judgement>,
    after: Seq<Judgement>,
    j: int,
    cs: Seq<Characteristic>,
)
    requires
        judgements_ok(before),
        characteristics_replaced(before, after, j, cs),
        forall|k: int| 0 <= k < cs.len() ==> characteristic_ok(#[trigger] cs[k]),
    ensures
        judgements_ok(after),
{
    assert forall|k: int| 0 <= k < after.len() implies judgement_ok(#[trigger] after[k]) by {
        if k != j {
            assert(after[k] == before[k]);
        } else {
            assert(judgement_ok(before[j]));
        }
    }
}

/// Flipping a check mark or swapping neighbours keeps every item filled.
pub proof fn lemma_items_rearranged(items: Seq<Item>, i: int, d: int)
    requires
        items_filled(items),
        0 <= i < items.len(),
    ensures
        items_filled(items.update(i, flipped(items[i]))),
        0 <= d < items.len() && (d == i - 1 || d == i + 1) ==> items_filled(swapped_with(items, i, d)),
{
    let u = items.update(i, flipped(items[i]));
    assert forall|k: int| 0 <= k < u.len() implies !crate::text::is_blank(#[trigger] u[k].text@) by {
        assert(u[k].text == items[k].text);
    }
    if 0 <= d < items.len() && (d == i - 1 || d == i + 1) {
        let w = swapped_with(items, i, d);
        let low = if d < i { d } else { i };
        assert forall|k: int| 0 <= k < w.len() implies !crate::text::is_blank(#[trigger] w[k].text@) by {
            if k == low {
                assert(w[k] == items[low + 1]);
            } else if k == low + 1 {
                assert(w[k] == items[low]);
            } else {
                assert(w[k] == items[k]);
            }
        }
    }
}

/// The line of status text that a check mark shows.
fn check_message(done: bool) -> (message: String)
    ensures
        message@ == check_text(done),
{
    if done {
        String::from_str("Checked")
    } else {
        String::from_str("Unchecked")
    }
}

/// `after` is `before` after the check mark of the selected item is flipped, if there is one.
pub open spec fn item_toggled(before: App, after: App, changed: bool) -> bool {
    &&& changed == (before.selected_item matches Some(i) && before.selected_topic
        < before.document.topics@.len() && i < before.document.topics@[before.selected_topic as int].items@.len())
    &&& !changed ==> after == before
    &&& changed ==> ({
        let t = before.selected_topic as int;
        let i = before.selected_item->0 as int;
        let items = before.document.topics@[t].items@;
        &&& items_replaced(
            before.document.topics@,
            after.document.topics@,
            t,
            items.update(i, flipped(items[i])),
        )
        &&& after.document == (Document {
            topics: after.document.topics,
            ..before.document
        })
        &&& shows(after, check_text(!items[i].done))
        &&& after == (App {
            document: after.document,
            status: after.status,
            ..before
        })
    })
}

/// `after` is `before` after the check mark of the selected entry is flipped, if there is one.
pub open spec fn entry_toggled(before: App, after: App, changed: bool) -> bool {
    &&& changed == (before.selected_calendar_entry matches Some(e) && e
        < selected_entry_count(before))
    &&& !changed ==> after == before
    &&& changed ==> ({
        let days = before.document.calendar.days@;
        let f = find_day(days, before.selected_date);
        let e = before.selected_calendar_entry->0 as int;
        let entries = days[f].entries@;
        &&& entries_replaced(
            days,
            after.document.calendar.days@,
            f,
            entries.update(e, flipped(entries[e])),
        )
        &&& after.document == (Document {
            calendar: after.document.calendar,
            ..before.document
        })
        &&& shows(after, check_text(!entries[e].done))
        &&& after == (App {
            document: after.document,
            status: after.status,
            ..before
        })
    })
}

/// `after` is `before` after the selected item moves one place within its topic.
pub open spec fn item_moved(before: App, after: App, direction: isize, changed: bool) -> bool {
    &&& changed == (before.selected_item matches Some(i) && before.selected_topic
        < before.document.topics@.len() && step_within(
        i as int,
        before.document.topics@[before.selected_topic as int].items@.len() as int,
        direction as int,
    ) is Some)
    &&& !changed ==> after == before
    &&& changed ==> ({
        let t = before.selected_topic as int;
        let i = before.selected_item->0 as int;
        let items = before.document.topics@[t].items@;
        let d = step_within(i, items.len() as int, direction as int)->0;
        &&& items_replaced(
            before.document.topics@,
            after.document.topics@,
            t,
            swapped_with(items, i, d),
        )
        &&& after.document == (Document {
            topics: after.document.topics,
            ..before.document
        })
        &&& after.query@.len() == 0
        &&& after == (App {
            document: after.document,
            selected_item: Some(d as usize),
            query: after.query,
            ..before
        })
    })
}

/// `after` is `before` after the selected topic moves one place.
pub open spec fn topic_moved(before: App, after: App, direction: isize, changed: bool) -> bool {
    &&& changed == (before.document.topics@.len() > 0 && step_within(
        before.selected_topic as int,
        before.document.topics@.len() as int,
        direction as int,
    ) is Some)
    &&& !changed ==> after == before
    &&& changed ==> ({
        let topics = before.document.topics@;
        let t = before.selected_topic as int;
        let d = step_within(t, topics.len() as int, direction as int)->0;
        &&& after.document.topics@ == swapped_with(topics, t, d)
        &&& after.document == (Document {
            topics: after.document.topics,
            ..before.document
        })
        &&& after.query@.len() == 0
        &&& after == (App {
            document: after.document,
            selected_topic: d as usize,
            query: after.query,
            ..before
        })
    })
}

/// `after` is `before` after the selected judgement or characteristic moves one place.
pub open spec fn judgement_selection_moved(before: App, after: App, direction: isize, changed: bool) -> bool {
    &&& before.judgement_focus is Judgements ==> ({
        let js = before.document.judgements@;
        let j = before.selected_judgement as int;
        &&& changed == (js.len() > 0 && step_within(j, js.len() as int, direction as int) is Some)
        &&& !changed ==> after == before
        &&& changed ==> ({
            let d = step_within(j, js.len() as int, direction as int)->0;
            &&& after.document.judgements@ == swapped_with(js, j, d)
            &&& after.document == (Document {
                judgements: after.document.judgements,
                ..before.document
            })
            &&& after == (App {
                document: after.document,
                selected_judgement: d as usize,
                ..before
            })
        })
    })
    &&& before.judgement_focus is Characteristics ==> ({
        let js = before.document.judgements@;
        let j = before.selected_judgement as int;
        let c = before.selected_characteristic->0 as int;
        &&& changed == (before.selected_characteristic is Some && j < js.len() && step_within(
            c,
            js[j].characteristics@.len() as int,
            direction as int,
        ) is Some)
        &&& !changed ==> after == before
        &&& changed ==> ({
            let cs = js[j].characteristics@;
            let d = step_within(c, cs.len() as int, direction as int)->0;
            &&& characteristics_replaced(
                js,
                after.document.judgements@,
                j,
                swapped_with(cs, c, d),
            )
            &&& after.document == (Document {
                judgements: after.document.judgements,
                ..before.document
            })
            &&& after == (App {
                document: after.document,
                selected_characteristic: Some(d as usize),
                ..before
            })
        })
    })
}

/// `after` is `before` after the selected entry moves one place within its day.
pub open spec fn entry_moved(before: App, after: App, direction: isize, changed: bool) -> bool {
    &&& ({
        let days = before.document.calendar.days@;
        let f = find_day(days, before.selected_date);
        let e = before.selected_calendar_entry->0 as int;
        &&& changed == (before.calendar_focus is Entries
            && before.selected_calendar_entry is Some && f < days.len() && step_within(
            e,
            days[f].entries@.len() as int,
            direction as int,
        ) is Some)
        &&& !changed ==> after == before
        &&& changed ==> ({
            let entries = days[f].entries@;
            let d = step_within(e, entries.len() as int, direction as int)->0;
            &&& entries_replaced(
                days,
                after.document.calendar.days@,
                f,
                swapped_with(entries, e, d),
            )
            &&& after.document == (Document {
                calendar: after.document.calendar,
                ..before.document
            })
            &&& after == (App {
                document: after.document,
                selected_calendar_entry: Some(d as usize),
                ..before
            })
        })
    })
}

/// `after` is `before` after the status chosen in `picker` is saved.
pub open spec fn status_committed(before: App, after: App, picker: StatusPicker, result: HandleResult) -> bool {
    &&& !result.quit
    &&& result.sync_action is None
    &&& result.changed == (picker.topic < before.document.topics@.len()
        && before.document.topics@[picker.topic as int].status != picker.selected)
    &&& !result.changed ==> after == before
    &&& result.changed ==> ({
        let t = picker.topic as int;
        &&& after.document.topics@ == before.document.topics@.update(
            t,
            Topic { status: picker.selected, ..before.document.topics@[t] },
        )
        &&& after.document == (Document {
            topics: after.document.topics,
            ..before.document
        })
        &&& shows(after, status_text(picker.selected))
        &&& after == (App {
            document: after.document,
            status: after.status,
            ..before
        })
    })
}

/// `after` is `before` after the day on `date` is rated `mood`, or its rating cleared.
pub open spec fn mood_committed(before: App, after: App, date: Date, mood: Option<MoodRating>, result: HandleResult) -> bool {
    &&& !result.quit
    &&& result.sync_action is None
    &&& result.changed == (day_mood(before.document.calendar.days@, date) != mood)
    &&& !result.changed ==> after == before
    &&& result.changed ==> after.document == (Document {
        calendar: after.document.calendar,
        ..before.document
    })
    &&& result.changed ==> after == (App {
        document: after.document,
        status: after.status,
        ..before
    })
    &&& result.changed && mood is Some ==> day_set(
        before.document.calendar.days@,
        after.document.calendar.days@,
        date,
        mood,
        day_entries(before.document.calendar.days@, date),
    ) && shows(after, mood_saved_text(mood->0))
    &&& result.changed && mood is None ==> ({
        let days = before.document.calendar.days@;
        let f = find_day(days, date);
        &&& f < days.len()
        &&& day_cleared(
            days,
            after.document.calendar.days@,
            f,
            CalendarDay { mood: None, ..days[f] },
        )
        &&& shows(after, "Mood rating cleared"@)
    })
}

/// `after` is `before` after the text of `editor` is saved, or refused.
pub open spec fn editor_committed(before: App, after: App, editor: Editor, changed: bool) -> bool {
    &&& is_blank(editor.input@) ==> !changed && shows(after, "Text cannot be empty"@)
        && after == (App { status: after.status, ..before })
    &&& !is_blank(editor.input@) ==> changed == edit_applies(before.document, editor.kind)
    &&& !is_blank(editor.input@) && !changed ==> after == before
    &&& changed ==> edit_saved(before, after, editor.kind, trim(editor.input@))
}

/// `after` is `before` after a judgement form is saved, or refused.
pub open spec fn judgement_form_committed(before: App, after: App, form: JudgementForm, result: Option<bool>) -> bool {
    &&& result != Some(true) ==> after.document == before.document
    &&& is_blank(form.name@) ==> result is None && shows(after, "Judgement name cannot be empty"@)
        && after == (App { status: after.status, ..before })
    &&& !is_blank(form.name@) ==> ({
        let js = before.document.judgements@;
        let name = trim(form.name@);
        let follow_up = trim(form.follow_up@);
        match form.target {
            Some(t) => {
                &&& t >= js.len() ==> result is None && after == before
                &&& t < js.len() && js[t as int].name@ == name && js[t as int].follow_up@ == follow_up
                    ==> result == Some(false) && after == before
                &&& t < js.len() && !(js[t as int].name@ == name && js[t as int].follow_up@ == follow_up)
                    ==> result == Some(true) && ({
                    let updated = after.document.judgements@;
                    &&& updated.len() == js.len()
                    &&& forall|k: int| 0 <= k < js.len() && k != t ==> #[trigger] updated[k] == js[k]
                    &&& updated[t as int].name@ == name
                    &&& updated[t as int].follow_up@ == follow_up
                    &&& updated[t as int].characteristics == js[t as int].characteristics
                    &&& after.document == (Document {
                        judgements: after.document.judgements,
                        ..before.document
                    })
                    &&& shows(after, "Judgement saved"@)
                    &&& after == (App {
                        document: after.document,
                        selected_judgement: t,
                        status: after.status,
                        ..before
                    })
                })
            },
            None => result == Some(true) && ({
                let updated = after.document.judgements@;
                &&& updated.len() == js.len() + 1
                &&& forall|k: int| 0 <= k < js.len() ==> #[trigger] updated[k] == js[k]
                &&& updated[js.len() as int].name@ == name
                &&& updated[js.len() as int].follow_up@ == follow_up
                &&& updated[js.len() as int].characteristics@.len() == 0
                &&& after.document == (Document {
                    judgements: after.document.judgements,
                    ..before.document
                })
                &&& shows(after, "Judgement saved"@)
                &&& after == (App {
                    document: after.document,
                    selected_judgement: js.len() as usize,
                    selected_characteristic: None,
                    status: after.status,
                    ..before
                })
            }),
        }
    })
}

/// `after` is `before` after a characteristic form is saved, or refused.
pub open spec fn characteristic_form_committed(before: App, after: App, form: CharacteristicForm, result: Option<bool>) -> bool {
    &&& result != Some(true) ==> after.document == before.document
    &&& characteristic_refusal(form) matches Some(message) ==> result is None && shows(
        after,
        message,
    ) && after == (App { status: after.status, ..before })
    &&& characteristic_refusal(form) is None ==> ({
        let js = before.document.judgements@;
        let j = form.judgement as int;
        &&& j >= js.len() ==> result is None && after == before
        &&& j < js.len() ==> ({
            let cs = js[j].characteristics@;
            let updated = after.document.judgements@;
            match form.target {
                Some(t) => {
                    &&& t >= cs.len() ==> result is None && after == before
                    &&& t < cs.len() && described_by(cs[t as int], form) ==> result == Some(false)
                        && after == before
                    &&& t < cs.len() && !described_by(cs[t as int], form) ==> result == Some(true)
                        && characteristics_replaced(js, updated, j, updated[j].characteristics@)
                        && updated[j].characteristics@.len() == cs.len()
                        && (forall|k: int| 0 <= k < cs.len() && k != t ==> #[trigger] updated[j].characteristics@[k] == cs[k])
                        && described_by(updated[j].characteristics@[t as int], form)
                        && after == (App {
                            document: after.document,
                            selected_judgement: form.judgement,
                            selected_characteristic: Some(t),
                            judgement_focus: JudgementFocus::Characteristics,
                            status: after.status,
                            ..before
                        })
                },
                None => {
                    &&& result == Some(true)
                    &&& characteristics_replaced(js, updated, j, updated[j].characteristics@)
                    &&& updated[j].characteristics@.len() == cs.len() + 1
                    &&& forall|k: int| 0 <= k < cs.len() ==> #[trigger] updated[j].characteristics@[k] == cs[k]
                    &&& described_by(updated[j].characteristics@[cs.len() as int], form)
                    &&& after == (App {
                        document: after.document,
                        selected_judgement: form.judgement,
                        selected_characteristic: Some(cs.len() as usize),
                        judgement_focus: JudgementFocus::Characteristics,
                        status: after.status,
                        ..before
                    })
                },
            }
        })
        &&& result == Some(true) ==> after.document == (Document {
            judgements: after.document.judgements,
            ..before.document
        }) && shows(
            after,
            if form.has_after {
                "Characteristic verified"@
            } else {
                "Characteristic saved"@
            },
        )
    })
}

/// `after` is `before` with the form that edits the selected judgement open, if one is selected.
pub open spec fn judgement_form_opened(before: App, after: App) -> bool {
    &&& before.selected_judgement >= before.document.judgements@.len() ==> after == before
    &&& before.selected_judgement < before.document.judgements@.len() ==> ({
        let j = before.document.judgements@[before.selected_judgement as int];
        after == (App {
            mode: Mode::EditingJudgement(JudgementForm {
                target: Some(before.selected_judgement),
                name: j.name,
                name_cursor: j.name@.len() as usize,
                follow_up: j.follow_up,
                follow_up_cursor: j.follow_up@.len() as usize,
                field: JudgementField::Name,
            }),
            ..before
        })
    })
}

/// `after` is `before` with the form that edits the selected characteristic open, if one is selected.
pub open spec fn characteristic_form_opened(before: App, after: App, field: CharacteristicField) -> bool {
    &&& chosen_characteristic(before) is None ==> after == before
    &&& chosen_characteristic(before) matches Some(ch) ==> ({
        let c = before.selected_characteristic->0;
        &&& after == (App { mode: after.mode, ..before })
        &&& after.mode matches Mode::EditingCharacteristic(f) && {
            &&& f.judgement == before.selected_judgement
            &&& f.target == Some(c)
            &&& f.name == ch.name
            &&& f.name_cursor == ch.name@.len()
            &&& f.before_text == ch.before.text
            &&& f.before_cursor == ch.before.text@.len()
            &&& f.before_rating == ch.before.rating
            &&& f.after_text@ == match ch.after {
                Some(o) => o.text@,
                None => Seq::<char>::empty(),
            }
            &&& f.after_cursor == f.after_text@.len()
            &&& f.after_rating == match ch.after {
                Some(o) => o.rating,
                None => Sentiment::Neutral,
            }
            &&& f.has_after == ch.after is Some
            &&& f.field == field
        }
    })
}

/// `after` is `before` after `target` is deleted and the selections checked again.
pub open spec fn target_deleted(before: App, after: App, target: DeleteTarget) -> bool {
    &&& exists|mid: App|
        #![trigger deleted(before, target, mid)]
        deleted(before, target, mid) && after == with_judgement_selection(
            with_visible_selection(mid),
        )
}

/// `after` is `before` after taking `document` from sync.
pub open spec fn document_applied(before: App, after: App, document: Document) -> bool {
    &&& ({
        let topics = document.topics@;
        let clamped = App {
            document,
            selected_topic: fallback_index(before.selected_topic as int, topics.len() as int),
            selected_item: if topics.len() == 0 {
                None
            } else {
                match before.selected_item {
                    Some(i) => if i < topics[fallback_index(
                        before.selected_topic as int,
                        topics.len() as int,
                    ) as int].items@.len() {
                        Some(i)
                    } else {
                        None
                    },
                    None => None,
                }
            },
            ..before
        };
        &&& shows(after, "Updated from GitHub"@)
        &&& after == (App {
            status: after.status,
            ..with_judgement_selection(with_calendar_selection(with_visible_selection(clamped)))
        })
    })
}

impl App {
    /// Flips the check mark of the selected item, if an item is selected.
    pub fn toggle_selected(&mut self) -> (changed: bool)
        ensures
            old(self).selection_consistent() ==> final(self).selection_consistent(),
            old(self).document.is_valid() ==> final(self).document.is_valid(),
            item_toggled(*old(self), *final(self), changed),
    {
        let i = match self.selected_item {
            Some(i) => i,
            None => {
                return false;
            },
        };
        let t = self.selected_topic;
        if t >= self.document.topics.len() || i >= self.document.topics[t].items.len() {
            return false;
        }
        let ghost before = self.document.topics@;
        let done = !self.document.topics[t].items[i].done;
        self.document.topics[t].items[i].done = done;
        proof {
            assert(self.document.topics@[t as int].items@ =~= before[t as int].items@.update(
                i as int,
                flipped(before[t as int].items@[i as int]),
            ));
            if old(self).document.is_valid() {
                assert(topic_ok(before[t as int]));
                lemma_items_rearranged(before[t as int].items@, i as int, 0);
                lemma_items_replaced_ok(
                    before,
                    self.document.topics@,
                    t as int,
                    self.document.topics@[t as int].items@,
                );
            }
        }
        self.status = Some(check_message(done));
        true
    }

    /// Flips the check mark of the selected entry of the selected day, if one is selected.
    pub fn toggle_calendar_entry(&mut self) -> (changed: bool)
        ensures
            old(self).selection_consistent() ==> final(self).selection_consistent(),
            old(self).document.is_valid() ==> final(self).document.is_valid(),
            entry_toggled(*old(self), *final(self), changed),
    {
        proof {
            lemma_find_day(self.document.calendar.days@, self.selected_date);
        }
        let e = match self.selected_calendar_entry {
            Some(e) => e,
            None => {
                return false;
            },
        };
        let f = match self.document.calendar_day_index(self.selected_date) {
            Some(f) => f,
            None => {
                return false;
            },
        };
        if e >= self.document.calendar.days[f].entries.len() {
            return false;
        }
        let ghost before = self.document.calendar.days@;
        let done = !self.document.calendar.days[f].entries[e].done;
        self.document.calendar.days[f].entries[e].done = done;
        proof {
            assert(self.document.calendar.days@[f as int].entries@ =~= before[f as int].entries@.update(
                e as int,
                flipped(before[f as int].entries@[e as int]),
            ));
            lemma_day_in_place(before, self.document.calendar.days@, f as int, self.selected_date);
            if old(self).document.is_valid() {
                assert(crate::model::day_ok(before, f as int));
                lemma_items_rearranged(before[f as int].entries@, e as int, 0);
                lemma_entries_replaced_ok(
                    before,
                    self.document.calendar.days@,
                    f as int,
                    self.document.calendar.days@[f as int].entries@,
                );
            }
        }
        self.status = Some(check_message(done));
        true
    }

    /// Moves the selected item one place up (`direction < 0`) or down in its topic,
    /// keeping it selected and clearing the search.
    pub fn move_item(&mut self, direction: isize) -> (changed: bool)
        requires
            old(self).selected_item matches Some(i) ==> (old(self).selected_topic
                < old(self).document.topics@.len() ==> i < old(self).document.topics@[old(self).selected_topic as int].items@.len()),
        ensures
            old(self).selection_consistent() ==> final(self).selection_consistent(),
            old(self).document.is_valid() ==> final(self).document.is_valid(),
            item_moved(*old(self), *final(self), direction, changed),
    {
        let i = match self.selected_item {
            Some(i) => i,
            None => {
                return false;
            },
        };
        let t = self.selected_topic;
        if t >= self.document.topics.len() {
            return false;
        }
        let len = self.document.topics[t].items.len();
        let d = if direction < 0 {
            if i > 0 {
                i - 1
            } else {
                return false;
            }
        } else if i + 1 < len {
            i + 1
        } else {
            return false;
        };
        let ghost before = self.document.topics@;
        let low = if d < i { d } else { i };
        swap_adjacent(&mut self.document.topics[t].items, low);
        proof {
            assert forall|k: int| 0 <= k < before.len() && k != t implies #[trigger] self.document.topics@[k]
                == before[k] by {}
            if old(self).document.is_valid() {
                assert(topic_ok(before[t as int]));
                lemma_items_rearranged(before[t as int].items@, i as int, d as int);
                lemma_items_replaced_ok(
                    before,
                    self.document.topics@,
                    t as int,
                    self.document.topics@[t as int].items@,
                );
            }
        }
        self.selected_item = Some(d);
        self.query = String::new();
        true
    }

    /// Moves the selected topic one place left (`direction < 0`) or right, keeping it
    /// selected and clearing the search.
    pub fn move_topic(&mut self, direction: isize) -> (changed: bool)
        requires
            old(self).document.topics@.len() > 0 ==> old(self).selected_topic < old(self).document.topics@.len(),
        ensures
            old(self).selection_consistent() ==> final(self).selection_consistent(),
            old(self).document.is_valid() ==> final(self).document.is_valid(),
            topic_moved(*old(self), *final(self), direction, changed),
    {
        let len = self.document.topics.len();
        if len == 0 {
            return false;
        }
        let t = self.selected_topic;
        let d = if direction < 0 {
            if t > 0 {
                t - 1
            } else {
                return false;
            }
        } else if t + 1 < len {
            t + 1
        } else {
            return false;
        };
        let low = if d < t { d } else { t };
        let ghost before = self.document.topics@;
        swap_adjacent(&mut self.document.topics, low);
        proof {
            if old(self).document.is_valid() {
                crate::model::lemma_topics_edit(before, low as int, before[0]);
            }
        }
        self.selected_topic = d;
        self.query = String::new();
        true
    }

    /// Moves the selected judgement, or with the characteristics focused the selected
    /// characteristic, one place up (`direction < 0`) or down.
    pub fn move_judgement_selection(&mut self, direction: isize) -> (changed: bool)
        requires
            old(self).document.judgements@.len() > 0 ==> old(self).selected_judgement < old(self).document.judgements@.len(),
            old(self).selected_characteristic matches Some(c) ==> (old(self).selected_judgement
                < old(self).document.judgements@.len() ==> c < old(self).document.judgements@[old(self).selected_judgement as int].characteristics@.len()),
        ensures
            old(self).selection_consistent() ==> final(self).selection_consistent(),
            old(self).document.is_valid() ==> final(self).document.is_valid(),
            judgement_selection_moved(*old(self), *final(self), direction, changed),
    {
        match self.judgement_focus {
            JudgementFocus::Judgements => {
                let len = self.document.judgements.len();
                if len == 0 {
                    return false;
                }
                let j = self.selected_judgement;
                let d = if direction < 0 {
                    if j > 0 {
                        j - 1
                    } else {
                        return false;
                    }
                } else if j + 1 < len {
                    j + 1
                } else {
                    return false;
                };
                let low = if d < j { d } else { j };
                let ghost before = self.document.judgements@;
                swap_adjacent(&mut self.document.judgements, low);
                proof {
                    if old(self).document.is_valid() {
                        crate::model::lemma_judgements_edit(before, low as int, before[0]);
                    }
                }
                self.selected_judgement = d;
                true
            },
            JudgementFocus::Characteristics => {
                let c = match self.selected_characteristic {
                    Some(c) => c,
                    None => {
                        return false;
                    },
                };
                let j = self.selected_judgement;
                if j >= self.document.judgements.len() {
                    return false;
                }
                let len = self.document.judgements[j].characteristics.len();
                let d = if direction < 0 {
                    if c > 0 {
                        c - 1
                    } else {
                        return false;
                    }
                } else if c + 1 < len {
                    c + 1
                } else {
                    return false;
                };
                let ghost before = self.document.judgements@;
                let low = if d < c { d } else { c };
                swap_adjacent(&mut self.document.judgements[j].characteristics, low);
                proof {
                    assert forall|k: int| 0 <= k < before.len() && k != j implies #[trigger] self.document.judgements@[k]
                        == before[k] by {}
                    if old(self).document.is_valid() {
                        let cs = before[j as int].characteristics@;
                        assert(judgement_ok(before[j as int]));
                        assert(characteristic_ok(cs[0]));
                        crate::model::lemma_characteristics_edit(cs, low as int, cs[0]);
                        lemma_characteristics_replaced_ok(
                            before,
                            self.document.judgements@,
                            j as int,
                            self.document.judgements@[j as int].characteristics@,
                        );
                    }
                }
                self.selected_characteristic = Some(d);
                true
            },
        }
    }

    /// Moves the selected entry of the selected day one place up (`direction < 0`) or
    /// down, when the entries have the focus.
    pub fn move_calendar_entry(&mut self, direction: isize) -> (changed: bool)
        requires
            old(self).selected_calendar_entry matches Some(e) ==> e < selected_entry_count(
                *old(self),
            ),
        ensures
            old(self).selection_consistent() ==> final(self).selection_consistent(),
            old(self).document.is_valid() ==> final(self).document.is_valid(),
            entry_moved(*old(self), *final(self), direction, changed),
    {
        proof {
            lemma_find_day(self.document.calendar.days@, self.selected_date);
        }
        match self.calendar_focus {
            CalendarFocus::Entries => {},
            CalendarFocus::Grid => {
                return false;
            },
        }
        let e = match self.selected_calendar_entry {
            Some(e) => e,
            None => {
                return false;
            },
        };
        let f = match self.document.calendar_day_index(self.selected_date) {
            Some(f) => f,
            None => {
                return false;
            },
        };
        let len = self.document.calendar.days[f].entries.len();
        let d = if direction < 0 {
            if e > 0 {
                e - 1
            } else {
                return false;
            }
        } else if e + 1 < len {
            e + 1
        } else {
            return false;
        };
        let ghost before = self.document.calendar.days@;
        let low = if d < e { d } else { e };
        swap_adjacent(&mut self.document.calendar.days[f].entries, low);
        proof {
            assert forall|k: int| 0 <= k < before.len() && k != f implies #[trigger] self.document.calendar.days@[k]
                == before[k] by {}
            lemma_day_in_place(before, self.document.calendar.days@, f as int, self.selected_date);
            if old(self).document.is_valid() {
                assert(crate::model::day_ok(before, f as int));
                lemma_items_rearranged(before[f as int].entries@, e as int, d as int);
                lemma_entries_replaced_ok(
                    before,
                    self.document.calendar.days@,
                    f as int,
                    self.document.calendar.days@[f as int].entries@,
                );
            }
        }
        self.selected_calendar_entry = Some(d);
        true
    }

    /// Gives topic `picker.topic` the status chosen in the picker; nothing changes when the
    /// topic is gone or already has that status.
    pub fn commit_status(&mut self, picker: StatusPicker) -> (result: HandleResult)
        ensures
            old(self).selection_consistent() ==> final(self).selection_consistent(),
            old(self).document.is_valid() ==> final(self).document.is_valid(),
            status_committed(*old(self), *final(self), picker, result),
    {
        let t = picker.topic;
        if t >= self.document.topics.len() {
            return HandleResult::none();
        }
        if self.document.topics[t].status == picker.selected {
            return HandleResult::none();
        }
        let ghost before = self.document.topics@;
        self.document.topics[t].status = picker.selected;
        proof {
            assert(self.document.topics@ =~= before.update(
                t as int,
                Topic { status: picker.selected, ..before[t as int] },
            ));
            if old(self).document.is_valid() {
                assert forall|k: int| 0 <= k < self.document.topics@.len() implies topic_ok(
                    #[trigger] self.document.topics@[k],
                ) by {
                    assert(topic_ok(before[k]));
                }
            }
        }
        let mut message = String::from_str("Identity is now ");
        message.append(picker.selected.label());
        self.status = Some(message);
        HandleResult::with_change(true)
    }

    /// Rates the day on `date` with `mood`, or clears its rating with `None`; a day that
    /// is left with neither entries nor a rating is removed. Nothing changes when the day
    /// already has that rating.
    pub fn commit_mood(&mut self, date: Date, mood: Option<MoodRating>) -> (result: HandleResult)
        requires
            date.is_valid(),
        ensures
            old(self).selection_consistent() && date == old(self).selected_date ==> final(self).selection_consistent(),
            old(self).document.is_valid() ==> final(self).document.is_valid(),
            mood_committed(*old(self), *final(self), date, mood, result),
    {
        proof {
            lemma_find_day(self.document.calendar.days@, date);
        }
        let current = match self.document.calendar_day(date) {
            Some(day) => day.mood,
            None => None,
        };
        let same = match (current, mood) {
            (Some(a), Some(b)) => a == b,
            (None, None) => true,
            _ => false,
        };
        if same {
            return HandleResult::none();
        }
        let ghost before = self.document.calendar.days@;
        match mood {
            Some(m) => {
                let day = self.document.ensure_calendar_day(date);
                let ghost initial = *day;
                day.mood = Some(m);
                proof {
                    let f = find_day(before, date);
                    let after = self.document.calendar.days@;
                    if f < before.len() {
                        assert(after == before.update(f, *day));
                        assert(day.entries == before[f].entries);
                        assert(day_set(before, after, date, mood, day_entries(before, date)));
                        lemma_day_in_place(before, after, f, self.selected_date);
                    }
                    if f == before.len() {
                        let sorted = choose|sorted: Seq<CalendarDay>|
                            #![trigger crate::model::stable_date_sort_of(before.push(initial), sorted)]
                            inserted_day(before, initial, sorted, *day, self.document.calendar.days@);
                        assert(inserted_day(before, initial, sorted, *day, self.document.calendar.days@));
                        assert(initial.date == date);
                        assert(initial.mood is None);
                        assert(initial.entries@.len() == 0);
                        assert(day.entries == initial.entries);
                        assert(day_entries(before, date) == Seq::<Item>::empty());
                        assert(day.entries@ =~= day_entries(before, date));
                        assert(day_set(before, after, date, mood, day_entries(before, date)));
                    }
                    if old(self).document.is_valid() {
                        if f < before.len() {
                            assert(crate::model::day_ok(before, f));
                        }
                        lemma_day_set_ok(
                            before,
                            self.document.calendar.days@,
                            date,
                            mood,
                            day_entries(before, date),
                        );
                    }
                }
                let mut message = String::from_str("Mood saved: ");
                describe_number(&mut message, m.value() as u64);
                message.append(" — ");
                message.append(m.label());
                self.status = Some(message);
            },
            None => {
                match self.document.calendar_day_mut(date) {
                    Some(day) => {
                        day.mood = None;
                    },
                    None => {},
                }
                let ghost mid = self.document.calendar.days@;
                proof {
                    let f = find_day(before, date);
                    assert(f < before.len());
                    assert(mid == before.update(f, CalendarDay { mood: None, ..before[f] }));
                }
                self.document.remove_calendar_day_if_empty(date);
                proof {
                    let f = find_day(before, date);
                    let cleared = CalendarDay { mood: None, ..before[f] };
                    assert(cleared.date == date);
                    let u = before.update(f, cleared);
                    assert(mid == u);
                    let e = find_empty_day_from(u, date, 0);
                    crate::model::lemma_find_empty_day_from(u, date, 0);
                    lemma_day_in_place(before, u, f, date);
                    if e < u.len() {
                        assert(self.document.calendar.days@ == u.remove(e));
                        if e != f {
                            assert(u[f].date == date);
                            assert(e > f);
                            lemma_find_day_kept(u, self.document.calendar.days@, date);
                        }
                    } else {
                        assert(self.document.calendar.days@ == u);
                    }
                    assert(day_cleared(before, self.document.calendar.days@, f, cleared));
                    if old(self).document.is_valid() {
                        assert(crate::model::day_ok(before, f));
                        lemma_days_clear(before, f, CalendarDay { mood: None, ..before[f] });
                    }
                }
                self.status = Some(String::from_str("Mood rating cleared"));
            },
        }
        HandleResult::with_change(true)
    }

    /// Saves the text of an editor: the trimmed text names a new identity, renames one,
    /// adds or changes an item, or adds or changes an entry of a day. Blank text is refused
    /// with a message, and nothing is saved when what the editor edits is gone.
    pub fn commit_editor(&mut self, editor: &Editor) -> (changed: bool)
        requires
            editor.kind matches EditKind::AddCalendarEntry(d) ==> d.is_valid(),
        ensures
            old(self).selection_consistent() ==> final(self).selection_consistent(),
            old(self).document.is_valid() ==> final(self).document.is_valid(),
            editor_committed(*old(self), *final(self), *editor, changed),
    {
        let value = trimmed(editor.input.as_str());
        proof {
            lemma_trim(editor.input@);
            lemma_find_day(self.document.calendar.days@, match editor.kind {
                EditKind::AddCalendarEntry(d) => d,
                EditKind::EditCalendarEntry(d, _) => d,
                _ => self.selected_date,
            });
        }
        if value.as_str().unicode_len() == 0 {
            self.status = Some(String::from_str("Text cannot be empty"));
            return false;
        }
        let ghost before = self.document;
        match editor.kind {
            EditKind::NewTopic => {
                self.document.topics.push(Topic {
                    name: value,
                    status: IdentityStatus::Active,
                    items: Vec::new(),
                });
                self.selected_topic = self.document.topics.len() - 1;
                self.selected_item = None;
                proof {
                    let topics = self.document.topics@;
                    assert(topic_ok(topics[topics.len() - 1]));
                    if before.is_valid() {
                        crate::model::lemma_topics_edit(before.topics@, 0, topics[topics.len() - 1]);
                        assert(topics =~= before.topics@.push(topics[topics.len() - 1]));
                    }
                }
            },
            EditKind::RenameTopic(t) => {
                if t >= self.document.topics.len() {
                    return false;
                }
                self.document.topics[t].name = value;
                proof {
                    let topics = self.document.topics@;
                    if before.is_valid() {
                        assert(topic_ok(before.topics@[t as int]));
                        crate::model::lemma_topics_edit(before.topics@, t as int, topics[t as int]);
                        assert(topics =~= before.topics@.update(t as int, topics[t as int]));
                    }
                }
            },
            EditKind::AddItem(t) => {
                if t >= self.document.topics.len() {
                    return false;
                }
                self.document.topics[t].items.push(Item { text: value, done: false });
                let count = self.document.topics[t].items.len();
                self.selected_topic = t;
                self.selected_item = Some(count - 1);
                proof {
                    let topics = self.document.topics@;
                    assert forall|k: int| 0 <= k < before.topics@.len() && k != t implies #[trigger] topics[k]
                        == before.topics@[k] by {}
                    if before.is_valid() {
                        assert(topic_ok(before.topics@[t as int]));
                        lemma_items_text(before.topics@[t as int].items@, topics[t as int].items@, 0, value@);
                        lemma_items_replaced_ok(before.topics@, topics, t as int, topics[t as int].items@);
                    }
                }
            },
            EditKind::EditItem(t, i) => {
                if t >= self.document.topics.len() || i >= self.document.topics[t].items.len() {
                    return false;
                }
                self.document.topics[t].items[i].text = value;
                proof {
                    let topics = self.document.topics@;
                    assert forall|k: int| 0 <= k < before.topics@.len() && k != t implies #[trigger] topics[k]
                        == before.topics@[k] by {}
                    if before.is_valid() {
                        assert(topic_ok(before.topics@[t as int]));
                        lemma_items_text(before.topics@[t as int].items@, topics[t as int].items@, i as int, value@);
                        lemma_items_replaced_ok(before.topics@, topics, t as int, topics[t as int].items@);
                    }
                }
            },
            EditKind::AddCalendarEntry(date) => {
                let ghost days = before.calendar.days@;
                let ghost text = value@;
                let day = self.document.ensure_calendar_day(date);
                let ghost initial = *day;
                day.entries.push(Item { text: value, done: false });
                let count = day.entries.len();
                proof {
                    let f = find_day(days, date);
                    let after = self.document.calendar.days@;
                    assert(item_appended(day_entries(days, date), day.entries@, text));
                    if f == days.len() {
                        let sorted = choose|sorted: Seq<CalendarDay>|
                            #![trigger crate::model::stable_date_sort_of(days.push(initial), sorted)]
                            inserted_day(days, initial, sorted, *day, after);
                        assert(inserted_day(days, initial, sorted, *day, after));
                        assert(initial.date == date);
                        assert(day.mood == day_mood(days, date));
                        let g = find_day(sorted, date);
                        lemma_find_day(sorted, date);
                        lemma_day_in_place(sorted, after, g, date);
                    } else {
                        assert(after == days.update(f, *day));
                        lemma_day_in_place(days, after, f, date);
                    }
                    assert(day_set(days, after, date, day_mood(days, date), day.entries@));
                    if before.is_valid() {
                        if f < days.len() {
                            assert(crate::model::day_ok(days, f));
                        }
                        lemma_items_text(day_entries(days, date), day.entries@, 0, text);
                        lemma_day_set_ok(days, after, date, day_mood(days, date), day.entries@);
                    }
                }
                self.selected_date = date;
                self.selected_calendar_entry = Some(count - 1);
                self.calendar_focus = CalendarFocus::Entries;
                proof {
                    let after = self.document.calendar.days@;
                    assert(find_day(after, date) < after.len());
                    assert(after[find_day(after, date)].entries@.len() == count);
                    assert(self.entry_selection_ok());
                }
            },
            EditKind::EditCalendarEntry(date, e) => {
                let f = match self.document.calendar_day_index(date) {
                    Some(f) => f,
                    None => {
                        return false;
                    },
                };
                if e >= self.document.calendar.days[f].entries.len() {
                    return false;
                }
                self.document.calendar.days[f].entries[e].text = value;
                proof {
                    let days = self.document.calendar.days@;
                    assert forall|k: int| 0 <= k < before.calendar.days@.len() && k != f implies #[trigger] days[k]
                        == before.calendar.days@[k] by {}
                    lemma_day_in_place(before.calendar.days@, days, f as int, self.selected_date);
                    let g = find_day(days, self.selected_date);
                    lemma_find_day(days, self.selected_date);
                    if g < days.len() && g != f {
                        assert(days[g] == before.calendar.days@[g]);
                    }
                    assert(selected_entry_count(*self) == selected_entry_count(*old(self)));
                    if before.is_valid() {
                        assert(crate::model::day_ok(before.calendar.days@, f as int));
                        lemma_items_text(before.calendar.days@[f as int].entries@, days[f as int].entries@, e as int, value@);
                        lemma_entries_replaced_ok(before.calendar.days@, days, f as int, days[f as int].entries@);
                    }
                }
            },
            EditKind::Search => {
                return false;
            },
        }
        self.query = String::new();
        self.status = Some(String::from_str("Saved"));
        proof {
            if old(self).selection_consistent() {
                assert(self.topic_selection_ok());
                assert(self.entry_selection_ok());
                assert(self.judgement_selection_ok());
            }
        }
        true
    }

    /// Saves a judgement form: its trimmed name and follow-up change the judgement it
    /// edits, or make a new one. A blank name is refused with a message (`None`), as is a
    /// form whose judgement is gone; `Some(false)` when nothing would change.
    pub fn commit_judgement_form(&mut self, form: &JudgementForm) -> (result: Option<bool>)
        ensures
            old(self).selection_consistent() && (form.target matches Some(t) ==> t == old(self).selected_judgement) ==> final(self).selection_consistent(),
            old(self).document.is_valid() ==> final(self).document.is_valid(),
            judgement_form_committed(*old(self), *final(self), *form, result),
    {
        let name = trimmed(form.name.as_str());
        proof {
            lemma_trim(form.name@);
        }
        if name.as_str().unicode_len() == 0 {
            self.status = Some(String::from_str("Judgement name cannot be empty"));
            return None;
        }
        let follow_up = trimmed(form.follow_up.as_str());
        let ghost before = self.document.judgements@;
        match form.target {
            Some(t) => {
                if t >= self.document.judgements.len() {
                    return None;
                }
                if equal_text(self.document.judgements[t].name.as_str(), name.as_str())
                    && equal_text(self.document.judgements[t].follow_up.as_str(), follow_up.as_str()) {
                    return Some(false);
                }
                self.document.judgements[t].name = name;
                self.document.judgements[t].follow_up = follow_up;
                self.selected_judgement = t;
                proof {
                    let after = self.document.judgements@;
                    assert forall|k: int| 0 <= k < before.len() && k != t implies #[trigger] after[k]
                        == before[k] by {}
                    if old(self).document.is_valid() {
                        assert(judgement_ok(before[t as int]));
                        assert(judgement_ok(after[t as int]));
                        crate::model::lemma_judgements_edit(before, t as int, after[t as int]);
                        assert(after =~= before.update(t as int, after[t as int]));
                    }
                }
            },
            None => {
                self.document.judgements.push(Judgement {
                    name,
                    follow_up,
                    characteristics: Vec::new(),
                });
                self.selected_judgement = self.document.judgements.len() - 1;
                self.selected_characteristic = None;
                proof {
                    let after = self.document.judgements@;
                    let added = after[after.len() - 1];
                    assert(judgement_ok(added));
                    if old(self).document.is_valid() {
                        crate::model::lemma_judgements_edit(before, 0, added);
                        assert(after =~= before.push(added));
                    }
                }
            },
        }
        self.status = Some(String::from_str("Judgement saved"));
        Some(true)
    }

    /// Saves a characteristic form into judgement `form.judgement`: its trimmed name,
    /// expectation and, if the form has one, outcome replace the characteristic it edits,
    /// or make a new one, which is then selected with the characteristics focused. A blank
    /// name or expectation, or an outcome without text, is refused with a message (`None`),
    /// as is a form whose judgement or characteristic is gone; `Some(false)` when nothing
    /// would change.
    pub fn commit_characteristic_form(&mut self, form: &CharacteristicForm) -> (result: Option<bool>)
        ensures
            old(self).selection_consistent() ==> final(self).selection_consistent(),
            old(self).document.is_valid() ==> final(self).document.is_valid(),
            characteristic_form_committed(*old(self), *final(self), *form, result),
    {
        let name = trimmed(form.name.as_str());
        let before_text = trimmed(form.before_text.as_str());
        proof {
            lemma_trim(form.name@);
            lemma_trim(form.before_text@);
            lemma_trim(form.after_text@);
        }
        if name.as_str().unicode_len() == 0 {
            self.status = Some(String::from_str("Characteristic name cannot be empty"));
            return None;
        }
        if before_text.as_str().unicode_len() == 0 {
            self.status = Some(String::from_str("Before text cannot be empty"));
            return None;
        }
        let after_text = trimmed(form.after_text.as_str());
        if form.has_after && after_text.as_str().unicode_len() == 0 {
            self.status = Some(String::from_str("After text cannot be empty; Ctrl+x clears it"));
            return None;
        }
        let characteristic = Characteristic {
            name,
            before: Observation { text: before_text, rating: form.before_rating },
            after: if form.has_after {
                Some(Observation { text: after_text, rating: form.after_rating })
            } else {
                None
            },
        };
        let j = form.judgement;
        if j >= self.document.judgements.len() {
            return None;
        }
        let ghost before = self.document.judgements@;
        let ghost new_c = characteristic;
        proof {
            assert(characteristic_ok(new_c));
        }
        match form.target {
            Some(t) => {
                if t >= self.document.judgements[j].characteristics.len() {
                    return None;
                }
                if characteristics_equal(&self.document.judgements[j].characteristics[t], &characteristic) {
                    return Some(false);
                }
                self.document.judgements[j].characteristics.set(t, characteristic);
                self.selected_characteristic = Some(t);
            },
            None => {
                self.document.judgements[j].characteristics.push(characteristic);
                let count = self.document.judgements[j].characteristics.len();
                self.selected_characteristic = Some(count - 1);
            },
        }
        proof {
            let after = self.document.judgements@;
            assert forall|k: int| 0 <= k < before.len() && k != j implies #[trigger] after[k]
                == before[k] by {}
            if old(self).document.is_valid() {
                let cs = before[j as int].characteristics@;
                assert(judgement_ok(before[j as int]));
                crate::model::lemma_characteristics_edit(cs, match form.target {
                    Some(t) => t as int,
                    None => 0,
                }, new_c);
                match form.target {
                    Some(t) => assert(after[j as int].characteristics@ =~= cs.update(t as int, new_c)),
                    None => assert(after[j as int].characteristics@ =~= cs.push(new_c)),
                }
                lemma_characteristics_replaced_ok(before, after, j as int, after[j as int].characteristics@);
            }
        }
        self.selected_judgement = j;
        self.judgement_focus = JudgementFocus::Characteristics;
        self.status = Some(
            if form.has_after {
                String::from_str("Characteristic verified")
            } else {
                String::from_str("Characteristic saved")
            },
        );
        Some(true)
    }

    /// Opens the form that edits the selected judgement, if one is selected.
    pub fn open_judgement_form(&mut self)
        ensures
            old(self).selection_consistent() ==> final(self).selection_consistent(),
            judgement_form_opened(*old(self), *final(self)),
    {
        if self.selected_judgement >= self.document.judgements.len() {
            return;
        }
        let judgement = &self.document.judgements[self.selected_judgement];
        let form = JudgementForm {
            target: Some(self.selected_judgement),
            name: judgement.name.clone(),
            name_cursor: judgement.name.as_str().unicode_len(),
            follow_up: judgement.follow_up.clone(),
            follow_up_cursor: judgement.follow_up.as_str().unicode_len(),
            field: JudgementField::Name,
        };
        self.mode = Mode::EditingJudgement(form);
    }

    /// Opens the form that edits the selected characteristic, with `field` focused, if
    /// one is selected.
    pub fn open_characteristic_form(&mut self, field: CharacteristicField)
        ensures
            old(self).selection_consistent() ==> final(self).selection_consistent(),
            characteristic_form_opened(*old(self), *final(self), field),
    {
        let c = match self.selected_characteristic {
            Some(c) => c,
            None => {
                return;
            },
        };
        if self.selected_judgement >= self.document.judgements.len() {
            return;
        }
        if c >= self.document.judgements[self.selected_judgement].characteristics.len() {
            return;
        }
        let ch = &self.document.judgements[self.selected_judgement].characteristics[c];
        let (after_text, after_rating, has_after) = match &ch.after {
            Some(o) => (o.text.clone(), o.rating, true),
            None => (String::new(), Sentiment::Neutral, false),
        };
        let after_cursor = after_text.as_str().unicode_len();
        let form = CharacteristicForm {
            judgement: self.selected_judgement,
            target: Some(c),
            name: ch.name.clone(),
            name_cursor: ch.name.as_str().unicode_len(),
            before_text: ch.before.text.clone(),
            before_cursor: ch.before.text.as_str().unicode_len(),
            before_rating: ch.before.rating,
            after_text,
            after_cursor,
            after_rating,
            has_after,
            field,
        };
        self.mode = Mode::EditingCharacteristic(form);
    }

    /// Removes what `target` names, selects its neighbour and says so; then the selections
    /// are brought back inside what the search shows and inside the judgements. Nothing is
    /// removed when the document does not have `target`.
    #[verifier::rlimit(40)]
    pub fn delete(&mut self, target: DeleteTarget)
        ensures
            old(self).selection_consistent() && (target matches DeleteTarget::CalendarEntry(d, _) ==> d == old(self).selected_date) ==> final(self).selection_consistent(),
            old(self).document.is_valid() ==> final(self).document.is_valid(),
            target_deleted(*old(self), *final(self), target),
    {
        let ghost before = *self;
        match target {
            DeleteTarget::Topic(t) => {
                if t < self.document.topics.len() {
                    let ghost topics = self.document.topics@;
                    self.document.topics.remove(t);
                    let len = self.document.topics.len();
                    self.selected_topic = if len == 0 {
                        0
                    } else if t <= len - 1 {
                        t
                    } else {
                        len - 1
                    };
                    self.selected_item = None;
                    self.status = Some(String::from_str("Topic deleted"));
                    proof {
                        if before.document.is_valid() {
                            crate::model::lemma_topics_edit(topics, t as int, topics[t as int]);
                        }
                    }
                }
            },
            DeleteTarget::Item(t, i) => {
                if t < self.document.topics.len() && i < self.document.topics[t].items.len() {
                    let ghost topics = self.document.topics@;
                    self.document.topics[t].items.remove(i);
                    let len = self.document.topics[t].items.len();
                    self.selected_topic = t;
                    self.selected_item = if len == 0 {
                        None
                    } else if i <= len - 1 {
                        Some(i)
                    } else {
                        Some(len - 1)
                    };
                    self.status = Some(String::from_str("Entry deleted"));
                    proof {
                        let after = self.document.topics@;
                        assert forall|k: int| 0 <= k < topics.len() && k != t implies #[trigger] after[k]
                            == topics[k] by {}
                        if before.document.is_valid() {
                            let items = topics[t as int].items@;
                            assert(topic_ok(topics[t as int]));
                            crate::model::lemma_items_edit(items, i as int, items[i as int]);
                            lemma_items_replaced_ok(topics, after, t as int, after[t as int].items@);
                        }
                    }
                }
            },
            DeleteTarget::CalendarEntry(date, e) => {
                proof {
                    lemma_find_day(self.document.calendar.days@, date);
                }
                match self.document.calendar_day_index(date) {
                    Some(f) => {
                        if e < self.document.calendar.days[f].entries.len() {
                            let ghost days = self.document.calendar.days@;
                            self.document.calendar.days[f].entries.remove(e);
                            let len = self.document.calendar.days[f].entries.len();
                            let ghost day = self.document.calendar.days@[f as int];
                            let ghost mid_days = self.document.calendar.days@;
                            proof {
                                assert(mid_days =~= days.update(f as int, day));
                            }
                            self.selected_calendar_entry = if len == 0 {
                                None
                            } else if e <= len - 1 {
                                Some(e)
                            } else {
                                Some(len - 1)
                            };
                            self.document.remove_calendar_day_if_empty(date);
                            self.status = Some(String::from_str("Calendar entry deleted"));
                            proof {
                                let u = days.update(f as int, day);
                                crate::model::lemma_find_empty_day_from(u, date, 0);
                                assert(day_cleared(days, self.document.calendar.days@, f as int, day));
                                lemma_day_in_place(days, u, f as int, date);
                                let r = find_empty_day_from(u, date, 0);
                                if r < u.len() && r != f {
                                    assert(u[f as int].date == date);
                                    assert(r > f);
                                    lemma_find_day_kept(u, self.document.calendar.days@, date);
                                }
                                if before.document.is_valid() {
                                    let entries = days[f as int].entries@;
                                    assert(crate::model::day_ok(days, f as int));
                                    crate::model::lemma_items_edit(entries, e as int, entries[e as int]);
                                    lemma_days_clear(days, f as int, day);
                                }
                            }
                        }
                    },
                    None => {},
                }
            },
            DeleteTarget::Judgement(j) => {
                if j < self.document.judgements.len() {
                    let ghost js = self.document.judgements@;
                    self.document.judgements.remove(j);
                    let len = self.document.judgements.len();
                    self.selected_judgement = if len == 0 {
                        0
                    } else if j <= len - 1 {
                        j
                    } else {
                        len - 1
                    };
                    self.selected_characteristic = None;
                    self.judgement_focus = JudgementFocus::Judgements;
                    self.status = Some(String::from_str("Judgement deleted"));
                    proof {
                        if before.document.is_valid() {
                            crate::model::lemma_judgements_edit(js, j as int, js[j as int]);
                        }
                    }
                }
            },
            DeleteTarget::Characteristic(j, c) => {
                if j < self.document.judgements.len() && c < self.document.judgements[j].characteristics.len() {
                    let ghost js = self.document.judgements@;
                    self.document.judgements[j].characteristics.remove(c);
                    let len = self.document.judgements[j].characteristics.len();
                    self.selected_judgement = j;
                    self.selected_characteristic = if len == 0 {
                        None
                    } else if c <= len - 1 {
                        Some(c)
                    } else {
                        Some(len - 1)
                    };
                    self.status = Some(String::from_str("Characteristic deleted"));
                    proof {
                        let after = self.document.judgements@;
                        assert forall|k: int| 0 <= k < js.len() && k != j implies #[trigger] after[k]
                            == js[k] by {}
                        if before.document.is_valid() {
                            let cs = js[j as int].characteristics@;
                            assert(judgement_ok(js[j as int]));
                            crate::model::lemma_characteristics_edit(cs, c as int, cs[c as int]);
                            lemma_characteristics_replaced_ok(js, after, j as int, after[j as int].characteristics@);
                        }
                    }
                }
            },
        }
        let ghost mid = *self;
        proof {
            assert(deleted(before, target, mid));
            if before.selection_consistent() && (target matches DeleteTarget::CalendarEntry(d, _) ==> d == before.selected_date) {
                assert(mid.document.topics@.len() > 0 ==> mid.selected_topic < mid.document.topics@.len());
                assert(mid.entry_selection_ok());
            }
        }
        self.ensure_visible_selection();
        self.ensure_judgement_selection();
    }

    /// Takes a document from sync: the selections are brought back inside it, and the
    /// status line says where it came from.
    pub fn apply_document(&mut self, document: Document)
        ensures
            final(self).selection_consistent(),
            document_applied(*old(self), *final(self), document),
    {
        self.document = document;
        let len = self.document.topics.len();
        self.selected_topic = if len == 0 {
            0
        } else if self.selected_topic <= len - 1 {
            self.selected_topic
        } else {
            len - 1
        };
        if len == 0 {
            self.selected_item = None;
        } else {
            match self.selected_item {
                Some(item) => {
                    if item >= self.document.topics[self.selected_topic].items.len() {
                        self.selected_item = None;
                    }
                },
                None => {},
            }
        }
        self.ensure_visible_selection();
        self.ensure_calendar_selection();
        self.ensure_judgement_selection();
        self.status = Some(String::from_str("Updated from GitHub"));
    }
}

/// Checking an item and checking it again gives back the same identities, with the same
/// item selected.
pub proof fn lemma_toggle_twice(a: App, b: App, c: App, first: bool, second: bool)
    requires
        item_toggled(a, b, first),
        item_toggled(b, c, second),
        first,
    ensures
        second,
        crate::model::same_document(c.document, a.document),
        c.selected_topic == a.selected_topic,
        c.selected_item == a.selected_item,
{
    let t = a.selected_topic as int;
    let i = a.selected_item->0 as int;
    let items = a.document.topics@[t].items@;
    let once = items.update(i, flipped(items[i]));
    assert(b.document.topics@[t].items@ == once);
    assert(c.document.topics@[t].items@ == once.update(i, flipped(once[i])));
    assert(once.update(i, flipped(once[i])) =~= items);
    lemma_same_document_when_topics_agree(a.document, c.document);
}

/// Moving an item down and then up gives back the same identities, with the same item
/// selected.
pub proof fn lemma_move_item_down_then_up(a: App, b: App, c: App, first: bool, second: bool)
    requires
        item_moved(a, b, 1isize, first),
        item_moved(b, c, -1isize, second),
        first,
    ensures
        second,
        crate::model::same_document(c.document, a.document),
        c.selected_topic == a.selected_topic,
        c.selected_item == a.selected_item,
{
    let t = a.selected_topic as int;
    let i = a.selected_item->0 as int;
    let items = a.document.topics@[t].items@;
    assert(a.document.topics@[t].items.len() == items.len());
    assert(b.selected_item == Some((i + 1) as usize));
    assert(b.document.topics@[t].items@ == crate::lists::swapped(items, i));
    let moved = crate::lists::swapped(items, i);
    assert(c.document.topics@[t].items@ == swapped_with(moved, i + 1, i));
    assert(swapped_with(moved, i + 1, i) =~= items);
    lemma_same_document_when_topics_agree(a.document, c.document);
}

/// Moving an identity right and then left gives back the same identities in the same
/// order, with the same identity selected.
pub proof fn lemma_move_topic_right_then_left(a: App, b: App, c: App, first: bool, second: bool)
    requires
        topic_moved(a, b, 1isize, first),
        topic_moved(b, c, -1isize, second),
        first,
    ensures
        second,
        c.document.topics@ == a.document.topics@,
        c.selected_topic == a.selected_topic,
{
    let t = a.selected_topic as int;
    let topics = a.document.topics@;
    assert(a.document.topics.len() == topics.len());
    assert(b.selected_topic == (t + 1) as usize);
    assert(b.document.topics@ == crate::lists::swapped(topics, t));
    assert(swapped_with(crate::lists::swapped(topics, t), t + 1, t) =~= topics);
}

/// Documents that agree everywhere but in topics whose items hold the same texts and check
/// marks hold the same data.
proof fn lemma_same_document_when_topics_agree(a: Document, c: Document)
    requires
        c.version == a.version,
        c.calendar == a.calendar,
        c.judgements == a.judgements,
        c.topics@.len() == a.topics@.len(),
        forall|k: int|
            #![trigger c.topics@[k]]
            0 <= k < a.topics@.len() ==> c.topics@[k].name == a.topics@[k].name && c.topics@[k].status
                == a.topics@[k].status && c.topics@[k].items@ == a.topics@[k].items@,
    ensures
        crate::model::same_document(c, a),
{
    assert forall|k: int| 0 <= k < c.topics@.len() implies crate::model::same_topic(#[trigger] c.topics@[k], a.topics@[k]) by {
        assert(c.topics@[k].items@ == a.topics@[k].items@);
    }
    assert forall|k: int| 0 <= k < c.calendar.days@.len() implies crate::model::same_day(#[trigger] c.calendar.days@[k], a.calendar.days@[k]) by {}
    assert forall|k: int| 0 <= k < c.judgements@.len() implies crate::model::same_judgement(#[trigger] c.judgements@[k], a.judgements@[k]) by {
        let j = c.judgements@[k];
        assert forall|x: int| 0 <= x < j.characteristics@.len() implies crate::model::same_characteristic(#[trigger] j.characteristics@[x], j.characteristics@[x]) by {}
    }
}

/// Documents that agree everywhere but in days that hold the same dates, moods and entry
/// texts and check marks hold the same data.
proof fn lemma_same_document_when_days_agree(a: Document, c: Document)
    requires
        c.version == a.version,
        c.topics == a.topics,
        c.judgements == a.judgements,
        c.calendar.days@.len() == a.calendar.days@.len(),
        forall|k: int|
            #![trigger c.calendar.days@[k]]
            0 <= k < a.calendar.days@.len() ==> c.calendar.days@[k].date == a.calendar.days@[k].date
                && c.calendar.days@[k].mood == a.calendar.days@[k].mood
                && c.calendar.days@[k].entries@ == a.calendar.days@[k].entries@,
    ensures
        crate::model::same_document(c, a),
{
    assert forall|k: int| 0 <= k < c.topics@.len() implies crate::model::same_topic(#[trigger] c.topics@[k], a.topics@[k]) by {}
    assert forall|k: int| 0 <= k < c.calendar.days@.len() implies crate::model::same_day(#[trigger] c.calendar.days@[k], a.calendar.days@[k]) by {
        assert(c.calendar.days@[k].entries@ == a.calendar.days@[k].entries@);
    }
    assert forall|k: int| 0 <= k < c.judgements@.len() implies crate::model::same_judgement(#[trigger] c.judgements@[k], a.judgements@[k]) by {
        let j = c.judgements@[k];
        assert forall|x: int| 0 <= x < j.characteristics@.len() implies crate::model::same_characteristic(#[trigger] j.characteristics@[x], j.characteristics@[x]) by {}
    }
}

/// Checking a calendar entry and checking it again gives back the same calendar, with the
/// same entry selected.
pub proof fn lemma_toggle_entry_twice(a: App, b: App, c: App, first: bool, second: bool)
    requires
        entry_toggled(a, b, first),
        entry_toggled(b, c, second),
        first,
    ensures
        second,
        crate::model::same_document(c.document, a.document),
        c.selected_date == a.selected_date,
        c.selected_calendar_entry == a.selected_calendar_entry,
{
    let days = a.document.calendar.days@;
    let f = find_day(days, a.selected_date);
    let e = a.selected_calendar_entry->0 as int;
    let entries = days[f].entries@;
    let once = entries.update(e, flipped(entries[e]));
    lemma_day_in_place(days, b.document.calendar.days@, f, a.selected_date);
    assert(b.document.calendar.days@[f].entries@ == once);
    let mid = b.document.calendar.days@;
    lemma_day_in_place(mid, c.document.calendar.days@, f, a.selected_date);
    assert(c.document.calendar.days@[f].entries@ == once.update(e, flipped(once[e])));
    assert(once.update(e, flipped(once[e])) =~= entries);
    lemma_same_document_when_days_agree(a.document, c.document);
}

/// Moving a calendar entry down and then up gives back the same calendar, with the same
/// entry selected.
pub proof fn lemma_move_entry_down_then_up(a: App, b: App, c: App, first: bool, second: bool)
    requires
        entry_moved(a, b, 1isize, first),
        entry_moved(b, c, -1isize, second),
        first,
    ensures
        second,
        crate::model::same_document(c.document, a.document),
        c.selected_date == a.selected_date,
        c.selected_calendar_entry == a.selected_calendar_entry,
{
    let days = a.document.calendar.days@;
    let f = find_day(days, a.selected_date);
    let e = a.selected_calendar_entry->0 as int;
    let entries = days[f].entries@;
    lemma_day_in_place(days, b.document.calendar.days@, f, a.selected_date);
    let moved = crate::lists::swapped(entries, e);
    assert(days[f].entries.len() == entries.len());
    assert(b.document.calendar.days@[f].entries@ == moved);
    assert(b.selected_calendar_entry == Some((e + 1) as usize));
    let mid = b.document.calendar.days@;
    assert(find_day(mid, b.selected_date) == f);
    assert(b.calendar_focus is Entries);
    assert(mid[f].entries@.len() == entries.len());
    assert(step_within(e + 1, mid[f].entries@.len() as int, -1) == Some(e));
    lemma_day_in_place(mid, c.document.calendar.days@, f, a.selected_date);
    assert(c.document.calendar.days@[f].entries@ == swapped_with(moved, e + 1, e));
    assert(swapped_with(moved, e + 1, e) =~= entries);
    lemma_same_document_when_days_agree(a.document, c.document);
}

/// The days are in strictly chronological order: no two share a date.
pub open spec fn strictly_sorted(days: Seq<CalendarDay>) -> bool {
    forall|i: int, k: int| 0 <= i < k < days.len() ==> date_before(#[trigger] days[i].date, #[trigger] days[k].date)
}

/// Two lists of days in strictly chronological order that hold the same days are the same.
proof fn lemma_strictly_sorted_unique(s: Seq<CalendarDay>, t: Seq<CalendarDay>)
    requires
        strictly_sorted(s),
        strictly_sorted(t),
        forall|y: CalendarDay| s.contains(y) <==> t.contains(y),
    ensures
        s == t,
    decreases s.len(),
{
    if s.len() == 0 {
        if t.len() > 0 {
            assert(t.contains(t[0]));
        }
        assert(s =~= t);
    } else {
        assert(s.contains(s[0]));
        if t.len() == 0 {
            assert(false);
        }
        assert(t.contains(t[0]));
        let k = choose|k: int| 0 <= k < t.len() && t[k] == s[0];
        let m = choose|m: int| 0 <= m < s.len() && s[m] == t[0];
        if k > 0 {
            assert(date_before(t[0].date, t[k].date));
            if m > 0 {
                assert(date_before(s[0].date, s[m].date));
            }
            assert(false);
        }
        assert(s[0] == t[0]);
        let s1 = s.drop_first();
        let t1 = t.drop_first();
        assert forall|y: CalendarDay| s1.contains(y) implies t1.contains(y) by {
            let i = choose|i: int| 0 <= i < s1.len() && s1[i] == y;
            assert(s[i + 1] == y);
            assert(s.contains(y));
            let j = choose|j: int| 0 <= j < t.len() && t[j] == y;
            if j == 0 {
                assert(date_before(s[0].date, s[i + 1].date));
                assert(false);
            }
            assert(t1[j - 1] == y);
        }
        assert forall|y: CalendarDay| t1.contains(y) implies s1.contains(y) by {
            let i = choose|i: int| 0 <= i < t1.len() && t1[i] == y;
            assert(t[i + 1] == y);
            assert(t.contains(y));
            let j = choose|j: int| 0 <= j < s.len() && s[j] == y;
            if j == 0 {
                assert(date_before(t[0].date, t[i + 1].date));
                assert(false);
            }
            assert(s1[j - 1] == y);
        }
        assert forall|i: int, k: int| 0 <= i < k < s1.len() implies date_before(#[trigger] s1[i].date, #[trigger] s1[k].date) by {
            assert(date_before(s[i + 1].date, s[k + 1].date));
        }
        assert forall|i: int, k: int| 0 <= i < k < t1.len() implies date_before(#[trigger] t1[i].date, #[trigger] t1[k].date) by {
            assert(date_before(t[i + 1].date, t[k + 1].date));
        }
        lemma_strictly_sorted_unique(s1, t1);
        assert(s =~= seq![s[0]] + s1);
        assert(t =~= seq![t[0]] + t1);
    }
}

/// Sorting a calendar in strictly chronological order together with a new day on a date it
/// does not hold, and taking that day out again, gives back the calendar.
proof fn lemma_sorted_insert_removed(days: Seq<CalendarDay>, initial: CalendarDay, sorted: Seq<CalendarDay>)
    requires
        strictly_sorted(days),
        find_day(days, initial.date) == days.len(),
        stable_date_sort_of(days.push(initial), sorted),
        sorted_by_date(sorted),
    ensures
        find_day(sorted, initial.date) < sorted.len(),
        sorted[find_day(sorted, initial.date)] == initial,
        forall|k: int| 0 <= k < sorted.len() && k != find_day(sorted, initial.date)
            ==> #[trigger] sorted[k].date != initial.date,
        crate::model::distinct_dates(sorted),
        sorted.remove(find_day(sorted, initial.date)) == days,
{
    let q = days.push(initial);
    let n = days.len() as int;
    let date = initial.date;
    lemma_find_day(days, date);
    let p = choose|p: Seq<int>|
        #![trigger is_index_permutation(p, q.len() as int)]
        {
            &&& is_index_permutation(p, q.len() as int)
            &&& sorted.len() == q.len()
            &&& forall|i: int| 0 <= i < sorted.len() ==> #[trigger] sorted[i] == q[p[i]]
            &&& forall|i: int, k: int|
                0 <= i < k < sorted.len() && sorted[i].date == sorted[k].date ==> #[trigger] p[i]
                    < #[trigger] p[k]
        };
    assert forall|j: int| 0 <= j < q.len() && j != n implies #[trigger] q[j].date != date by {
        assert(q[j] == days[j]);
    }
    assert forall|i: int, k: int| 0 <= i < sorted.len() && 0 <= k < sorted.len() && i != k implies
        #[trigger] sorted[i].date != #[trigger] sorted[k].date by {
        assert(p[i] != p[k]);
        if p[i] != n && p[k] != n {
            if p[i] < p[k] {
                assert(date_before(days[p[i]].date, days[p[k]].date));
            } else {
                assert(date_before(days[p[k]].date, days[p[i]].date));
            }
        }
    }
    assert(index_covered(p, q.len() as int, n));
    let g0 = choose|i: int| 0 <= i < q.len() && #[trigger] p[i] == n;
    assert(sorted[g0] == initial);
    lemma_find_day(sorted, date);
    let g = find_day(sorted, date);
    assert(g == g0);
    let r = sorted.remove(g);
    assert forall|i: int, k: int| 0 <= i < k < r.len() implies date_before(#[trigger] r[i].date, #[trigger] r[k].date) by {
        let ii = if i < g { i } else { i + 1 };
        let kk = if k < g { k } else { k + 1 };
        assert(r[i] == sorted[ii]);
        assert(r[k] == sorted[kk]);
        assert(!date_before(sorted[kk].date, sorted[ii].date));
        assert(sorted[ii].date != sorted[kk].date);
    }
    assert forall|y: CalendarDay| r.contains(y) <==> days.contains(y) by {
        if r.contains(y) {
            let i = choose|i: int| 0 <= i < r.len() && r[i] == y;
            let ii = if i < g { i } else { i + 1 };
            assert(r[i] == sorted[ii]);
            assert(ii != g);
            assert(p[ii] != n);
            assert(days[p[ii]] == y);
            assert(days.contains(y));
        }
        if days.contains(y) {
            let j = choose|j: int| 0 <= j < days.len() && days[j] == y;
            assert(q[j] == y);
            assert(index_covered(p, q.len() as int, j));
            let i = choose|i: int| 0 <= i < q.len() && #[trigger] p[i] == j;
            assert(sorted[i] == y);
            assert(i != g);
            let ri = if i < g { i } else { i - 1 };
            assert(r[ri] == y);
            assert(r.contains(y));
        }
    }
    lemma_strictly_sorted_unique(r, days);
}

/// Rating a day that has no rating and then clearing that rating gives back the same
/// document, when the document is valid and its days are in chronological order.
pub proof fn lemma_rate_then_clear(
    a: App,
    b: App,
    c: App,
    date: Date,
    mood: MoodRating,
    first: HandleResult,
    second: HandleResult,
)
    requires
        a.document.is_valid(),
        sorted_by_date(a.document.calendar.days@),
        day_mood(a.document.calendar.days@, date) is None,
        mood_committed(a, b, date, Some(mood), first),
        mood_committed(b, c, date, None, second),
    ensures
        first.changed,
        second.changed,
        crate::model::same_document(c.document, a.document),
{
    let days = a.document.calendar.days@;
    let mid = b.document.calendar.days@;
    let last = c.document.calendar.days@;
    lemma_find_day(days, date);
    let f = find_day(days, date);
    assert(first.changed);
    if f < days.len() {
        assert(day_ok(days, f));
        lemma_day_in_place(days, mid, f, date);
        assert(find_day(mid, date) == f);
        assert(day_mood(mid, date) == Some(mood));
        assert(second.changed);
        let u = mid.update(f, CalendarDay { mood: None, ..mid[f] });
        lemma_find_empty_day_from(u, date, 0);
        if find_empty_day_from(u, date, 0) < u.len() {
            let e = find_empty_day_from(u, date, 0);
            if e != f {
                assert(u[e] == days[e]);
                assert(day_ok(days, e));
            }
            assert(false);
        }
        assert(last == u);
        assert forall|k: int| 0 <= k < days.len() implies #[trigger] last[k].date == days[k].date
            && last[k].mood == days[k].mood && last[k].entries@ == days[k].entries@ by {
            if k != f {
                assert(last[k] == days[k]);
            }
        }
        lemma_same_document_when_days_agree(a.document, c.document);
    } else {
        assert forall|i: int, k: int| 0 <= i < k < days.len() implies date_before(#[trigger] days[i].date, #[trigger] days[k].date) by {
            assert(day_ok(days, k));
            assert(days[i].date != days[k].date);
            assert(!date_before(days[k].date, days[i].date));
        }
        let (initial, sorted, changed) = choose|initial: CalendarDay, sorted: Seq<CalendarDay>, changed: CalendarDay|
            #![trigger inserted_day(days, initial, sorted, changed, mid)]
            {
                &&& initial.date == date
                &&& initial.mood is None
                &&& initial.entries@.len() == 0
                &&& changed.date == date
                &&& changed.mood == Some(mood)
                &&& changed.entries@ == day_entries(days, date)
                &&& inserted_day(days, initial, sorted, changed, mid)
            };
        lemma_sorted_insert_removed(days, initial, sorted);
        lemma_find_day(sorted, date);
        let g = find_day(sorted, date);
        assert(mid == sorted.update(g, changed));
        lemma_day_in_place(sorted, mid, g, date);
        assert(find_day(mid, date) == g);
        assert(day_mood(mid, date) == Some(mood));
        assert(second.changed);
        let u = mid.update(g, CalendarDay { mood: None, ..mid[g] });
        lemma_find_empty_day_from(u, date, 0);
        let e = find_empty_day_from(u, date, 0);
        assert(u[g].entries@.len() == 0);
        if e > g {
            assert(false);
        }
        if e < g {
            assert(u[e] == sorted[e]);
            assert(false);
        }
        assert(last == u.remove(g));
        assert(u.remove(g) =~= sorted.remove(g));
        assert(last == days);
        lemma_same_document_when_days_agree(a.document, c.document);
    }
}

/// Adding an entry to an identity and then deleting that entry gives back the same
/// identities.
pub proof fn lemma_add_then_delete_item(a: App, b: App, c: App, editor: Editor, t: usize, changed: bool)
    requires
        editor.kind == EditKind::AddItem(t),
        t < a.document.topics@.len(),
        !is_blank(editor.input@),
        editor_committed(a, b, editor, changed),
        target_deleted(b, c, DeleteTarget::Item(t, a.document.topics@[t as int].items@.len() as usize)),
    ensures
        changed,
        crate::model::same_document(c.document, a.document),
{
    let items = a.document.topics@[t as int].items@;
    let n = items.len() as int;
    let longer = b.document.topics@[t as int].items@;
    assert(a.document.topics@[t as int].items.len() == n);
    assert(longer.len() == n + 1);
    let target = DeleteTarget::Item(t, n as usize);
    let mid = choose|mid: App|
        #![trigger deleted(b, target, mid)]
        deleted(b, target, mid) && c == with_judgement_selection(with_visible_selection(mid));
    assert(delete_applies(b.document, target));
    assert(longer.remove(n) =~= items);
    assert(c.document == mid.document);
    assert forall|k: int| 0 <= k < a.document.topics@.len() implies #[trigger] c.document.topics@[k].name
        == a.document.topics@[k].name && c.document.topics@[k].status == a.document.topics@[k].status
        && c.document.topics@[k].items@ == a.document.topics@[k].items@ by {
        if k != t {
            assert(b.document.topics@[k] == a.document.topics@[k]);
            assert(c.document.topics@[k] == b.document.topics@[k]);
        }
    }
    lemma_same_document_when_topics_agree(a.document, c.document);
}

/// Adding an identity and then deleting it gives back the same identities.
pub proof fn lemma_add_then_delete_topic(a: App, b: App, c: App, editor: Editor, changed: bool)
    requires
        editor.kind == EditKind::NewTopic,
        !is_blank(editor.input@),
        editor_committed(a, b, editor, changed),
        target_deleted(b, c, DeleteTarget::Topic(a.document.topics@.len() as usize)),
    ensures
        changed,
        c.document.topics@ == a.document.topics@,
        c.document == (Document { topics: c.document.topics, ..a.document }),
{
    let n = a.document.topics@.len() as int;
    assert(a.document.topics.len() == n);
    let target = DeleteTarget::Topic(n as usize);
    let mid = choose|mid: App|
        #![trigger deleted(b, target, mid)]
        deleted(b, target, mid) && c == with_judgement_selection(with_visible_selection(mid));
    assert(delete_applies(b.document, target));
    assert(b.document.topics@.remove(n) =~= a.document.topics@);
}

/// Adding an entry to a day and then deleting that entry gives back the same document,
/// when the document is valid and its days are in chronological order.
pub proof fn lemma_add_then_delete_calendar_entry(
    a: App,
    b: App,
    c: App,
    editor: Editor,
    date: Date,
    changed: bool,
)
    requires
        a.document.is_valid(),
        sorted_by_date(a.document.calendar.days@),
        editor.kind == EditKind::AddCalendarEntry(date),
        !is_blank(editor.input@),
        editor_committed(a, b, editor, changed),
        target_deleted(
            b,
            c,
            DeleteTarget::CalendarEntry(date, day_entries(a.document.calendar.days@, date).len() as usize),
        ),
    ensures
        changed,
        crate::model::same_document(c.document, a.document),
{
    let days = a.document.calendar.days@;
    let mid_days = b.document.calendar.days@;
    let last = c.document.calendar.days@;
    lemma_find_day(days, date);
    let f = find_day(days, date);
    let old_entries = day_entries(days, date);
    let m = old_entries.len() as int;
    let entries = choose|entries: Seq<Item>|
        #![trigger day_set(days, mid_days, date, day_mood(days, date), entries)]
        item_appended(old_entries, entries, trim(editor.input@)) && day_set(
            days,
            mid_days,
            date,
            day_mood(days, date),
            entries,
        );
    assert(entries.remove(m) =~= old_entries);
    let target = DeleteTarget::CalendarEntry(date, m as usize);
    if f < days.len() {
        assert(days[f].entries.len() == m);
        lemma_day_in_place(days, mid_days, f, date);
        assert(find_day(mid_days, date) == f);
        assert(delete_applies(b.document, target));
        let mid = choose|mid: App|
            #![trigger deleted(b, target, mid)]
            deleted(b, target, mid) && c == with_judgement_selection(with_visible_selection(mid));
        let day = choose|day: CalendarDay|
            #![trigger day_cleared(mid_days, mid.document.calendar.days@, f, day)]
            day.date == mid_days[f].date && day.mood == mid_days[f].mood && day.entries@ == mid_days[f].entries@.remove(m)
                && day_cleared(mid_days, mid.document.calendar.days@, f, day);
        let u = mid_days.update(f, day);
        assert(day_ok(days, f));
        lemma_find_empty_day_from(u, date, 0);
        if find_empty_day_from(u, date, 0) < u.len() {
            let e = find_empty_day_from(u, date, 0);
            if e != f {
                assert(u[e] == days[e]);
                assert(day_ok(days, e));
            }
            assert(false);
        }
        assert(last == u);
        assert forall|k: int| 0 <= k < days.len() implies #[trigger] last[k].date == days[k].date
            && last[k].mood == days[k].mood && last[k].entries@ == days[k].entries@ by {
            if k != f {
                assert(last[k] == days[k]);
            }
        }
        lemma_same_document_when_days_agree(a.document, c.document);
    } else {
        assert(m == 0);
        assert forall|i: int, k: int| 0 <= i < k < days.len() implies date_before(#[trigger] days[i].date, #[trigger] days[k].date) by {
            assert(day_ok(days, k));
            assert(days[i].date != days[k].date);
            assert(!date_before(days[k].date, days[i].date));
        }
        let (initial, sorted, changed_day) = choose|initial: CalendarDay, sorted: Seq<CalendarDay>, changed_day: CalendarDay|
            #![trigger inserted_day(days, initial, sorted, changed_day, mid_days)]
            {
                &&& initial.date == date
                &&& initial.mood is None
                &&& initial.entries@.len() == 0
                &&& changed_day.date == date
                &&& changed_day.mood == day_mood(days, date)
                &&& changed_day.entries@ == entries
                &&& inserted_day(days, initial, sorted, changed_day, mid_days)
            };
        lemma_sorted_insert_removed(days, initial, sorted);
        lemma_find_day(sorted, date);
        let g = find_day(sorted, date);
        assert(mid_days == sorted.update(g, changed_day));
        lemma_day_in_place(sorted, mid_days, g, date);
        assert(find_day(mid_days, date) == g);
        assert(mid_days[g].entries@.len() == 1);
        assert(delete_applies(b.document, target));
        let mid = choose|mid: App|
            #![trigger deleted(b, target, mid)]
            deleted(b, target, mid) && c == with_judgement_selection(with_visible_selection(mid));
        let day = choose|day: CalendarDay|
            #![trigger day_cleared(mid_days, mid.document.calendar.days@, g, day)]
            day.date == mid_days[g].date && day.mood == mid_days[g].mood && day.entries@ == mid_days[g].entries@.remove(0)
                && day_cleared(mid_days, mid.document.calendar.days@, g, day);
        let u = mid_days.update(g, day);
        lemma_find_empty_day_from(u, date, 0);
        let e = find_empty_day_from(u, date, 0);
        assert(u[g].entries@.len() == 0);
        assert(u[g].mood is None);
        if e > g {
            assert(false);
        }
        if e < g {
            assert(u[e] == sorted[e]);
            assert(false);
        }
        assert(last == u.remove(g));
        assert(u.remove(g) =~= sorted.remove(g));
        assert(last == days);
        lemma_same_document_when_days_agree(a.document, c.document);
    }
}

/// Creating a judgement and then deleting it gives back the same judgements.
pub proof fn lemma_add_then_delete_judgement(a: App, b: App, c: App, form: JudgementForm, result: Option<bool>)
    requires
        form.target is None,
        !is_blank(form.name@),
        judgement_form_committed(a, b, form, result),
        target_deleted(b, c, DeleteTarget::Judgement(a.document.judgements@.len() as usize)),
    ensures
        result == Some(true),
        c.document.judgements@ == a.document.judgements@,
        c.document == (Document { judgements: c.document.judgements, ..a.document }),
{
    let n = a.document.judgements@.len() as int;
    assert(a.document.judgements.len() == n);
    let target = DeleteTarget::Judgement(n as usize);
    let mid = choose|mid: App|
        #![trigger deleted(b, target, mid)]
        deleted(b, target, mid) && c == with_judgement_selection(with_visible_selection(mid));
    assert(delete_applies(b.document, target));
    assert(b.document.judgements@.remove(n) =~= a.document.judgements@);
}

/// Making sure the calendar has a day on `date` keeps a calendar in chronological order
/// with distinct dates that way, when the day handed out keeps its date: the day on
/// `date` is then the one the caller left.
pub proof fn lemma_ensured_day_keeps_order(
    before: Seq<CalendarDay>,
    after: Seq<CalendarDay>,
    date: Date,
    handed: CalendarDay,
    kept: CalendarDay,
)
    requires
        sorted_by_date(before),
        crate::model::distinct_dates(before),
        kept.date == date,
        find_day(before, date) < before.len() ==> {
            &&& handed == before[find_day(before, date)]
            &&& after == before.update(find_day(before, date), kept)
        },
        find_day(before, date) == before.len() ==> {
            &&& handed == (CalendarDay { date, mood: None, entries: handed.entries })
            &&& handed.entries@.len() == 0
            &&& exists|sorted: Seq<CalendarDay>|
                #![trigger stable_date_sort_of(before.push(handed), sorted)]
                inserted_day(before, handed, sorted, kept, after)
        },
    ensures
        sorted_by_date(after),
        crate::model::distinct_dates(after),
        find_day(after, date) < after.len(),
        after[find_day(after, date)] == kept,
{
    lemma_find_day(before, date);
    let f = find_day(before, date);
    if f < before.len() {
        assert(before[f].date == date);
        assert forall|k: int| 0 <= k < before.len() implies #[trigger] after[k].date == before[k].date by {}
        crate::model::lemma_find_day_same_dates(before, after, date, 0);
    } else {
        assert forall|i: int, k: int| 0 <= i < k < before.len() implies date_before(#[trigger] before[i].date, #[trigger] before[k].date) by {
            assert(before[i].date != before[k].date);
            assert(!date_before(before[k].date, before[i].date));
        }
        let sorted = choose|sorted: Seq<CalendarDay>|
            #![trigger stable_date_sort_of(before.push(handed), sorted)]
            inserted_day(before, handed, sorted, kept, after);
        assert(inserted_day(before, handed, sorted, kept, after));
        lemma_sorted_insert_removed(before, handed, sorted);
        lemma_find_day(sorted, date);
        let g = find_day(sorted, date);
        assert(after == sorted.update(g, kept));
        assert forall|k: int| 0 <= k < sorted.len() implies #[trigger] after[k].date == sorted[k].date by {}
        crate::model::lemma_find_day_same_dates(sorted, after, date, 0);
        assert forall|i: int, k: int| 0 <= i < k < after.len() implies !date_before(#[trigger] after[k].date, #[trigger] after[i].date) by {
            assert(after[k].date == sorted[k].date);
            assert(after[i].date == sorted[i].date);
        }
        assert forall|i: int, k: int| 0 <= i < after.len() && 0 <= k < after.len() && i != k implies #[trigger] after[i].date != #[trigger] after[k].date by {
            assert(after[k].date == sorted[k].date);
            assert(after[i].date == sorted[i].date);
        }
    }
}

} // verus!
