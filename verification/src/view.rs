//! The words the screen shows around the views: the key hints of the footer, the counts
//! of the header, and the bars of the mood statistics.
use vstd::prelude::*;

use crate::app::{App, DeleteTarget, Feature, Mode, period_start, rated_count};
use crate::model::{CalendarDay, Document, find_day, lemma_find_day};
use crate::text_format::{date_text, debug_text, decimal, describe_date, describe_number, describe_quoted};

verus! {

/// The key hints the footer shows for the open overlay or the view on screen, shorter on
/// narrower terminals.
pub open spec fn footer_text(mode: Mode, feature: Feature, width: int) -> Seq<char> {
    match mode {
        Mode::Normal => match feature {
            Feature::Calendar => if width >= 100 {
                "↑↓←→ days  Tab grid/list  [ ] month  r rate  a add  ↵ edit  Space check  3 statistics"@
            } else if width >= 65 {
                "↑↓←→ days  Tab focus  [ ] month  r rate  a add  3 statistics"@
            } else {
                "[ ] month  r rate  a add  3 stats  ? help"@
            },
            Feature::Statistics => "m 30 days  y 365 days  f forever  2 calendar  ? help  q quit"@,
            Feature::Judgements => if width >= 95 {
                "↑↓ navigate  Tab focus  n new  a add characteristic  v verify  ↵ edit  d delete  Ctrl+↑↓ reorder"@
            } else if width >= 60 {
                "↑↓ navigate  Tab focus  n new  a add  v verify  ↵ edit  d delete"@
            } else {
                "n new  a add  v verify  1–4 switch  ? help"@
            },
            Feature::Identities => if width >= 105 {
                "↑↓ rows  ←→ identities  t new  a add  s status  ↵ edit  Space check  / search  2 calendar"@
            } else if width >= 80 {
                "↑↓ navigate  t new  a add  s status  ↵ edit  / search  2 calendar"@
            } else if width >= 58 {
                "↑↓←→ navigate  t new  s status  / search  2 calendar"@
            } else {
                "t new  2 calendar  ? help  q quit"@
            },
        },
        Mode::Editing(_) => "↵ save  Esc cancel  ←→ cursor"@,
        Mode::Searching(_) => "type to filter  ↵ keep  Esc clear"@,
        Mode::SelectingStatus(_) => "↑↓ choose  ↵ save  Esc cancel"@,
        Mode::SelectingMood(_) => "1–5 save  ↑↓ choose  c clear  Esc cancel"@,
        Mode::EditingJudgement(_) => "Tab fields  ↵ save  Esc cancel"@,
        Mode::EditingCharacteristic(_) => "Tab fields  +/0/- rate  Ctrl+x clear after  ↵ save  Esc cancel"@,
        Mode::ConfirmDelete(_) => "↵ / y confirm  Esc / n cancel"@,
        Mode::Settings(s) => if s.editing {
            "↵ connect  Esc cancel  ←→ cursor"@
        } else {
            "e edit  r sync  x disconnect  g / Esc close"@
        },
        Mode::Help => "Esc / ? close"@,
    }
}

/// The key hints the footer shows for `app` on a terminal `width` columns wide.
pub fn footer_hints(app: &App, width: u16) -> (hints: &'static str)
    ensures
        hints@ == footer_text(app.mode, app.feature, width as int),
{
    match &app.mode {
        Mode::Normal => match app.feature {
            Feature::Calendar => if width >= 100 {
                "↑↓←→ days  Tab grid/list  [ ] month  r rate  a add  ↵ edit  Space check  3 statistics"
            } else if width >= 65 {
                "↑↓←→ days  Tab focus  [ ] month  r rate  a add  3 statistics"
            } else {
                "[ ] month  r rate  a add  3 stats  ? help"
            },
            Feature::Statistics => "m 30 days  y 365 days  f forever  2 calendar  ? help  q quit",
            Feature::Judgements => if width >= 95 {
                "↑↓ navigate  Tab focus  n new  a add characteristic  v verify  ↵ edit  d delete  Ctrl+↑↓ reorder"
            } else if width >= 60 {
                "↑↓ navigate  Tab focus  n new  a add  v verify  ↵ edit  d delete"
            } else {
                "n new  a add  v verify  1–4 switch  ? help"
            },
            Feature::Identities => if width >= 105 {
                "↑↓ rows  ←→ identities  t new  a add  s status  ↵ edit  Space check  / search  2 calendar"
            } else if width >= 80 {
                "↑↓ navigate  t new  a add  s status  ↵ edit  / search  2 calendar"
            } else if width >= 58 {
                "↑↓←→ navigate  t new  s status  / search  2 calendar"
            } else {
                "t new  2 calendar  ? help  q quit"
            },
        },
        Mode::Editing(_) => "↵ save  Esc cancel  ←→ cursor",
        Mode::Searching(_) => "type to filter  ↵ keep  Esc clear",
        Mode::SelectingStatus(_) => "↑↓ choose  ↵ save  Esc cancel",
        Mode::SelectingMood(_) => "1–5 save  ↑↓ choose  c clear  Esc cancel",
        Mode::EditingJudgement(_) => "Tab fields  ↵ save  Esc cancel",
        Mode::EditingCharacteristic(_) => "Tab fields  +/0/- rate  Ctrl+x clear after  ↵ save  Esc cancel",
        Mode::ConfirmDelete(_) => "↵ / y confirm  Esc / n cancel",
        Mode::Settings(s) => if s.editing {
            "↵ connect  Esc cancel  ←→ cursor"
        } else {
            "e edit  r sync  x disconnect  g / Esc close"
        },
        Mode::Help => "Esc / ? close",
    }
}

/// The number of entries over all days of the calendar.
pub open spec fn total_entries(days: Seq<CalendarDay>) -> nat
    decreases days.len(),
{
    if days.len() == 0 {
        0
    } else {
        total_entries(days.drop_last()) + days.last().entries@.len()
    }
}

/// `n` followed by a space and the singular or plural noun.
pub open spec fn counted(n: nat, one: Seq<char>, many: Seq<char>) -> Seq<char> {
    decimal(n) + " "@ + if n == 1 { one } else { many }
}

/// What the header counts in the view on screen: identities, calendar entries, rated
/// days of the statistics period, or judgements.
pub open spec fn header_count_text(app: App) -> Seq<char> {
    match app.feature {
        Feature::Identities => counted(app.document.topics@.len(), "identity"@, "identities"@),
        Feature::Calendar => counted(total_entries(app.document.calendar.days@), "entry"@, "entries"@),
        Feature::Statistics => decimal(
            rated_count(app.document.calendar.days@, app.today, period_start(app.today, app.statistics_period)),
        ) + " rated "@ + if rated_count(
            app.document.calendar.days@,
            app.today,
            period_start(app.today, app.statistics_period),
        ) == 1 {
            "day"@
        } else {
            "days"@
        },
        Feature::Judgements => counted(app.document.judgements@.len(), "judgement"@, "judgements"@),
    }
}

/// Appends `n`, a space and the singular or plural noun to `text`.
fn append_counted(text: &mut String, n: usize, one: &str, many: &str)
    ensures
        final(text)@ == old(text)@ + counted(n as nat, one@, many@),
{
    describe_number(text, n as u64);
    text.append(" ");
    if n == 1 {
        text.append(one);
    } else {
        text.append(many);
    }
    proof {
        reveal_strlit(" ");
    }
}

/// What the header counts in the view on screen.
pub fn header_count(app: &App) -> (text: String)
    requires
        app.feature is Calendar ==> total_entries(app.document.calendar.days@) <= usize::MAX,
        app.feature is Statistics ==> app.today.is_valid() && app.document.calendar.days@.len()
            <= usize::MAX / 5,
    ensures
        text@ == header_count_text(*app),
{
    let mut text = String::new();
    match app.feature {
        Feature::Identities => append_counted(&mut text, app.document.topics.len(), "identity", "identities"),
        Feature::Calendar => {
            let days = &app.document.calendar.days;
            let mut total: usize = 0;
            let mut i: usize = 0;
            while i < days.len()
                invariant
                    i <= days@.len(),
                    total == total_entries(days@.take(i as int)),
                    total_entries(days@) <= usize::MAX,
                decreases days@.len() - i,
            {
                proof {
                    assert(days@.take(i + 1).drop_last() =~= days@.take(i as int));
                    lemma_total_entries_prefix(days@, i + 1);
                }
                total = total + days[i].entries.len();
                i = i + 1;
            }
            proof {
                assert(days@.take(days@.len() as int) =~= days@);
            }
            append_counted(&mut text, total, "entry", "entries");
        },
        Feature::Statistics => {
            let statistics = app.mood_statistics();
            describe_number(&mut text, statistics.rated_days as u64);
            text.append(" rated ");
            if statistics.rated_days == 1 {
                text.append("day");
            } else {
                text.append("days");
            }
        },
        Feature::Judgements => append_counted(&mut text, app.document.judgements.len(), "judgement", "judgements"),
    }
    proof {
        assert(Seq::<char>::empty() + header_count_text(*app) =~= header_count_text(*app));
    }
    text
}

/// A prefix of the days has no more entries than all of them.
pub proof fn lemma_total_entries_prefix(days: Seq<CalendarDay>, k: int)
    requires
        0 <= k <= days.len(),
    ensures
        total_entries(days.take(k)) <= total_entries(days),
    decreases days.len() - k,
{
    if k < days.len() {
        lemma_total_entries_prefix(days, k + 1);
        assert(days.take(k + 1).drop_last() =~= days.take(k));
    } else {
        assert(days.take(k) =~= days);
    }
}

/// The header's summary: the state of sync and the count of the view on screen.
pub fn header_summary(app: &App) -> (text: String)
    requires
        app.feature is Calendar ==> total_entries(app.document.calendar.days@) <= usize::MAX,
        app.feature is Statistics ==> app.today.is_valid() && app.document.calendar.days@.len()
            <= usize::MAX / 5,
    ensures
        text@ == app.sync_status.label_text() + " · "@ + header_count_text(*app),
{
    let mut text = String::from_str(app.sync_status.label());
    text.append(" · ");
    let count = header_count(app);
    text.append(count.as_str());
    text
}

/// The width of the mood bars inside a panel `inner_width` columns wide: what is left
/// after the label and the numbers, at least one column.
pub open spec fn bar_width_for(inner_width: int) -> int {
    if inner_width - 28 >= 1 {
        inner_width - 28
    } else {
        1
    }
}

/// The width of the mood bars inside a panel `inner_width` columns wide.
pub fn mood_bar_width(inner_width: u16) -> (width: usize)
    ensures
        width == bar_width_for(inner_width as int),
{
    let inner = inner_width as usize;
    if inner >= 29 {
        inner - 28
    } else {
        1
    }
}

/// A mood's bar: how many of `bar_width` columns are filled for `count` of `rated_days`
/// days, and the whole percentage, both rounded down.
pub fn mood_bar(count: usize, rated_days: usize, bar_width: usize) -> (bar: (usize, usize))
    requires
        rated_days > 0,
        count * bar_width <= usize::MAX,
        count * 100 <= usize::MAX,
    ensures
        bar.0 == (count * bar_width) / (rated_days as int),
        bar.1 == (count * 100) / (rated_days as int),
{
    (count * bar_width / rated_days, count * 100 / rated_days)
}

/// The share of `count` in `total` in whole percent, rounded down; none of nothing.
pub open spec fn percent_of(count: int, total: int) -> Option<int> {
    if total > 0 {
        Some(count * 100 / total)
    } else {
        None
    }
}

/// The share of `count` in `total` in whole percent; none when `total` is zero.
pub fn share_percent(count: usize, total: usize) -> (percent: Option<usize>)
    requires
        count * 100 <= usize::MAX,
    ensures
        percent matches Some(p) ==> percent_of(count as int, total as int) == Some(p as int),
        percent is None ==> percent_of(count as int, total as int) is None,
{
    if total > 0 {
        Some(count * 100 / total)
    } else {
        None
    }
}

/// The question asked before deleting `target` from `doc`, naming what goes; a plainer
/// question when it is no longer there.
pub open spec fn deletion_question(doc: Document, target: DeleteTarget) -> Seq<char> {
    match target {
        DeleteTarget::Topic(t) => if t < doc.topics@.len() {
            "Delete identity "@ + debug_text(doc.topics@[t as int].name@) + " and all of its entries?"@
        } else {
            "Delete this identity?"@
        },
        DeleteTarget::Item(t, i) => if t < doc.topics@.len() && i < doc.topics@[t as int].items@.len() {
            "Delete entry "@ + debug_text(doc.topics@[t as int].items@[i as int].text@) + "?"@
        } else {
            "Delete this entry?"@
        },
        DeleteTarget::CalendarEntry(date, e) => {
            let k = find_day(doc.calendar.days@, date);
            if k < doc.calendar.days@.len() && e < doc.calendar.days@[k].entries@.len() {
                "Delete "@ + debug_text(doc.calendar.days@[k].entries@[e as int].text@) + " from "@
                    + date_text(date) + "?"@
            } else {
                "Delete this calendar entry?"@
            }
        },
        DeleteTarget::Judgement(j) => if j < doc.judgements@.len() {
            "Delete judgement "@ + debug_text(doc.judgements@[j as int].name@)
                + " and all of its characteristics?"@
        } else {
            "Delete this judgement?"@
        },
        DeleteTarget::Characteristic(j, c) => if j < doc.judgements@.len() && c
            < doc.judgements@[j as int].characteristics@.len() {
            "Delete characteristic "@ + debug_text(
                doc.judgements@[j as int].characteristics@[c as int].name@,
            ) + "?"@
        } else {
            "Delete this characteristic?"@
        },
    }
}

/// The question asked before deleting `target`.
pub fn deletion_prompt(doc: &Document, target: DeleteTarget) -> (question: String)
    requires
        target matches DeleteTarget::CalendarEntry(date, _) ==> date.is_valid(),
    ensures
        question@ == deletion_question(*doc, target),
{
    match target {
        DeleteTarget::Topic(t) => if t < doc.topics.len() {
            let mut q = String::from_str("Delete identity ");
            describe_quoted(&mut q, doc.topics[t].name.as_str());
            q.append(" and all of its entries?");
            q
        } else {
            String::from_str("Delete this identity?")
        },
        DeleteTarget::Item(t, i) => if t < doc.topics.len() && i < doc.topics[t].items.len() {
            let mut q = String::from_str("Delete entry ");
            describe_quoted(&mut q, doc.topics[t].items[i].text.as_str());
            q.append("?");
            q
        } else {
            String::from_str("Delete this entry?")
        },
        DeleteTarget::CalendarEntry(date, e) => match doc.calendar_day(date) {
            Some(day) => if e < day.entries.len() {
                proof {
                    lemma_find_day(doc.calendar.days@, date);
                }
                let mut q = String::from_str("Delete ");
                describe_quoted(&mut q, day.entries[e].text.as_str());
                q.append(" from ");
                describe_date(&mut q, date);
                q.append("?");
                q
            } else {
                String::from_str("Delete this calendar entry?")
            },
            None => String::from_str("Delete this calendar entry?"),
        },
        DeleteTarget::Judgement(j) => if j < doc.judgements.len() {
            let mut q = String::from_str("Delete judgement ");
            describe_quoted(&mut q, doc.judgements[j].name.as_str());
            q.append(" and all of its characteristics?");
            q
        } else {
            String::from_str("Delete this judgement?")
        },
        DeleteTarget::Characteristic(j, c) => if j < doc.judgements.len() && c
            < doc.judgements[j].characteristics.len() {
            let mut q = String::from_str("Delete characteristic ");
            describe_quoted(&mut q, doc.judgements[j].characteristics[c].name.as_str());
            q.append("?");
            q
        } else {
            String::from_str("Delete this characteristic?")
        },
    }
}

} // verus!
