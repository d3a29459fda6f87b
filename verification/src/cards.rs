//! Where things go on the screen: how tall each identity card is, which line of it the
//! selection is on, how the cards fill rows of columns, how far the dashboard scrolls to
//! keep the selection in view, how much of a card's progress bar is filled, and where an
//! overlay sits.
use vstd::prelude::*;

use crate::app::{App, shown_items, shown_topics, lemma_shown_bounds};
use crate::layout::{column_count, dashboard_columns, pad_to_width, padded, wrap_text, wrapped};
use crate::lists::{position, position_of};
use crate::model::{Document, Item};

verus! {

/// The columns between two cards of a row.
pub const CARD_GAP_X: u16 = 2;

/// The lines between two rows of cards.
pub const CARD_GAP_Y: u16 = 1;

/// The height of a card with few entries.
pub const CARD_MIN_HEIGHT: u16 = 7;

/// `a + b`, staying at `max`.
pub open spec fn sat_add(a: int, b: int, max: int) -> int {
    if a + b > max {
        max
    } else {
        a + b
    }
}

/// `a - b`, staying at zero.
pub open spec fn sat_sub(a: int, b: int) -> int {
    if a > b {
        a - b
    } else {
        0
    }
}

/// The columns of a card's entry text: the card's width less its borders, padding,
/// cursor and mark, at least one.
pub open spec fn item_text_width(width: int) -> int {
    if sat_sub(width, 8) >= 1 {
        sat_sub(width, 8)
    } else {
        1
    }
}

/// The lines the entries `items` of topic `t` take wrapped at `width` columns, added one
/// by one and staying at the largest `usize`.
pub open spec fn item_lines(doc: Document, t: int, items: Seq<usize>, width: int) -> int
    decreases items.len(),
{
    if items.len() == 0 {
        0
    } else {
        sat_add(
            item_lines(doc, t, items.drop_last(), width),
            wrapped(doc.topics@[t].items@[items.last() as int].text@, width).len() as int,
            usize::MAX as int,
        )
    }
}

/// The height of the card of topic `t` drawn `width` columns wide: its entries' lines
/// (one line when it shows none), taken as a `u16`, and four lines of frame and progress,
/// at least `CARD_MIN_HEIGHT`.
pub open spec fn card_height_for(app: App, t: int, width: int) -> int {
    let shown = shown_items(app.document, app.query@, t);
    let list = if shown.len() == 0 {
        1
    } else {
        item_lines(app.document, t, shown, item_text_width(width))
    };
    let height = sat_add(list % 65536, 4, 65535);
    if height < CARD_MIN_HEIGHT {
        CARD_MIN_HEIGHT as int
    } else {
        height
    }
}

/// The line of the card of topic `t` that the selected entry starts on: after the frame
/// and the progress bar, below the lines of the entries shown before it; the first line
/// when no entry is selected.
pub open spec fn selected_line_for(app: App, t: int, width: int) -> int {
    match app.selected_item {
        None => 0,
        Some(selected) => {
            let shown = shown_items(app.document, app.query@, t);
            let before = match position_of(shown, selected) {
                Some(p) => shown.take(p),
                None => shown,
            };
            sat_add(3, item_lines(app.document, t, before, item_text_width(width)) % 65536, 65535)
        },
    }
}

/// The lines the entries `items` of `topic` take wrapped at `width` columns.
fn count_item_lines(app: &App, topic: usize, items: &Vec<usize>, width: usize) -> (lines: usize)
    requires
        topic < app.document.topics@.len(),
        forall|k: int| 0 <= k < items@.len() ==> #[trigger] items@[k]
            < app.document.topics@[topic as int].items@.len(),
    ensures
        lines == item_lines(app.document, topic as int, items@, width as int),
{
    let mut total: usize = 0;
    let mut i: usize = 0;
    while i < items.len()
        invariant
            i <= items@.len(),
            topic < app.document.topics@.len(),
            forall|k: int| 0 <= k < items@.len() ==> #[trigger] items@[k]
                < app.document.topics@[topic as int].items@.len(),
            total == item_lines(app.document, topic as int, items@.take(i as int), width as int),
        decreases items@.len() - i,
    {
        let item = &app.document.topics[topic].items[items[i]];
        let lines = wrap_text(item.text.as_str(), width);
        proof {
            assert(items@.take(i + 1).drop_last() =~= items@.take(i as int));
            assert(crate::cli::texts(lines@).len() == lines@.len());
        }
        total = total.saturating_add(lines.len());
        i = i + 1;
    }
    proof {
        assert(items@.take(items@.len() as int) =~= items@);
    }
    total
}

/// The height of the card of `topic` drawn `width` columns wide.
pub fn card_height(app: &App, topic: usize, width: u16) -> (height: u16)
    ensures
        height == card_height_for(*app, topic as int, width as int),
{
    let text_width: usize = if width > 8 { (width - 8) as usize } else { 1 };
    let items = app.visible_items(topic);
    let list: usize = if items.len() == 0 {
        1
    } else {
        proof {
            lemma_shown_bounds(app.document, app.query@, topic as int);
            assert(topic < app.document.topics@.len());
        }
        count_item_lines(app, topic, &items, text_width)
    };
    let wrapped_list = (list % 65536) as u16;
    let height = wrapped_list.saturating_add(4);
    if height < CARD_MIN_HEIGHT {
        CARD_MIN_HEIGHT
    } else {
        height
    }
}

/// The line of the card of `topic`, drawn `width` columns wide, that the selected entry
/// starts on.
pub fn card_selected_line(app: &App, topic: usize, width: u16) -> (line: u16)
    ensures
        line == selected_line_for(*app, topic as int, width as int),
{
    let selected = match app.selected_item {
        None => {
            return 0;
        },
        Some(s) => s,
    };
    let text_width: usize = if width > 8 { (width - 8) as usize } else { 1 };
    let items = app.visible_items(topic);
    let mut before: Vec<usize> = Vec::new();
    let end = match position(&items, selected) {
        Some(p) => p,
        None => items.len(),
    };
    let mut i: usize = 0;
    while i < end
        invariant
            i <= end <= items@.len(),
            before@ == items@.take(i as int),
        decreases end - i,
    {
        before.push(items[i]);
        proof {
            assert(items@.take(i + 1) =~= items@.take(i as int).push(items@[i as int]));
        }
        i = i + 1;
    }
    let lines: usize = if before.len() == 0 {
        0
    } else {
        proof {
            lemma_shown_bounds(app.document, app.query@, topic as int);
            assert(topic < app.document.topics@.len());
            assert forall|k: int| 0 <= k < before@.len() implies #[trigger] before@[k]
                < app.document.topics@[topic as int].items@.len() by {
                assert(before@[k] == items@[k]);
            }
        }
        count_item_lines(app, topic, &before, text_width)
    };
    proof {
        if end == items@.len() {
            assert(items@.take(end as int) =~= items@);
        }
    }
    3u16.saturating_add((lines % 65536) as u16)
}

/// How far to scroll so that line `selected_y` shows in a viewport `viewport_height`
/// lines tall: up to it when it is above, just far enough when it is below, never past
/// the end of content `content_height` lines tall.
pub open spec fn scroll_for(scroll: int, selected_y: int, viewport_height: int, content_height: int) -> int {
    let moved = if selected_y < scroll {
        selected_y
    } else if selected_y >= sat_add(scroll, viewport_height, 65535) {
        sat_sub(sat_add(selected_y, 1, 65535), viewport_height)
    } else {
        scroll
    };
    let limit = sat_sub(content_height, viewport_height);
    if moved < limit {
        moved
    } else {
        limit
    }
}

/// How far to scroll so that line `selected_y` stays in view.
pub fn scroll_to_selection(scroll: u16, selected_y: u16, viewport_height: u16, content_height: u16) -> (offset: u16)
    ensures
        offset == scroll_for(scroll as int, selected_y as int, viewport_height as int, content_height as int),
{
    let moved = if selected_y < scroll {
        selected_y
    } else if selected_y >= scroll.saturating_add(viewport_height) {
        selected_y.saturating_add(1).saturating_sub(viewport_height)
    } else {
        scroll
    };
    let limit = content_height.saturating_sub(viewport_height);
    if moved < limit {
        moved
    } else {
        limit
    }
}

/// The number of checked entries.
pub open spec fn done_count(items: Seq<Item>) -> nat
    decreases items.len(),
{
    if items.len() == 0 {
        0
    } else {
        done_count(items.drop_last()) + if items.last().done { 1nat } else { 0nat }
    }
}

/// The number of checked entries of `items`.
pub fn count_done(items: &Vec<Item>) -> (done: usize)
    ensures
        done == done_count(items@),
        done <= items@.len(),
{
    let mut done: usize = 0;
    let mut i: usize = 0;
    while i < items.len()
        invariant
            i <= items@.len(),
            done == done_count(items@.take(i as int)),
            done <= i,
        decreases items@.len() - i,
    {
        proof {
            assert(items@.take(i + 1).drop_last() =~= items@.take(i as int));
        }
        if items[i].done {
            done = done + 1;
        }
        i = i + 1;
    }
    proof {
        assert(items@.take(items@.len() as int) =~= items@);
    }
    done
}

/// How many of `width` cells of a progress bar are filled for `done` of `total` entries,
/// rounded to the nearest cell.
pub fn progress_fill(done: usize, total: usize, width: usize) -> (filled: usize)
    requires
        total > 0,
        done * width + total / 2 <= usize::MAX,
    ensures
        filled == (done * width + total / 2) / (total as int),
{
    (done * width + total / 2) / total
}

/// A rectangle of the screen, or of the dashboard's canvas.
#[derive(Clone, Copy, Debug, PartialEq, Eq, Structural)]
pub struct Area {
    pub x: u16,
    pub y: u16,
    pub width: u16,
    pub height: u16,
}

/// Where the card of a topic goes on the dashboard's canvas.
#[derive(Clone, Copy, Debug, PartialEq, Eq, Structural)]
pub struct CardPlacement {
    pub topic: usize,
    pub area: Area,
}

/// The cards of the dashboard, the height of its canvas, and the line the selection is on.
#[derive(Clone, Debug)]
pub struct DashboardLayout {
    pub cards: Vec<CardPlacement>,
    pub height: u16,
    pub selected_y: u16,
}

/// How the cards share the canvas: the number of columns, the width of a card, and the
/// columns left over, which go to the last card of a row.
pub struct Grid {
    pub columns: int,
    pub card_width: int,
    pub remainder: int,
}

/// The number of card columns for a canvas `width` columns wide showing `n` cards: as
/// many as the width holds, no more than the cards, at least one.
pub open spec fn grid_columns(width: int, n: int) -> int {
    let c = if column_count(width) < n { column_count(width) } else { n };
    if c < 1 {
        1
    } else {
        c
    }
}

/// The grid of `n` cards on a canvas `width` columns wide: the width less its last column
/// and the gaps, shared by the columns, each card at least six columns wide.
pub open spec fn grid_for(width: int, n: int) -> Grid {
    let columns = grid_columns(width, n);
    let gaps = CARD_GAP_X * (columns - 1);
    let usable = sat_sub(sat_sub(width, 1), gaps);
    let card_width = if usable / columns < 6 { 6 } else { usable / columns };
    let used = sat_add(if card_width * columns > 65535 { 65535 } else { card_width * columns }, gaps, 65535);
    Grid { columns, card_width, remainder: sat_sub(sat_sub(width, 1), used) }
}

/// The place of the card of `topic` in column `c` of a row at line `y` that is `h` lines
/// tall.
pub open spec fn placement_at(topic: usize, c: int, g: Grid, y: int, h: int) -> CardPlacement {
    let bonus = if c + 1 == g.columns {
        if g.remainder < 1 { g.remainder } else { 1 }
    } else {
        0
    };
    let step = g.card_width + CARD_GAP_X;
    CardPlacement {
        topic,
        area: Area {
            x: (if step * c > 65535 { 65535 } else { step * c }) as u16,
            y: y as u16,
            width: sat_add(g.card_width, bonus, 65535) as u16,
            height: h as u16,
        },
    }
}

/// The height of a row of cards: its tallest card, at least `CARD_MIN_HEIGHT`.
pub open spec fn row_height(app: App, row: Seq<usize>, card_width: int) -> int
    decreases row.len(),
{
    if row.len() == 0 {
        CARD_MIN_HEIGHT as int
    } else {
        let before = row_height(app, row.drop_last(), card_width);
        let last = card_height_for(app, row.last() as int, card_width);
        if last > before {
            last
        } else {
            before
        }
    }
}

/// The line of the selection after the cards `row` of a row at line `y`, starting from
/// `selected_y`: the line of the selected entry within the last card of the selected
/// topic.
pub open spec fn row_selected(app: App, row: Seq<usize>, g: Grid, y: int, h: int, selected_y: int) -> int
    decreases row.len(),
{
    if row.len() == 0 {
        selected_y
    } else {
        let c = row.len() - 1;
        if row.last() == app.selected_topic {
            sat_add(y, selected_line_for(app, row.last() as int, placement_at(row.last(), c, g, y, h).area.width as int), 65535)
        } else {
            row_selected(app, row.drop_last(), g, y, h, selected_y)
        }
    }
}

/// The last card of a row that starts at card `start` of `n`.
pub open spec fn row_end(start: int, columns: int, n: int) -> int {
    if start + columns < n {
        start + columns
    } else {
        n
    }
}

/// The cards from card `start` on, the canvas height after them and the line of the
/// selection, their first row at line `y` and the selection so far at `selected_y`.
pub open spec fn layout_from(app: App, topics: Seq<usize>, g: Grid, start: int, y: int, selected_y: int) -> (Seq<CardPlacement>, int, int)
    decreases topics.len() - start,
{
    if start < 0 || start >= topics.len() || g.columns < 1 {
        (Seq::empty(), y, selected_y)
    } else {
        let end = row_end(start, g.columns, topics.len() as int);
        let row = topics.subrange(start, end);
        let h = row_height(app, row, g.card_width);
        let cards = Seq::new(row.len(), |c: int| placement_at(row[c], c, g, y, h));
        let selected = row_selected(app, row, g, y, h, selected_y);
        let next_y = sat_add(sat_add(y, h, 65535), CARD_GAP_Y as int, 65535);
        let (rest, height, last_selected) = layout_from(app, topics, g, end, next_y, selected);
        (cards + rest, height, last_selected)
    }
}

/// The cards of the topics shown on a canvas `width` columns wide, in rows of columns, the
/// canvas height (at least one line) and the line of the selected entry.
pub open spec fn layout_for(app: App, width: int) -> (Seq<CardPlacement>, int, int) {
    let topics = shown_topics(app.document, app.query@);
    let (cards, height, selected_y) = layout_from(app, topics, grid_for(width, topics.len() as int), 0, 0, 0);
    (cards, if height < 1 { 1 } else { height }, selected_y)
}

/// The cards of the dashboard on a canvas `width` columns wide.
pub fn dashboard_layout(app: &App, width: u16) -> (layout: DashboardLayout)
    requires
        grid_for(width as int, shown_topics(app.document, app.query@).len() as int).card_width + CARD_GAP_X
            <= 65535,
    ensures
        layout.cards@ == layout_for(*app, width as int).0,
        layout.height == layout_for(*app, width as int).1,
        layout.selected_y == layout_for(*app, width as int).2,
{
    let topics = app.visible_topics();
    let n = topics.len();
    let shown = dashboard_columns(width);
    let columns: usize = if shown < n { shown } else { n };
    let columns: usize = if columns < 1 { 1 } else { columns };
    let gaps: u16 = CARD_GAP_X * ((columns - 1) as u16);
    let usable = width.saturating_sub(1).saturating_sub(gaps);
    let share = usable / (columns as u16);
    let card_width: u16 = if share < 6 { 6 } else { share };
    assert((card_width as u32) * (columns as u32) <= 65535 * 4) by (nonlinear_arith)
        requires
            card_width <= 65535,
            columns <= 4,
    ;
    let product: u32 = (card_width as u32) * (columns as u32);
    let product16: u16 = if product > 65535 { 65535 } else { product as u16 };
    let used = product16.saturating_add(gaps);
    let remainder = width.saturating_sub(1).saturating_sub(used);
    let ghost g = grid_for(width as int, n as int);
    proof {
        assert(columns == g.columns);
        assert(card_width == g.card_width);
        assert(remainder == g.remainder);
    }
    let ghost whole = layout_from(*app, topics@, g, 0, 0, 0);
    let mut cards: Vec<CardPlacement> = Vec::new();
    let mut y: u16 = 0;
    let mut selected_y: u16 = 0;
    let mut start: usize = 0;
    while start < n
        invariant
            start <= n == topics@.len(),
            topics@ == shown_topics(app.document, app.query@),
            g == grid_for(width as int, n as int),
            columns == g.columns,
            1 <= columns <= 4,
            card_width == g.card_width,
            remainder == g.remainder,
            card_width + CARD_GAP_X <= 65535,
            whole == layout_from(*app, topics@, g, 0, 0, 0),
            cards@ + layout_from(*app, topics@, g, start as int, y as int, selected_y as int).0 == whole.0,
            layout_from(*app, topics@, g, start as int, y as int, selected_y as int).1 == whole.1,
            layout_from(*app, topics@, g, start as int, y as int, selected_y as int).2 == whole.2,
        decreases n - start,
    {
        let end: usize = if n - start > columns { start + columns } else { n };
        let ghost row = topics@.subrange(start as int, end as int);
        let mut h: u16 = CARD_MIN_HEIGHT;
        let mut k: usize = start;
        while k < end
            invariant
                start <= k <= end <= n == topics@.len(),
                row == topics@.subrange(start as int, end as int),
                h == row_height(*app, topics@.subrange(start as int, k as int), card_width as int),
            decreases end - k,
        {
            let ch = card_height(app, topics[k], card_width);
            proof {
                assert(topics@.subrange(start as int, k + 1).drop_last() =~= topics@.subrange(start as int, k as int));
            }
            if ch > h {
                h = ch;
            }
            k = k + 1;
        }
        let ghost before = cards@;
        let ghost selected_before = selected_y;
        let ghost cards_row = Seq::new(row.len(), |c: int| placement_at(row[c], c, g, y as int, h as int));
        let mut c: usize = 0;
        while start + c < end
            invariant
                start <= end <= n == topics@.len(),
                start + c <= end,
                row == topics@.subrange(start as int, end as int),
                g == grid_for(width as int, n as int),
                columns == g.columns,
                card_width == g.card_width,
                remainder == g.remainder,
                card_width + CARD_GAP_X <= 65535,
                cards_row == Seq::new(row.len(), |c: int| placement_at(row[c], c, g, y as int, h as int)),
                cards@ == before + cards_row.take(c as int),
                selected_y == row_selected(*app, row.take(c as int), g, y as int, h as int, selected_before as int),
                end - start <= columns,
            decreases end - start - c,
        {
            let topic = topics[start + c];
            let bonus: u16 = if c + 1 == columns {
                if remainder < 1 { remainder } else { 1 }
            } else {
                0
            };
            let step: u32 = (card_width + CARD_GAP_X) as u32;
            assert(step * (c as u32) <= 65535 * 4) by (nonlinear_arith)
                requires
                    step <= 65535,
                    c < 4,
            ;
            let offset: u32 = step * (c as u32);
            let x: u16 = if offset > 65535 { 65535 } else { offset as u16 };
            let area = Area { x, y, width: card_width.saturating_add(bonus), height: h };
            if topic == app.selected_topic {
                selected_y = y.saturating_add(card_selected_line(app, topic, area.width));
            }
            cards.push(CardPlacement { topic, area });
            proof {
                assert(row.take(c + 1).drop_last() =~= row.take(c as int));
                assert(row.take(c + 1).last() == topic);
                assert(area == placement_at(topic, c as int, g, y as int, h as int).area);
                assert(cards_row.take(c + 1) =~= cards_row.take(c as int).push(cards_row[c as int]));
            }
            c = c + 1;
        }
        proof {
            assert(row.take(row.len() as int) =~= row);
            assert(cards_row.take(cards_row.len() as int) =~= cards_row);
            assert(end as int == row_end(start as int, g.columns, n as int));
        }
        y = y.saturating_add(h).saturating_add(CARD_GAP_Y);
        proof {
            assert(cards@ == before + cards_row);
        }
        start = end;
    }
    proof {
        assert(layout_from(*app, topics@, g, n as int, y as int, selected_y as int).0 =~= Seq::<CardPlacement>::empty());
        assert(cards@ =~= whole.0);
    }
    DashboardLayout { cards, height: if y < 1 { 1 } else { y }, selected_y }
}

/// A rectangle `preferred_width` by `preferred_height` in the middle of `area`, shrunk to
/// leave a column and a line free on each side, at least one by one.
pub open spec fn centered_for(area: Area, preferred_width: int, preferred_height: int) -> Area {
    let w = if preferred_width < sat_sub(area.width as int, 2) { preferred_width } else { sat_sub(area.width as int, 2) };
    let w = if w < 1 { 1 } else { w };
    let h = if preferred_height < sat_sub(area.height as int, 2) { preferred_height } else { sat_sub(area.height as int, 2) };
    let h = if h < 1 { 1 } else { h };
    Area {
        x: (area.x + sat_sub(area.width as int, w) / 2) as u16,
        y: (area.y + sat_sub(area.height as int, h) / 2) as u16,
        width: w as u16,
        height: h as u16,
    }
}

/// A rectangle in the middle of `area`.
pub fn centered_area(area: Area, preferred_width: u16, preferred_height: u16) -> (popup: Area)
    requires
        area.x + area.width <= 65535,
        area.y + area.height <= 65535,
    ensures
        popup == centered_for(area, preferred_width as int, preferred_height as int),
{
    let width = {
        let w = if preferred_width < area.width.saturating_sub(2) { preferred_width } else { area.width.saturating_sub(2) };
        if w < 1 { 1 } else { w }
    };
    let height = {
        let h = if preferred_height < area.height.saturating_sub(2) { preferred_height } else { area.height.saturating_sub(2) };
        if h < 1 { 1 } else { h }
    };
    Area {
        x: area.x + area.width.saturating_sub(width) / 2,
        y: area.y + area.height.saturating_sub(height) / 2,
        width,
        height,
    }
}

/// The centred rectangle moved up to three lines below the top of `area`, unless that
/// would take it past the bottom.
pub open spec fn top_centered_for(area: Area, preferred_width: int, preferred_height: int) -> Area {
    let popup = centered_for(area, preferred_width, preferred_height);
    let top = sat_add(area.y as int, 3, 65535);
    let lowest = sat_sub(sat_add(area.y as int, area.height as int, 65535), popup.height as int);
    Area { y: (if top < lowest { top } else { lowest }) as u16, ..popup }
}

/// A rectangle near the top of `area`, centred across it.
pub fn top_centered_area(area: Area, preferred_width: u16, preferred_height: u16) -> (popup: Area)
    requires
        area.x + area.width <= 65535,
        area.y + area.height <= 65535,
    ensures
        popup == top_centered_for(area, preferred_width as int, preferred_height as int),
{
    let popup = centered_area(area, preferred_width, preferred_height);
    let top = area.y.saturating_add(3);
    let lowest = area.y.saturating_add(area.height).saturating_sub(popup.height);
    Area { y: if top < lowest { top } else { lowest }, ..popup }
}

/// The day of the month in slot `slot` of a month grid whose first day falls in slot
/// `offset`, for a month of `days` days; none for the slots around the month.
pub open spec fn grid_day_for(slot: int, offset: int, days: int) -> Option<int> {
    if slot >= offset && slot - offset + 1 <= days {
        Some(slot - offset + 1)
    } else {
        None
    }
}

/// The day of the month in slot `slot` of a month grid.
pub fn grid_day(slot: usize, offset: u32, days: u32) -> (day: Option<u32>)
    ensures
        day matches Some(d) ==> grid_day_for(slot as int, offset as int, days as int) == Some(d as int),
        day is None ==> grid_day_for(slot as int, offset as int, days as int) is None,
{
    let offset = offset as usize;
    if slot >= offset && slot - offset < days as usize {
        Some((slot - offset) as u32 + 1)
    } else {
        None
    }
}

/// The first row a list shows in `visible` rows, from `scroll`, so that row `selected`
/// shows: up to it when above, just far enough when below, never past the end of `count`
/// rows; each row number taken as a `u16`.
pub open spec fn list_scroll_for(scroll: int, selected: Option<int>, visible: int, count: int) -> int {
    let moved = match selected {
        Some(s) => if s < scroll {
            s % 65536
        } else if s >= scroll + visible {
            sat_sub(sat_add(s, 1, usize::MAX as int), visible) % 65536
        } else {
            scroll
        },
        None => scroll,
    };
    let limit = sat_sub(count, visible) % 65536;
    if moved < limit {
        moved
    } else {
        limit
    }
}

/// The first row a list shows so that its selected row stays in view.
pub fn list_scroll(scroll: u16, selected: Option<usize>, visible: usize, count: usize) -> (first: u16)
    requires
        visible <= 65535,
    ensures
        first == list_scroll_for(scroll as int, match selected { Some(s) => Some(s as int), None => None }, visible as int, count as int),
{
    let moved: u16 = match selected {
        Some(s) => if s < scroll as usize {
            (s % 65536) as u16
        } else if s >= scroll as usize + visible {
            (s.saturating_add(1).saturating_sub(visible) % 65536) as u16
        } else {
            scroll
        },
        None => scroll,
    };
    let limit = (count.saturating_sub(visible) % 65536) as u16;
    if moved < limit {
        moved
    } else {
        limit
    }
}

/// One line of a card's entry list: the entry it shows, whether it is the entry's first
/// line, whether the entry is selected and checked, and its text padded to the width.
#[derive(Clone, Debug)]
pub struct CardLine {
    pub item: usize,
    pub first: bool,
    pub selected: bool,
    pub done: bool,
    pub text: String,
}

/// A card line as plain values.
pub open spec fn line_view(line: CardLine) -> (usize, bool, bool, bool, Seq<char>) {
    (line.item, line.first, line.selected, line.done, line.text@)
}

/// The lines of entry `j` of topic `t`: its text wrapped at `width` columns, each line
/// padded to the width.
pub open spec fn lines_of_item(doc: Document, t: int, j: usize, selected: bool, width: int) -> Seq<(usize, bool, bool, bool, Seq<char>)> {
    let item = doc.topics@[t].items@[j as int];
    let parts = wrapped(item.text@, width);
    Seq::new(parts.len(), |i: int| (j, i == 0, selected, item.done, padded(parts[i], width)))
}

/// The lines of the entries `items` of topic `t`, in order; an entry is selected when the
/// card is focused and the entry is the selected one.
pub open spec fn lines_of_items(app: App, t: int, items: Seq<usize>, focused: bool, width: int) -> Seq<(usize, bool, bool, bool, Seq<char>)>
    decreases items.len(),
{
    if items.len() == 0 {
        Seq::empty()
    } else {
        lines_of_items(app, t, items.drop_last(), focused, width) + lines_of_item(
            app.document,
            t,
            items.last(),
            focused && app.selected_item == Some(items.last()),
            width,
        )
    }
}

/// The columns an entry's text takes on a card whose inside is `width` columns wide: less
/// the cursor and the mark, at least one.
pub open spec fn card_text_width(width: int) -> int {
    if sat_sub(width, 4) >= 1 {
        sat_sub(width, 4)
    } else {
        1
    }
}

/// The lines of the entries the card of `topic` shows, on a card whose inside is `width`
/// columns wide; the card is `focused` when its topic is selected.
pub fn card_item_lines(app: &App, topic: usize, width: u16, focused: bool) -> (lines: Vec<CardLine>)
    ensures
        lines@.map_values(|l: CardLine| line_view(l)) == lines_of_items(
            *app,
            topic as int,
            shown_items(app.document, app.query@, topic as int),
            focused,
            card_text_width(width as int),
        ),
{
    let text_width: usize = if width > 4 { (width - 4) as usize } else { 1 };
    let items = app.visible_items(topic);
    let mut lines: Vec<CardLine> = Vec::new();
    if items.len() == 0 {
        proof {
            assert(lines@.map_values(|l: CardLine| line_view(l)) =~= Seq::empty());
        }
        return lines;
    }
    proof {
        lemma_shown_bounds(app.document, app.query@, topic as int);
    }
    let mut k: usize = 0;
    while k < items.len()
        invariant
            k <= items@.len(),
            items@ == shown_items(app.document, app.query@, topic as int),
            items@.len() > 0,
            topic < app.document.topics@.len(),
            forall|x: int| 0 <= x < items@.len() ==> #[trigger] items@[x]
                < app.document.topics@[topic as int].items@.len(),
            text_width == card_text_width(width as int),
            lines@.map_values(|l: CardLine| line_view(l)) == lines_of_items(
                *app,
                topic as int,
                items@.take(k as int),
                focused,
                text_width as int,
            ),
        decreases items@.len() - k,
    {
        let j = items[k];
        let item = &app.document.topics[topic].items[j];
        let selected = focused && app.selected_item == Some(j);
        let parts = wrap_text(item.text.as_str(), text_width);
        let ghost before = lines@.map_values(|l: CardLine| line_view(l));
        let ghost own = lines_of_item(app.document, topic as int, j, selected, text_width as int);
        let mut i: usize = 0;
        while i < parts.len()
            invariant
                i <= parts@.len(),
                crate::cli::texts(parts@) == wrapped(item.text@, text_width as int),
                *item == app.document.topics@[topic as int].items@[j as int],
                own == lines_of_item(app.document, topic as int, j, selected, text_width as int),
                lines@.map_values(|l: CardLine| line_view(l)) == before + own.take(i as int),
            decreases parts@.len() - i,
        {
            let text = pad_to_width(parts[i].as_str(), text_width);
            let line = CardLine { item: j, first: i == 0, selected, done: item.done, text };
            proof {
                assert(parts@[i as int]@ == crate::cli::texts(parts@)[i as int]);
                assert(line_view(line) == own[i as int]);
            }
            let ghost old_lines = lines@;
            lines.push(line);
            proof {
                assert(lines@.map_values(|l: CardLine| line_view(l)) =~= old_lines.map_values(
                    |l: CardLine| line_view(l),
                ).push(line_view(line)));
                assert(own.take(i + 1) =~= own.take(i as int).push(own[i as int]));
                assert(lines@.map_values(|l: CardLine| line_view(l)) =~= before + own.take(i + 1));
            }
            i = i + 1;
        }
        proof {
            assert(crate::cli::texts(parts@).len() == parts@.len());
            assert(own.take(parts@.len() as int) =~= own);
            assert(items@.take(k + 1).drop_last() =~= items@.take(k as int));
            assert(items@.take(k + 1).last() == j);
        }
        k = k + 1;
    }
    proof {
        assert(items@.take(items@.len() as int) =~= items@);
    }
    lines
}

/// What a card says when it shows no entries: how to add the first one, or that none
/// matches the search.
pub fn card_placeholder(app: &App, topic: usize) -> (text: &'static str)
    requires
        topic < app.document.topics@.len(),
    ensures
        text@ == if app.document.topics@[topic as int].items@.len() == 0 {
            "Press a to add the first entry"@
        } else {
            "No matching entries"@
        },
{
    if app.document.topics[topic].items.len() == 0 {
        "Press a to add the first entry"
    } else {
        "No matching entries"
    }
}

} // verus!
