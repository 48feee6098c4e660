//! What the panel shows: the candidate bar and what is unfolded below it.
//!
//! The cells and rows here are laid out as the hit tests of [`crate::menu`] take
//! them to be.

use vstd::prelude::*;
use vstd::string::*;

use crate::menu::{
    content_cell_width, content_columns_for, content_text_width, truncate_to_width, GridItem,
    ListItem, ListKind, MenuAction, PanelView, CONTENT_GAP, CONTENT_ROWS, LIST_BUTTON_SIZE,
    LIST_H_INSET, LIST_LIMIT, LIST_MIN_PANEL_WIDTH, MENU_COLUMNS,
};
use crate::text::{decimal, measured_width};
use crate::theme::Rgb;

verus! {

// ── Candidate bar ──────────────────────────────────────────────────────────

/// A candidate for the typed code.
#[derive(Debug, Clone, PartialEq, Eq)]
pub struct CandidateItem {
    pub text: String,
    pub comment: String,
    pub index: usize,
}

/// A cell of the candidate bar.
#[derive(Debug, Clone, PartialEq, Eq)]
pub struct CandidateCell {
    pub label: String,
    pub comment: String,
    pub highlighted: bool,
}

/// The cell of the candidate at a position: numbered from one, with its comment,
/// highlighted where it is chosen.
pub open spec fn is_candidate_cell(
    cell: CandidateCell,
    candidate: CandidateItem,
    position: int,
    highlighted_index: usize,
) -> bool {
    &&& cell.label@ == crate::text::decimal_notation((position + 1) as nat) + ". "@
        + candidate.text@
    &&& cell.comment@ == candidate.comment@
    &&& cell.highlighted == (position == highlighted_index)
}

/// The cells of the candidate bar: one for each candidate, in order.
pub open spec fn is_candidate_bar(
    cells: Seq<CandidateCell>,
    candidates: Seq<CandidateItem>,
    highlighted_index: usize,
) -> bool {
    &&& cells.len() == candidates.len()
    &&& forall|i: int|
        0 <= i < cells.len() ==> is_candidate_cell(
            #[trigger] cells[i],
            candidates[i],
            i,
            highlighted_index,
        )
}

/// Lays out the candidate bar.
pub fn candidate_items(candidates: &[CandidateItem], highlighted_index: usize) -> (cells: Vec<
    CandidateCell,
>)
    ensures
        is_candidate_bar(cells@, candidates@, highlighted_index),
{
    let mut cells: Vec<CandidateCell> = Vec::new();
    let n: usize = candidates.len();
    for i in 0..n
        invariant
            n == candidates@.len(),
            is_candidate_bar(cells@, candidates@.take(i as int), highlighted_index),
    {
        let mut label = decimal(i + 1);
        label.append(". ");
        label.append(candidates[i].text.as_str());
        cells.push(
            CandidateCell {
                label,
                comment: candidates[i].comment.clone(),
                highlighted: i == highlighted_index,
            },
        );
    }
    assert(candidates@.take(n as int) =~= candidates@);
    cells
}

// ── Menu ───────────────────────────────────────────────────────────────────

/// The colour of the menu entry at a position.
pub open spec fn menu_color(position: int) -> Rgb {
    if position == 0 {
        Rgb { r: 0x8F, g: 0x73, b: 0xE2 }
    } else if position == 1 {
        Rgb { r: 0x1A, g: 0x73, b: 0xE8 }
    } else if position == 2 {
        Rgb { r: 0x2E, g: 0xA0, b: 0x7D }
    } else {
        Rgb { r: 0xE5, g: 0x8F, b: 0x2A }
    }
}

/// The colour of the menu entry at a position.
pub fn menu_item_color(position: usize) -> (color: Rgb)
    ensures
        color == menu_color(position as int),
{
    match position {
        0 => Rgb { r: 0x8F, g: 0x73, b: 0xE2 },
        1 => Rgb { r: 0x1A, g: 0x73, b: 0xE8 },
        2 => Rgb { r: 0x2E, g: 0xA0, b: 0x7D },
        _ => Rgb { r: 0xE5, g: 0x8F, b: 0x2A },
    }
}

/// A cell of the menu.
#[derive(Debug, Clone, Copy, PartialEq, Eq)]
pub struct MenuCell {
    pub action: MenuAction,
    pub label: &'static str,
    /// The character on the entry's coloured chip.
    pub initial: char,
    pub color: Rgb,
    pub active: bool,
}

/// The cell of a menu entry.
pub open spec fn is_menu_cell(cell: MenuCell, action: MenuAction, active: bool) -> bool {
    &&& cell.action == action
    &&& cell.label@ == action.label_text()
    &&& cell.initial == action.label_text()[0]
    &&& cell.color == menu_color(action.position())
    &&& cell.active == active
}

/// Lays out the cell of a menu entry.
pub fn menu_cell(action: MenuAction, active: bool) -> (cell: MenuCell)
    ensures
        is_menu_cell(cell, action, active),
{
    let label = action.label();
    proof {
        reveal_strlit("表情");
        reveal_strlit("符号");
        reveal_strlit("剪切板");
        reveal_strlit("快捷发送");
    }
    MenuCell {
        action,
        label,
        initial: label.get_char(0),
        color: menu_item_color(action.index()),
        active,
    }
}

/// The cell of the menu grid at a position.
pub open spec fn is_menu_grid_cell(
    cell: Option<MenuCell>,
    position: int,
    active_index: Option<usize>,
) -> bool {
    match (cell, MenuAction::at(position)) {
        (Some(cell), Some(action)) => is_menu_cell(
            cell,
            action,
            active_index matches Some(active) && active == position,
        ),
        (None, None) => true,
        _ => false,
    }
}

/// The menu: its entries in rows of [`MENU_COLUMNS`].
pub open spec fn is_menu_grid(
    rows: Seq<Vec<Option<MenuCell>>>,
    active_index: Option<usize>,
) -> bool {
    &&& rows.len() == MenuAction::ALL@.len() / MENU_COLUMNS as nat
    &&& forall|row: int|
        0 <= row < rows.len() ==> is_menu_row(#[trigger] rows[row]@, row, active_index)
}

/// A row of the menu.
pub open spec fn is_menu_row(
    cells: Seq<Option<MenuCell>>,
    row: int,
    active_index: Option<usize>,
) -> bool {
    &&& cells.len() == MENU_COLUMNS
    &&& forall|col: int|
        0 <= col < cells.len() ==> is_menu_grid_cell(
            #[trigger] cells[col],
            row * MENU_COLUMNS + col,
            active_index,
        )
}

/// Lays out the menu.
pub fn menu_grid(active_index: Option<usize>) -> (rows: Vec<Vec<Option<MenuCell>>>)
    ensures
        is_menu_grid(rows@, active_index),
{
    let mut rows: Vec<Vec<Option<MenuCell>>> = Vec::new();
    let count: usize = MenuAction::ALL.len() / MENU_COLUMNS;
    for row in 0..count
        invariant
            count == MenuAction::ALL@.len() / MENU_COLUMNS as nat,
            rows@.len() == row,
            forall|r: int| 0 <= r < row ==> is_menu_row(#[trigger] rows@[r]@, r, active_index),
    {
        let mut cells: Vec<Option<MenuCell>> = Vec::new();
        for col in 0..MENU_COLUMNS
            invariant
                row < count,
                count == MenuAction::ALL@.len() / MENU_COLUMNS as nat,
                cells@.len() == col,
                forall|c: int|
                    0 <= c < col ==> is_menu_grid_cell(
                        #[trigger] cells@[c],
                        row * MENU_COLUMNS + c,
                        active_index,
                    ),
        {
            let position: usize = row * MENU_COLUMNS + col;
            let cell = match MenuAction::from_index(position) {
                Some(action) => {
                    let active: bool = match active_index {
                        Some(active) => active == position,
                        None => false,
                    };
                    Some(menu_cell(action, active))
                },
                None => None,
            };
            cells.push(cell);
        }
        rows.push(cells);
    }
    rows
}

/// A click on the menu hits the entry whose cell is drawn there.
pub proof fn law_menu_cells_are_hit(
    rows: Seq<Vec<Option<MenuCell>>>,
    active_index: Option<usize>,
    x: int,
    local_y: int,
    container_width: int,
)
    requires
        is_menu_grid(rows, active_index),
        0 <= x < container_width,
        0 <= local_y < crate::menu::menu_height(),
    ensures
        ({
            let (row, col) = crate::menu::menu_cell_at(x, local_y, container_width);
            &&& 0 <= row < rows.len()
            &&& 0 <= col < rows[row]@.len()
            &&& rows[row]@[col] matches Some(cell) && MenuAction::at(row * MENU_COLUMNS + col)
                == Some(cell.action)
        }),
{
    crate::menu::law_menu_has_no_gaps(x, local_y, container_width);
    let (row, col) = crate::menu::menu_cell_at(x, local_y, container_width);
    assert(is_menu_row(rows[row]@, row, active_index));
    assert(is_menu_grid_cell(rows[row]@[col], row * MENU_COLUMNS + col, active_index));
}

// ── Content grid ───────────────────────────────────────────────────────────

/// The width of the widest text of some items.
pub open spec fn widest_text(items: Seq<GridItem>) -> nat
    decreases items.len(),
{
    if items.len() == 0 {
        0
    } else {
        let before = widest_text(items.drop_last());
        let last = crate::text::text_width(items.last().text@);
        if last > before {
            last
        } else {
            before
        }
    }
}

/// A cell of the content grid.
#[derive(Debug, Clone, PartialEq, Eq)]
pub struct ContentCell {
    pub text: String,
    pub highlighted: bool,
}

/// The content grid: [`CONTENT_ROWS`] rows of equally wide cells.
#[derive(Debug, Clone, PartialEq, Eq)]
pub struct ContentGrid {
    pub cell_width: u32,
    pub columns: usize,
    /// Cells without an item stay empty.
    pub rows: Vec<Vec<Option<ContentCell>>>,
}

/// The cell of the content grid at a position.
pub open spec fn is_content_cell(
    cell: Option<ContentCell>,
    items: Seq<GridItem>,
    position: int,
    highlighted: Option<usize>,
) -> bool {
    match cell {
        Some(cell) => {
            &&& position < items.len()
            &&& cell.text@ == items[position].text@
            &&& cell.highlighted == (highlighted matches Some(index) && index == position)
        },
        None => position >= items.len(),
    }
}

/// A row of the content grid.
pub open spec fn is_content_row(
    cells: Seq<Option<ContentCell>>,
    items: Seq<GridItem>,
    row: int,
    columns: int,
    highlighted: Option<usize>,
) -> bool {
    &&& cells.len() == columns
    &&& forall|col: int|
        0 <= col < cells.len() ==> is_content_cell(
            #[trigger] cells[col],
            items,
            row * columns + col,
            highlighted,
        )
}

/// The grid for some items: as many columns as the widest text leaves room for,
/// and the items in the cells row by row.
pub open spec fn is_content_grid(
    grid: ContentGrid,
    items: Seq<GridItem>,
    highlighted: Option<usize>,
) -> bool {
    &&& grid.cell_width == crate::menu::cell_width_of(widest_text(items) as int)
    &&& grid.columns == crate::menu::columns_of(grid.cell_width as int)
    &&& grid.rows@.len() == CONTENT_ROWS
    &&& forall|row: int|
        0 <= row < grid.rows@.len() ==> is_content_row(
            #[trigger] grid.rows@[row]@,
            items,
            row,
            grid.columns as int,
            highlighted,
        )
}

/// The widths of all texts fit, with the room that a cell and its gap add.
pub open spec fn grid_texts_fit(items: Seq<GridItem>) -> bool {
    forall|i: int|
        0 <= i < items.len() ==> crate::menu::cell_width_of(
            crate::text::text_width((#[trigger] items[i]).text@) as int,
        ) + CONTENT_GAP <= u32::MAX
}

/// Finds the width of the widest text.
fn widest(items: &[GridItem]) -> (width: u32)
    requires
        grid_texts_fit(items@),
    ensures
        width == widest_text(items@),
        crate::menu::cell_width_of(width as int) + CONTENT_GAP <= u32::MAX,
{
    let mut width: u32 = 0;
    let n: usize = items.len();
    for i in 0..n
        invariant
            n == items@.len(),
            grid_texts_fit(items@),
            width == widest_text(items@.take(i as int)),
            crate::menu::cell_width_of(width as int) + CONTENT_GAP <= u32::MAX,
    {
        assert(items@.take(i + 1).drop_last() =~= items@.take(i as int));
        let own: u32 = content_text_width(items[i].text.as_str());
        if own > width {
            width = own;
        }
    }
    assert(items@.take(n as int) =~= items@);
    width
}

/// Lays out the content grid.
pub fn content_grid(items: &[GridItem], highlighted: Option<usize>) -> (grid: ContentGrid)
    requires
        grid_texts_fit(items@),
    ensures
        is_content_grid(grid, items@, highlighted),
{
    let cell_width: u32 = content_cell_width(widest(items));
    let columns: usize = content_columns_for(cell_width);
    let mut rows: Vec<Vec<Option<ContentCell>>> = Vec::new();
    for row in 0..CONTENT_ROWS
        invariant
            columns <= 10,
            rows@.len() == row,
            forall|r: int|
                0 <= r < row ==> is_content_row(
                    #[trigger] rows@[r]@,
                    items@,
                    r,
                    columns as int,
                    highlighted,
                ),
    {
        rows.push(content_row(items, row, columns, highlighted));
    }
    ContentGrid { cell_width, columns, rows }
}

/// Lays out a row of the content grid.
fn content_row(
    items: &[GridItem],
    row: usize,
    columns: usize,
    highlighted: Option<usize>,
) -> (cells: Vec<Option<ContentCell>>)
    requires
        row < CONTENT_ROWS,
        columns <= 10,
    ensures
        is_content_row(cells@, items@, row as int, columns as int, highlighted),
{
    let mut cells: Vec<Option<ContentCell>> = Vec::new();
    assert(row * columns <= 30) by (nonlinear_arith)
        requires
            row <= 3,
            columns <= 10,
    ;
    for col in 0..columns
        invariant
            row * columns <= 30,
            columns <= 10,
            cells@.len() == col,
            forall|c: int|
                0 <= c < col ==> is_content_cell(
                    #[trigger] cells@[c],
                    items@,
                    row * columns + c,
                    highlighted,
                ),
    {
        let position: usize = row * columns + col;
        if position < items.len() {
            let chosen: bool = match highlighted {
                Some(index) => index == position,
                None => false,
            };
            cells.push(
                Some(ContentCell { text: items[position].text.clone(), highlighted: chosen }),
            );
        } else {
            cells.push(None);
        }
    }
    cells
}

/// A click on the content grid hits the item whose cell is drawn there, and no item
/// where the cell is empty.
pub proof fn law_content_cells_are_hit(
    grid: ContentGrid,
    items: Seq<GridItem>,
    highlighted: Option<usize>,
    x: int,
    local_y: int,
    panel_width: int,
)
    requires
        is_content_grid(grid, items, highlighted),
        0 <= x < panel_width,
        0 <= local_y < crate::menu::content_height(),
    ensures
        ({
            let columns = grid.columns as int;
            let (row, col) = crate::menu::content_cell_at(x, local_y, panel_width, columns);
            let index = crate::menu::content_index_at(x, local_y, panel_width, columns);
            &&& 0 <= row < grid.rows@.len()
            &&& 0 <= col < grid.rows@[row]@.len()
            &&& grid.rows@[row]@[col] is Some <==> index < items.len()
            &&& grid.rows@[row]@[col] matches Some(cell) ==> cell.text@ == items[index].text@
        }),
{
    let columns = grid.columns as int;
    crate::menu::law_content_hit_in_cell(x, local_y, panel_width, columns);
    let (row, col) = crate::menu::content_cell_at(x, local_y, panel_width, columns);
    let index = crate::menu::content_index_at(x, local_y, panel_width, columns);
    vstd::arithmetic::div_mod::lemma_mod_bound(index, columns);
    assert(0 <= row < CONTENT_ROWS);
    assert(is_content_row(grid.rows@[row]@, items, row, columns, highlighted));
    assert(is_content_cell(grid.rows@[row]@[col], items, row * columns + col, highlighted));
}

// ── List page ──────────────────────────────────────────────────────────────

/// A row of the list page.
#[derive(Debug, Clone, PartialEq, Eq)]
pub struct ListRow {
    /// The entry's text, cut to the room beside the buttons.
    pub text: String,
    /// Whether a star marks the entry.
    pub pinned: bool,
    pub has_quick_send_button: bool,
    pub highlighted: bool,
}

/// The list page.
#[derive(Debug, Clone, PartialEq, Eq)]
pub struct ListPage {
    pub title: &'static str,
    /// A page without entries shows a notice in place of its rows.
    pub empty: bool,
    /// [`LIST_LIMIT`] rows, those without an entry blank.
    pub rows: Vec<Option<ListRow>>,
}

/// The room for a row's text: the narrowest page without insets, buttons and some
/// space around them.
pub open spec fn row_text_room(kind: ListKind) -> int {
    LIST_MIN_PANEL_WIDTH - (2 * LIST_H_INSET + crate::menu::row_actions_width(
        kind is QuickSend,
    ) + 24)
}

/// The row of an entry.
pub open spec fn is_list_row(
    row: ListRow,
    item: ListItem,
    highlighted: bool,
    kind: ListKind,
) -> bool {
    &&& row.text@ == crate::menu::truncated(item.text@, row_text_room(kind))
    &&& row.pinned == item.is_pinned
    &&& row.has_quick_send_button == (kind is Clipboard)
    &&& row.highlighted == highlighted
}

/// Lays out the row of an entry.
pub fn list_row(item: &ListItem, highlighted: bool, kind: ListKind) -> (row: ListRow)
    requires
        crate::text::text_width(item.text@) <= u32::MAX,
    ensures
        is_list_row(row, *item, highlighted, kind),
{
    let has_quick_send_button: bool = kind.has_quick_send_button();
    let actions_width: u32 = if has_quick_send_button {
        LIST_BUTTON_SIZE * 2 + 6
    } else {
        LIST_BUTTON_SIZE
    };
    let room: u32 = LIST_MIN_PANEL_WIDTH.saturating_sub(2 * LIST_H_INSET + actions_width + 24);
    ListRow {
        text: truncate_to_width(item.text.as_str(), room),
        pinned: item.is_pinned,
        has_quick_send_button,
        highlighted,
    }
}

/// The row at a position of the page.
pub open spec fn is_list_page_row(
    row: Option<ListRow>,
    kind: ListKind,
    items: Seq<ListItem>,
    position: int,
    highlighted: Option<usize>,
) -> bool {
    match row {
        Some(row) => position < items.len() && is_list_row(
            row,
            items[position],
            highlighted matches Some(index) && index == position,
            kind,
        ),
        None => position >= items.len(),
    }
}

/// The page for some entries: their first ones, one to a row.
pub open spec fn is_list_page(
    page: ListPage,
    kind: ListKind,
    items: Seq<ListItem>,
    highlighted: Option<usize>,
) -> bool {
    &&& page.title@ == kind.title_text()
    &&& page.empty == (items.len() == 0)
    &&& page.rows@.len() == LIST_LIMIT
    &&& forall|i: int|
        0 <= i < page.rows@.len() ==> is_list_page_row(
            #[trigger] page.rows@[i],
            kind,
            items,
            i,
            highlighted,
        )
}

/// The widths of the texts that the page shows fit.
pub open spec fn list_texts_fit(items: Seq<ListItem>) -> bool {
    forall|i: int|
        0 <= i < items.len() && i < LIST_LIMIT ==> crate::text::text_width(
            (#[trigger] items[i]).text@,
        ) <= u32::MAX
}

/// Lays out the list page.
pub fn list_page(kind: ListKind, items: &[ListItem], highlighted: Option<usize>) -> (page:
    ListPage)
    requires
        list_texts_fit(items@),
    ensures
        is_list_page(page, kind, items@, highlighted),
{
    let mut rows: Vec<Option<ListRow>> = Vec::new();
    for i in 0..LIST_LIMIT
        invariant
            list_texts_fit(items@),
            rows@.len() == i,
            forall|k: int|
                0 <= k < i ==> is_list_page_row(
                    #[trigger] rows@[k],
                    kind,
                    items@,
                    k,
                    highlighted,
                ),
    {
        if i < items.len() {
            let chosen: bool = match highlighted {
                Some(index) => index == i,
                None => false,
            };
            rows.push(Some(list_row(&items[i], chosen, kind)));
        } else {
            rows.push(None);
        }
    }
    ListPage { title: kind.title(), empty: items.len() == 0, rows }
}

/// A click on the list page hits only rows that show an entry, and only buttons
/// that the row has.
pub proof fn law_hit_rows_are_drawn(
    page: ListPage,
    kind: ListKind,
    items: Seq<ListItem>,
    highlighted: Option<usize>,
    x: int,
    local_y: int,
    w: int,
)
    requires
        is_list_page(page, kind, items, highlighted),
        0 <= local_y < crate::menu::list_height(),
    ensures
        crate::menu::list_hit_at(
            x,
            local_y,
            w,
            items.len() as int,
            kind is QuickSend,
        ) matches Some(crate::menu::ListHit::Row { index, button }) ==> {
            &&& index < page.rows@.len()
            &&& page.rows@[index as int] matches Some(row) && (button == Some(
                crate::menu::ListRowButton::QuickSend,
            ) ==> row.has_quick_send_button)
        },
{
    if let Some(i) = crate::menu::row_at(local_y) {
        if 0 <= i < LIST_LIMIT {
            assert(is_list_page_row(page.rows@[i], kind, items, i, highlighted));
        }
    }
}

// ── The whole panel ────────────────────────────────────────────────────────

/// What is unfolded below the candidate bar, laid out.
#[derive(Debug, Clone, PartialEq, Eq)]
pub enum PanelBody {
    Closed,
    Menu(Vec<Vec<Option<MenuCell>>>),
    Content(ContentGrid),
    List(ListPage),
}

/// The panel, laid out.
#[derive(Debug, Clone, PartialEq, Eq)]
pub struct Panel {
    pub bar: Vec<CandidateCell>,
    pub body: PanelBody,
}

/// The part of the panel below the candidate bar.
pub open spec fn is_panel_body(body: PanelBody, view: PanelView) -> bool {
    match (body, view) {
        (PanelBody::Closed, PanelView::Closed) => true,
        (PanelBody::Menu(rows), PanelView::Menu(active)) => is_menu_grid(rows@, active),
        (
            PanelBody::Content(grid),
            PanelView::Content { items, highlighted },
        ) => is_content_grid(grid, items@, highlighted),
        (
            PanelBody::List(page),
            PanelView::List { kind, items, highlighted },
        ) => is_list_page(page, kind, items@, highlighted),
        _ => false,
    }
}

/// The widths of all texts of a view fit.
pub open spec fn view_texts_fit(view: PanelView) -> bool {
    match view {
        PanelView::Content { items, .. } => grid_texts_fit(items@),
        PanelView::List { items, .. } => list_texts_fit(items@),
        _ => true,
    }
}

fn grid_fits(items: &[GridItem]) -> (fits: bool)
    ensures
        fits == grid_texts_fit(items@),
{
    let n: usize = items.len();
    for i in 0..n
        invariant
            n == items@.len(),
            grid_texts_fit(items@.take(i as int)),
    {
        let limit: u32 = u32::MAX - CONTENT_GAP - 16;
        match measured_width(items[i].text.as_str()) {
            Some(width) => {
                if width > limit {
                    return false;
                }
            },
            None => {
                return false;
            },
        }
    }
    assert(items@.take(n as int) =~= items@);
    true
}

fn list_fits(items: &[ListItem]) -> (fits: bool)
    ensures
        fits == list_texts_fit(items@),
{
    let n: usize = if items.len() < LIST_LIMIT {
        items.len()
    } else {
        LIST_LIMIT
    };
    for i in 0..n
        invariant
            n <= items@.len(),
            n <= LIST_LIMIT,
            list_texts_fit(items@.take(i as int)),
    {
        if measured_width(items[i].text.as_str()).is_none() {
            return false;
        }
    }
    assert forall|i: int| 0 <= i < items@.len() && i < LIST_LIMIT implies crate::text::text_width(
        (#[trigger] items@[i]).text@,
    ) <= u32::MAX by {
        assert(items@.take(n as int)[i] == items@[i]);
    }
    true
}

/// Tests whether the widths of all texts that a view shows fit, so that it can be
/// laid out.
pub fn view_fits(view: &PanelView) -> (fits: bool)
    ensures
        fits == view_texts_fit(*view),
{
    match view {
        PanelView::Content { items, .. } => grid_fits(items.as_slice()),
        PanelView::List { items, .. } => list_fits(items.as_slice()),
        _ => true,
    }
}

/// Lays out the panel: the candidate bar, and the view below it.
pub fn build_panel_view(
    candidates: &[CandidateItem],
    highlighted_index: usize,
    view: &PanelView,
) -> (panel: Panel)
    requires
        view_texts_fit(*view),
    ensures
        is_candidate_bar(panel.bar@, candidates@, highlighted_index),
        is_panel_body(panel.body, *view),
{
    let bar = candidate_items(candidates, highlighted_index);
    let body = match view {
        PanelView::Closed => PanelBody::Closed,
        PanelView::Menu(active) => PanelBody::Menu(menu_grid(*active)),
        PanelView::Content { items, highlighted } => PanelBody::Content(
            content_grid(items.as_slice(), *highlighted),
        ),
        PanelView::List { kind, items, highlighted } => PanelBody::List(
            list_page(*kind, items.as_slice(), *highlighted),
        ),
    };
    Panel { bar, body }
}

// ── What is shown ──────────────────────────────────────────────────────────

/// The candidate bar shows every candidate, in order, with its number from one, its
/// whole text and its comment; the chosen one and no other is highlighted.
pub proof fn law_the_bar_shows_the_candidates(
    cells: Seq<CandidateCell>,
    candidates: Seq<CandidateItem>,
    highlighted_index: usize,
    i: int,
)
    requires
        is_candidate_bar(cells, candidates, highlighted_index),
    ensures
        cells.len() == candidates.len(),
        0 <= i < candidates.len() ==> {
            &&& cells[i].label@ == crate::text::decimal_notation((i + 1) as nat) + ". "@
                + candidates[i].text@
            &&& cells[i].comment@ == candidates[i].comment@
            &&& cells[i].highlighted == (i == highlighted_index)
        },
{
}

/// The menu shows its four entries in two rows of two, each with its caption, the
/// first character of that, and its colour; the active one and no other is marked.
pub proof fn law_the_menu_shows_its_entries(
    rows: Seq<Vec<Option<MenuCell>>>,
    active_index: Option<usize>,
    action: MenuAction,
)
    requires
        is_menu_grid(rows, active_index),
    ensures
        rows.len() == 2,
        ({
            let position = action.position();
            let cells = rows[position / 2]@;
            &&& cells.len() == 2
            &&& cells[position % 2] matches Some(cell) && {
                &&& cell.action == action
                &&& cell.label@ == action.label_text()
                &&& cell.initial == action.label_text()[0]
                &&& cell.active <==> (active_index matches Some(active) && active == position)
                &&& action is Emoji ==> cell.color == (Rgb { r: 0x8F, g: 0x73, b: 0xE2 })
                &&& action is Symbols ==> cell.color == (Rgb { r: 0x1A, g: 0x73, b: 0xE8 })
                &&& action is Clipboard ==> cell.color == (Rgb { r: 0x2E, g: 0xA0, b: 0x7D })
                &&& action is QuickSend ==> cell.color == (Rgb { r: 0xE5, g: 0x8F, b: 0x2A })
            }
        }),
{
    let position = action.position();
    let row = position / 2;
    let col = position % 2;
    assert(is_menu_row(rows[row]@, row, active_index));
    assert(is_menu_grid_cell(rows[row]@[col], row * MENU_COLUMNS + col, active_index));
}

/// The content grid has three rows. It shows the items row by row with their whole
/// text, as many as there are cells, and leaves the rest of its cells empty; the chosen
/// item and no other is highlighted.
pub proof fn law_the_grid_shows_its_items(
    grid: ContentGrid,
    items: Seq<GridItem>,
    highlighted: Option<usize>,
    row: int,
    col: int,
)
    requires
        is_content_grid(grid, items, highlighted),
        0 <= row < 3,
        0 <= col < grid.columns,
    ensures
        grid.rows@.len() == 3,
        grid.rows@[row]@.len() == grid.columns,
        ({
            let index = row * grid.columns + col;
            match grid.rows@[row]@[col] {
                Some(cell) => {
                    &&& index < items.len()
                    &&& cell.text@ == items[index].text@
                    &&& cell.highlighted <==> (highlighted matches Some(chosen) && chosen == index)
                },
                None => index >= items.len(),
            }
        }),
{
    assert(is_content_row(grid.rows@[row]@, items, row, grid.columns as int, highlighted));
    assert(is_content_cell(
        grid.rows@[row]@[col],
        items,
        row * grid.columns + col,
        highlighted,
    ));
}

/// The cells of a grid are wide enough for every item's text, and no wider than the
/// widest one or the least width asks for.
pub proof fn law_grid_cells_fit_every_item(
    grid: ContentGrid,
    items: Seq<GridItem>,
    highlighted: Option<usize>,
    i: int,
)
    requires
        is_content_grid(grid, items, highlighted),
    ensures
        0 <= i < items.len() ==> grid.cell_width >= crate::text::text_width(items[i].text@) + 16,
        grid.cell_width >= 36,
        grid.cell_width > 36 ==> exists|k: int|
            0 <= k < items.len() && grid.cell_width == crate::text::text_width(
                (#[trigger] items[k]).text@,
            ) + 16,
        grid.columns == crate::menu::columns_of(grid.cell_width as int),
{
    lemma_widest(items, i);
}

proof fn lemma_widest(items: Seq<GridItem>, i: int)
    ensures
        0 <= i < items.len() ==> widest_text(items) >= crate::text::text_width(items[i].text@),
        widest_text(items) > 0 ==> exists|k: int|
            0 <= k < items.len() && widest_text(items) == crate::text::text_width(
                (#[trigger] items[k]).text@,
            ),
    decreases items.len(),
{
    if items.len() > 0 {
        let rest = items.drop_last();
        lemma_widest(rest, i);
        let n = rest.len() as int;
        if 0 <= i < n {
            assert(rest[i] == items[i]);
        }
        let last = crate::text::text_width(items.last().text@);
        if last > widest_text(rest) {
            assert(items[n] == items.last());
        } else if widest_text(rest) > 0 {
            let k = choose|k: int|
                0 <= k < rest.len() && widest_text(rest) == crate::text::text_width(
                    (#[trigger] rest[k]).text@,
                );
            assert(items[k] == rest[k]);
        }
    }
}

/// The list page shows the first five entries, one to a row and in order, each with its
/// star and buttons and its text cut to the room beside them: 270 pixels on the
/// clipboard page and 296 on the quick-send page. Rows without an entry are blank.
pub proof fn law_the_list_shows_its_entries(
    page: ListPage,
    kind: ListKind,
    items: Seq<ListItem>,
    highlighted: Option<usize>,
    i: int,
)
    requires
        is_list_page(page, kind, items, highlighted),
        0 <= i < 5,
    ensures
        page.title@ == kind.title_text(),
        page.empty <==> items.len() == 0,
        page.rows@.len() == 5,
        match page.rows@[i] {
            Some(row) => {
                &&& i < items.len()
                &&& row.text@ == crate::menu::truncated(
                    items[i].text@,
                    if kind is Clipboard {
                        270
                    } else {
                        296
                    },
                )
                &&& row.pinned == items[i].is_pinned
                &&& row.has_quick_send_button == (kind is Clipboard)
                &&& row.highlighted <==> (highlighted matches Some(chosen) && chosen == i)
            },
            None => i >= items.len(),
        },
{
    assert(is_list_page_row(page.rows@[i], kind, items, i, highlighted));
}

/// What is unfolded is what the view asks for.
pub proof fn law_the_panel_unfolds_the_view(body: PanelBody, view: PanelView)
    requires
        is_panel_body(body, view),
    ensures
        view is Closed <==> body is Closed,
        view matches PanelView::Menu(active) ==> (body matches PanelBody::Menu(rows)
            && is_menu_grid(rows@, active)),
        view matches PanelView::Content { items, highlighted } ==> (
        body matches PanelBody::Content(grid) && is_content_grid(grid, items@, highlighted)),
        view matches PanelView::List { kind, items, highlighted } ==> (
        body matches PanelBody::List(page) && is_list_page(page, kind, items@, highlighted)),
{
}

} // verus!
