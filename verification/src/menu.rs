//! Geometry of the candidate panel: constants, hit tests and menu entries.
//!
//! The menu button is a fixed area at the right end of the candidate bar. A
//! click on it unfolds a panel below the bar, in the same rounded container:
//! a two-column menu, a grid of emoji or symbols, or a list of clipboard or
//! quick-send entries. Drawing is done elsewhere; drawing and clicks share the
//! numbers given here.
//!
//! Coordinates are local to the surface. Sizes arrive as `u32` and are compared
//! with signed coordinates after a cast to `i32`, which [`signed`] describes.

use vstd::prelude::*;
use vstd::string::*;

use crate::text::width_of_char;

verus! {

/// Width of the menu button.
pub const MENU_BUTTON_WIDTH: u32 = 36;

/// Height of the candidate bar.
pub const CANDIDATE_HEIGHT: u32 = 36;

/// Height of one menu row.
pub const MENU_ITEM_HEIGHT: u32 = 44;

/// Number of menu columns.
pub const MENU_COLUMNS: usize = 2;

/// Upper bound on the columns of the content grid.
pub const CONTENT_COLUMNS_MAX: usize = 10;

/// Rows of the content grid; vacant cells stay blank.
pub const CONTENT_ROWS: usize = 3;

/// Lower bound on the side of a content cell.
pub const CONTENT_ITEM_SIZE: u32 = 36;

/// Gap between content cells.
pub const CONTENT_GAP: u32 = 6;

/// Widest content panel wanted; wider cells get fewer columns.
pub const CONTENT_MAX_WIDTH: u32 = 660;

/// Height of the list page's title bar.
pub const LIST_HEADER_HEIGHT: u32 = 40;

/// Height of a list row's background.
pub const LIST_ROW_HEIGHT: u32 = 28;

/// Inset of a row's background above and below; rows lie twice this apart.
pub const LIST_ROW_INSET: u32 = 2;

/// Side of a button on the list page.
pub const LIST_BUTTON_SIZE: u32 = 20;

/// Most rows that the list page shows.
pub const LIST_LIMIT: usize = 5;

/// Height of the "show all" strip at the bottom of the list page.
pub const LIST_MORE_HEIGHT: u32 = 30;

/// Horizontal margin of the list page.
pub const LIST_H_INSET: u32 = 10;

/// Width of the "back to menu" button.
pub const LIST_BACK_WIDTH: u32 = 60;

/// Narrowest list panel, so that a list stays readable without candidates.
pub const LIST_MIN_PANEL_WIDTH: u32 = 360;

/// Height of the "back to menu" button.
pub const LIST_BACK_HEIGHT: u32 = 24;

/// What a `u32` reads as after a cast to `i32`.
pub open spec fn signed(v: u32) -> int {
    if v < 0x8000_0000 {
        v as int
    } else {
        v - 0x1_0000_0000
    }
}

/// The cast that [`signed`] describes.
fn to_signed(v: u32) -> (r: i32)
    ensures
        r == signed(v),
{
    assert(v < 0x8000_0000u32 ==> (v as i32) == v) by (bit_vector);
    assert(v >= 0x8000_0000u32 ==> (v as i32) == v - 0x1_0000_0000) by (bit_vector);
    v as i32
}

/// An axis-aligned rectangle.
pub struct Rect {
    pub x: int,
    pub y: int,
    pub width: int,
    pub height: int,
}

impl Rect {
    /// Whether the point lies in the rectangle; the right and lower edges do
    /// not belong to it.
    pub open spec fn contains(self, x: int, y: int) -> bool {
        self.x <= x < self.x + self.width && self.y <= y < self.y + self.height
    }
}

// ── Content grid sizing ────────────────────────────────────────────────────

/// Estimated width of a text at a font size of 16 pixels.
///
/// Zero-width characters count as nothing; the estimate errs on the wide side,
/// so that a cell never wraps its text.
pub fn content_text_width(text: &str) -> (width: u32)
    requires
        crate::text::text_width(text@) <= u32::MAX,
    ensures
        width == crate::text::text_width(text@),
{
    let mut width: u32 = 0;
    for c in it: text.chars()
        invariant
            it.seq() == text@,
            width == crate::text::text_width(text@.take(it.index())),
            crate::text::text_width(text@) <= u32::MAX,
    {
        proof {
            crate::text::lemma_width_take_step(text@, it.index());
            crate::text::law_text_width_prefix(text@, it.index() + 1);
        }
        width = width + width_of_char(c);
    }
    assert(text@.take(text@.len() as int) =~= text@);
    width
}

/// Side of a content cell: the widest item and its padding, at least
/// [`CONTENT_ITEM_SIZE`].
pub fn content_cell_width(widest: u32) -> (cell: u32)
    requires
        widest + 16 <= u32::MAX,
    ensures
        cell == cell_width_of(widest as int),
{
    if widest + 16 < CONTENT_ITEM_SIZE {
        CONTENT_ITEM_SIZE
    } else {
        widest + 16
    }
}

/// The side of a content cell whose widest item has this width.
pub open spec fn cell_width_of(widest: int) -> int {
    vstd::math::max(widest + 16, CONTENT_ITEM_SIZE as int)
}

/// The width of `columns` cells side by side with the gaps between them.
pub open spec fn grid_width(cell_width: int, columns: int) -> int {
    columns * cell_width + (columns - 1) * CONTENT_GAP
}

/// How many columns a cell width gets: as many as [`CONTENT_MAX_WIDTH`] holds,
/// but at least four and at most [`CONTENT_COLUMNS_MAX`].
pub open spec fn columns_of(cell_width: int) -> int {
    let fitting = (CONTENT_MAX_WIDTH + CONTENT_GAP) / (cell_width + CONTENT_GAP);
    if fitting < 4 {
        4
    } else if fitting > CONTENT_COLUMNS_MAX {
        CONTENT_COLUMNS_MAX as int
    } else {
        fitting
    }
}

/// Columns of the content grid for a cell width.
pub fn content_columns_for(cell_width: u32) -> (columns: usize)
    requires
        cell_width + CONTENT_GAP <= u32::MAX,
    ensures
        columns == columns_of(cell_width as int),
{
    let fitting: u32 = (CONTENT_MAX_WIDTH + CONTENT_GAP) / (cell_width + CONTENT_GAP);
    if fitting < 4 {
        4
    } else if fitting > 10 {
        CONTENT_COLUMNS_MAX
    } else {
        fitting as usize
    }
}

/// Rendered width of the content panel.
///
/// The column count is taken modulo 2^32, as its cast to `u32` leaves it.
pub fn content_panel_width(cell_width: u32, columns: usize) -> (width: u32)
    requires
        (columns as u32) >= 1,
        grid_width(cell_width as int, (columns as u32) as int) <= u32::MAX,
    ensures
        width == grid_width(cell_width as int, (columns as u32) as int),
{
    let count: u32 = columns as u32;
    proof {
        let c = count as int;
        assert(c * cell_width >= 0) by (nonlinear_arith)
            requires
                c >= 1,
                cell_width >= 0,
        ;
    }
    count * cell_width + (count - 1) * CONTENT_GAP
}

/// The content grid keeps within [`CONTENT_MAX_WIDTH`] unless it is down to four
/// columns, and one more column would not fit unless it has
/// [`CONTENT_COLUMNS_MAX`].
pub proof fn law_columns_fill_the_width(cell_width: int)
    requires
        cell_width >= 0,
    ensures
        4 <= columns_of(cell_width) <= CONTENT_COLUMNS_MAX,
        columns_of(cell_width) > 4 ==> grid_width(cell_width, columns_of(cell_width))
            <= CONTENT_MAX_WIDTH,
        columns_of(cell_width) < CONTENT_COLUMNS_MAX ==> grid_width(
            cell_width,
            columns_of(cell_width) + 1,
        ) > CONTENT_MAX_WIDTH,
{
    let total: int = CONTENT_MAX_WIDTH + CONTENT_GAP;
    let pitch: int = cell_width + CONTENT_GAP;
    let fitting = total / pitch;
    let columns = columns_of(cell_width);
    assert(fitting * pitch <= total < (fitting + 1) * pitch) by (nonlinear_arith)
        requires
            fitting == total / pitch,
            pitch > 0,
    ;
    assert(grid_width(cell_width, columns) == columns * pitch - CONTENT_GAP) by (nonlinear_arith)
        requires
            pitch == cell_width + CONTENT_GAP,
            grid_width(cell_width, columns) == columns * cell_width + (columns - 1) * CONTENT_GAP,
    ;
    assert(grid_width(cell_width, columns + 1) == (columns + 1) * pitch - CONTENT_GAP)
        by (nonlinear_arith)
        requires
            pitch == cell_width + CONTENT_GAP,
            grid_width(cell_width, columns + 1) == (columns + 1) * cell_width + columns
                * CONTENT_GAP,
    ;
    if columns > 4 {
        assert(columns * pitch <= fitting * pitch) by (nonlinear_arith)
            requires
                columns <= fitting,
                pitch > 0,
        ;
    }
    if columns < CONTENT_COLUMNS_MAX {
        assert((fitting + 1) * pitch <= (columns + 1) * pitch) by (nonlinear_arith)
            requires
                fitting <= columns,
                pitch > 0,
        ;
    }
}

/// A wider cell never gets more columns.
pub proof fn law_columns_antitone(narrow: int, wide: int)
    requires
        0 <= narrow <= wide,
    ensures
        columns_of(wide) <= columns_of(narrow),
{
    let total: int = CONTENT_MAX_WIDTH + CONTENT_GAP;
    let a: int = narrow + CONTENT_GAP;
    let b: int = wide + CONTENT_GAP;
    assert(total / b <= total / a) by (nonlinear_arith)
        requires
            0 < a <= b,
            total >= 0,
    ;
}

// ── List page ──────────────────────────────────────────────────────────────

/// Height of the list page: title bar, rows and the "show all" strip.
pub open spec fn list_height() -> int {
    LIST_HEADER_HEIGHT + LIST_LIMIT * (LIST_ROW_HEIGHT + 2 * LIST_ROW_INSET) + LIST_MORE_HEIGHT
}

/// Height of the list page.
pub fn list_panel_height() -> (height: u32)
    ensures
        height == list_height(),
{
    LIST_HEADER_HEIGHT + LIST_LIMIT as u32 * (LIST_ROW_HEIGHT + 2 * LIST_ROW_INSET)
        + LIST_MORE_HEIGHT
}

/// Top of row `i`'s background within the panel; the first row starts four
/// pixels below the title bar.
pub open spec fn row_top(i: int) -> int {
    LIST_HEADER_HEIGHT + 4 + i * (LIST_ROW_HEIGHT + 2 * LIST_ROW_INSET)
}

/// Top of row `i`'s background within the panel.
///
/// The index is taken modulo 2^32, as its cast to `u32` leaves it.
pub fn list_row_y(i: usize) -> (y: u32)
    requires
        row_top((i as u32) as int) <= u32::MAX,
    ensures
        y == row_top((i as u32) as int),
{
    LIST_HEADER_HEIGHT + 4 + i as u32 * (LIST_ROW_HEIGHT + 2 * LIST_ROW_INSET)
}

/// Which list the page shows.
#[derive(Debug, Clone, Copy, PartialEq, Eq, Structural)]
pub enum ListKind {
    Clipboard,
    QuickSend,
}

impl ListKind {
    /// The page's title.
    pub open spec fn title_text(self) -> Seq<char> {
        match self {
            ListKind::Clipboard => "剪切板"@,
            ListKind::QuickSend => "快捷发送"@,
        }
    }

    /// The page's title.
    pub fn title(self) -> (title: &'static str)
        ensures
            title@ == self.title_text(),
    {
        match self {
            ListKind::Clipboard => "剪切板",
            ListKind::QuickSend => "快捷发送",
        }
    }

    /// Whether rows have an "add to quick send" button: on the clipboard page
    /// only.
    pub fn has_quick_send_button(self) -> (has: bool)
        ensures
            has == (self is Clipboard),
    {
        self == ListKind::Clipboard
    }
}

/// An entry of the list page.
#[derive(Debug, Clone, PartialEq, Eq)]
pub struct ListItem {
    pub id: i64,
    pub text: String,
    pub is_pinned: bool,
}

/// A button inside a list row.
#[derive(Debug, Clone, Copy, PartialEq, Eq, Structural)]
pub enum ListRowButton {
    /// Add to quick send (clipboard page only).
    QuickSend,
    /// Delete the entry.
    Remove,
}

/// What a click on the list page hits.
#[derive(Debug, Clone, Copy, PartialEq, Eq, Structural)]
pub enum ListHit {
    /// The "back to menu" button in the title bar.
    Back,
    /// The "clear" button in the title bar.
    Clear,
    /// The "show all" strip at the bottom.
    More,
    /// A row; without a button, its body.
    Row { index: usize, button: Option<ListRowButton> },
}

/// The "back to menu" button on a page of width `w`.
pub open spec fn back_button(w: int) -> Rect {
    Rect {
        x: w - LIST_BACK_WIDTH - LIST_H_INSET,
        y: LIST_HEADER_HEIGHT - LIST_BACK_HEIGHT - 8,
        width: LIST_BACK_WIDTH as int,
        height: LIST_BACK_HEIGHT as int,
    }
}

/// The "clear" button, left of the back button.
pub open spec fn clear_button(w: int) -> Rect {
    Rect {
        x: back_button(w).x - 8 - LIST_BUTTON_SIZE,
        y: back_button(w).y + 2,
        width: LIST_BUTTON_SIZE as int,
        height: LIST_BUTTON_SIZE as int,
    }
}

/// The corner of the delete button in a row with its top at `y`: at the right
/// inset, halfway down the row.
pub open spec fn remove_corner(y: int, w: int) -> (int, int) {
    (
        w - LIST_H_INSET - LIST_BUTTON_SIZE,
        y + (LIST_ROW_HEIGHT - LIST_BUTTON_SIZE) / 2,
    )
}

/// The corner of the "add to quick send" button in a row with its top at `y`: left
/// of the delete button.
pub open spec fn quick_send_corner(y: int, w: int) -> (int, int) {
    (remove_corner(y, w).0 - LIST_BUTTON_SIZE - 6, remove_corner(y, w).1)
}

/// The delete button of row `i`.
pub open spec fn remove_button(i: int, w: int) -> Rect {
    Rect {
        x: remove_corner(row_top(i), w).0,
        y: remove_corner(row_top(i), w).1,
        width: LIST_BUTTON_SIZE as int,
        height: LIST_BUTTON_SIZE as int,
    }
}

/// The "add to quick send" button of row `i`, left of the delete button.
pub open spec fn quick_send_button(i: int, w: int) -> Rect {
    Rect {
        x: quick_send_corner(row_top(i), w).0,
        y: quick_send_corner(row_top(i), w).1,
        width: LIST_BUTTON_SIZE as int,
        height: LIST_BUTTON_SIZE as int,
    }
}

/// The body of row `i`: everything left of the button area.
pub open spec fn row_body(i: int, w: int, is_quick_send: bool) -> Rect {
    Rect {
        x: 0,
        y: row_top(i),
        width: w - LIST_H_INSET - row_actions_width(is_quick_send),
        height: LIST_ROW_HEIGHT as int,
    }
}

/// Width of a row's button area.
pub open spec fn row_actions_width(is_quick_send: bool) -> int {
    if is_quick_send {
        LIST_BUTTON_SIZE as int
    } else {
        LIST_BUTTON_SIZE * 2 + 6
    }
}

/// The row whose background covers the height `local_y` of the panel; between
/// two rows lies a gap that belongs to neither.
pub open spec fn row_at(local_y: int) -> Option<int> {
    let pitch = LIST_ROW_HEIGHT + 2 * LIST_ROW_INSET;
    if local_y >= row_top(0) && (local_y - row_top(0)) % pitch < LIST_ROW_HEIGHT {
        Some((local_y - row_top(0)) / pitch)
    } else {
        None
    }
}

/// What lies under a point of row `i`.
pub open spec fn row_hit(x: int, local_y: int, i: int, w: int, is_quick_send: bool) -> Option<
    ListHit,
> {
    if remove_button(i, w).contains(x, local_y) {
        Some(ListHit::Row { index: i as usize, button: Some(ListRowButton::Remove) })
    } else if !is_quick_send && quick_send_button(i, w).contains(x, local_y) {
        Some(ListHit::Row { index: i as usize, button: Some(ListRowButton::QuickSend) })
    } else if row_body(i, w, is_quick_send).contains(x, local_y) {
        Some(ListHit::Row { index: i as usize, button: None })
    } else {
        None
    }
}

/// What lies under a point of a list page of width `w`.
pub open spec fn list_hit_at(
    x: int,
    local_y: int,
    w: int,
    item_count: int,
    is_quick_send: bool,
) -> Option<ListHit> {
    if back_button(w).contains(x, local_y) {
        Some(ListHit::Back)
    } else if clear_button(w).contains(x, local_y) {
        Some(ListHit::Clear)
    } else if local_y >= list_height() - LIST_MORE_HEIGHT {
        Some(ListHit::More)
    } else {
        match row_at(local_y) {
            Some(i) => if i < item_count && i < LIST_LIMIT {
                row_hit(x, local_y, i, w, is_quick_send)
            } else {
                None
            },
            None => None,
        }
    }
}

/// The area of a panel of the given height below the candidate bar.
pub open spec fn panel_area(panel_width: u32, bar_height: u32, height: int) -> Rect {
    Rect { x: 0, y: signed(bar_height), width: signed(panel_width), height }
}

/// The panel's lower edge is a valid coordinate, and a page under the pointer is
/// wide enough for its title bar.
pub open spec fn list_page_fits(x: i32, y: i32, panel_width: u32, bar_height: u32) -> bool {
    let w = panel_width as int;
    &&& signed(bar_height) + list_height() <= i32::MAX
    &&& panel_area(panel_width, bar_height, list_height()).contains(x as int, y as int) ==> {
        &&& back_button(w).x >= 0
        &&& clear_button(w).x >= 0 || back_button(w).contains(x as int, y - signed(bar_height))
    }
}

/// Position of the delete button in a row with its top at `y`.
pub fn list_remove_btn_rect(y: u32, panel_width: u32) -> (corner: (u32, u32))
    requires
        panel_width >= LIST_H_INSET + LIST_BUTTON_SIZE,
        y + LIST_ROW_HEIGHT <= u32::MAX,
    ensures
        (corner.0 as int, corner.1 as int) == remove_corner(y as int, panel_width as int),
{
    let x: u32 = panel_width - LIST_H_INSET - LIST_BUTTON_SIZE;
    let btn_y: u32 = y + (LIST_ROW_HEIGHT - LIST_BUTTON_SIZE) / 2;
    (x, btn_y)
}

/// Position of the "add to quick send" button in a row with its top at `y`.
pub fn list_quick_send_btn_rect(y: u32, panel_width: u32) -> (corner: (u32, u32))
    requires
        panel_width >= LIST_H_INSET + 2 * LIST_BUTTON_SIZE + 6,
        y + LIST_ROW_HEIGHT <= u32::MAX,
    ensures
        (corner.0 as int, corner.1 as int) == quick_send_corner(y as int, panel_width as int),
{
    let (rx, by) = list_remove_btn_rect(y, panel_width);
    (rx - LIST_BUTTON_SIZE - 6, by)
}

/// Whether a point lies in a rectangle of the given position and size.
fn within(x: u32, y: u32, left: u32, top: u32, width: u32, height: u32) -> (inside: bool)
    requires
        left + width <= u32::MAX,
        top + height <= u32::MAX,
    ensures
        inside == (Rect {
            x: left as int,
            y: top as int,
            width: width as int,
            height: height as int,
        }).contains(x as int, y as int),
{
    y >= top && y < top + height && x >= left && x < left + width
}

/// Hit test of the list page.
pub fn list_page_hit(
    x: i32,
    y: i32,
    panel_width: u32,
    bar_height: u32,
    item_count: usize,
    is_quick_send: bool,
) -> (hit: Option<ListHit>)
    requires
        list_page_fits(x, y, panel_width, bar_height),
    ensures
        hit == if panel_area(panel_width, bar_height, list_height()).contains(x as int, y as int) {
            list_hit_at(
                x as int,
                y - signed(bar_height),
                panel_width as int,
                item_count as int,
                is_quick_send,
            )
        } else {
            None
        },
{
    let panel_start: i32 = to_signed(bar_height);
    let panel_end: i32 = panel_start + list_panel_height() as i32;
    if y < panel_start || y >= panel_end || x < 0 || x >= to_signed(panel_width) {
        return None;
    }
    let w: u32 = panel_width;
    let px: u32 = x as u32;
    let local_y: u32 = (y - panel_start) as u32;

    // Title bar: "back to menu" at the right end, "clear" to its left.
    let back_x: u32 = w - LIST_BACK_WIDTH - LIST_H_INSET;
    let title_btn_y: u32 = LIST_HEADER_HEIGHT - LIST_BACK_HEIGHT - 8;
    if within(px, local_y, back_x, title_btn_y, LIST_BACK_WIDTH, LIST_BACK_HEIGHT) {
        return Some(ListHit::Back);
    }
    let clear_x: u32 = back_x - 8 - LIST_BUTTON_SIZE;
    if within(px, local_y, clear_x, title_btn_y + 2, LIST_BUTTON_SIZE, LIST_BUTTON_SIZE) {
        return Some(ListHit::Clear);
    }
    // The "show all" strip at the bottom.

    let more_y: u32 = list_panel_height() - LIST_MORE_HEIGHT;
    if local_y >= more_y {
        return Some(ListHit::More);
    }
    // Rows.

    let shown: usize = if item_count < LIST_LIMIT {
        item_count
    } else {
        LIST_LIMIT
    };
    for i in 0..shown
        invariant
            shown <= item_count,
            shown <= LIST_LIMIT,
            shown == item_count || shown == LIST_LIMIT,
            px == x,
            0 <= x < signed(panel_width),
            w == panel_width,
            w >= LIST_BACK_WIDTH + LIST_H_INSET + 8 + LIST_BUTTON_SIZE,
            local_y == y - signed(bar_height),
            local_y < list_height() - LIST_MORE_HEIGHT,
            !back_button(w as int).contains(x as int, local_y as int),
            !clear_button(w as int).contains(x as int, local_y as int),
            panel_area(panel_width, bar_height, list_height()).contains(x as int, y as int),
            forall|j: int| 0 <= j < i ==> row_at(local_y as int) != Some(j),
    {
        let row_y: u32 = list_row_y(i);
        let row_end: u32 = row_y + LIST_ROW_HEIGHT;
        if local_y >= row_y && local_y < row_end {
            assert(row_at(local_y as int) == Some(i as int));
            // Buttons come before the body.
            let (rx, ry) = list_remove_btn_rect(row_y, w);
            if within(px, local_y, rx, ry, LIST_BUTTON_SIZE, LIST_BUTTON_SIZE) {
                return Some(ListHit::Row { index: i, button: Some(ListRowButton::Remove) });
            }
            if !is_quick_send {
                let (qx, qy) = list_quick_send_btn_rect(row_y, w);
                if within(px, local_y, qx, qy, LIST_BUTTON_SIZE, LIST_BUTTON_SIZE) {
                    return Some(ListHit::Row { index: i, button: Some(ListRowButton::QuickSend) });
                }
            }
            let actions_w: u32 = if is_quick_send {
                LIST_BUTTON_SIZE
            } else {
                LIST_BUTTON_SIZE * 2 + 6
            };
            let body_end: u32 = w - LIST_H_INSET - actions_w;
            if px < body_end {
                return Some(ListHit::Row { index: i, button: None });
            }
            return None;
        }
    }
    None
}

// ── Laws of the list page ──────────────────────────────────────────────────

/// Everything that can be hit lies inside the panel, and a row that is hit is
/// one of the rows shown.
pub proof fn law_list_hit_in_bounds(
    x: int,
    local_y: int,
    w: int,
    item_count: int,
    is_quick_send: bool,
)
    requires
        0 <= x < w,
        0 <= local_y < list_height(),
        item_count >= 0,
    ensures
        list_hit_at(x, local_y, w, item_count, is_quick_send) matches Some(
            ListHit::Row { index, button },
        ) ==> {
            &&& index < item_count
            &&& index < LIST_LIMIT
            &&& row_top(index as int) <= local_y < row_top(index as int) + LIST_ROW_HEIGHT
        },
{
}

/// The quick-send page has no "add to quick send" button anywhere.
pub proof fn law_quick_send_page_has_no_add_button(
    x: int,
    local_y: int,
    w: int,
    item_count: int,
)
    ensures
        list_hit_at(x, local_y, w, item_count, true) matches Some(ListHit::Row { index, button })
            ==> button != Some(ListRowButton::QuickSend),
{
}

/// The two buttons of a row stand side by side: on one height, in the middle of the
/// row, with a gap of 6 pixels between them, the right one at the inset of the
/// panel.
pub proof fn law_row_buttons_are_placed(y: int, w: int)
    ensures
        ({
            let (qx, qy) = quick_send_corner(y, w);
            let (rx, ry) = remove_corner(y, w);
            &&& qy == ry
            &&& qx + LIST_BUTTON_SIZE + 6 == rx
            &&& rx + LIST_BUTTON_SIZE + LIST_H_INSET == w
            &&& ry - y == (y + LIST_ROW_HEIGHT) - (ry + LIST_BUTTON_SIZE)
        }),
{
}

/// A click anywhere on a drawn button hits that button: the buttons of a row are
/// covered neither by the title bar, nor by the "show all" strip, nor by each
/// other.
pub proof fn law_drawn_buttons_are_hit(
    x: int,
    local_y: int,
    w: int,
    i: int,
    item_count: int,
    is_quick_send: bool,
)
    requires
        0 <= i < item_count,
        i < LIST_LIMIT,
    ensures
        remove_button(i, w).contains(x, local_y) ==> list_hit_at(
            x,
            local_y,
            w,
            item_count,
            is_quick_send,
        ) == Some(ListHit::Row { index: i as usize, button: Some(ListRowButton::Remove) }),
        quick_send_button(i, w).contains(x, local_y) && !is_quick_send ==> list_hit_at(
            x,
            local_y,
            w,
            item_count,
            is_quick_send,
        ) == Some(ListHit::Row { index: i as usize, button: Some(ListRowButton::QuickSend) }),
        row_body(i, w, is_quick_send).contains(x, local_y) ==> list_hit_at(
            x,
            local_y,
            w,
            item_count,
            is_quick_send,
        ) == Some(ListHit::Row { index: i as usize, button: None }),
{
}

/// A click on a drawn title-bar button hits that button.
pub proof fn law_title_buttons_are_hit(
    x: int,
    local_y: int,
    w: int,
    item_count: int,
    is_quick_send: bool,
)
    ensures
        back_button(w).contains(x, local_y) ==> list_hit_at(
            x,
            local_y,
            w,
            item_count,
            is_quick_send,
        ) == Some(ListHit::Back),
        clear_button(w).contains(x, local_y) ==> list_hit_at(
            x,
            local_y,
            w,
            item_count,
            is_quick_send,
        ) == Some(ListHit::Clear),
{
}

// ── Text fitting ───────────────────────────────────────────────────────────

/// Width of the ellipsis that marks a cut.
pub const ELLIPSIS_WIDTH: u32 = 17;

/// The length of the longest prefix of at most `n` characters that leaves room
/// for the ellipsis, but at least one.
pub open spec fn longest_fit(s: Seq<char>, max_width: int, n: int) -> int
    decreases n,
{
    if n <= 1 {
        1
    } else if crate::text::text_width(s.take(n)) + ELLIPSIS_WIDTH <= max_width {
        n
    } else {
        longest_fit(s, max_width, n - 1)
    }
}

/// A text cut to a width: unchanged when it fits, else the longest prefix that
/// fits with an ellipsis behind it.
pub open spec fn truncated(s: Seq<char>, max_width: int) -> Seq<char> {
    if crate::text::text_width(s) <= max_width {
        s
    } else {
        s.take(longest_fit(s, max_width, s.len() as int)) + "…"@
    }
}

/// When one character more does not fit, the longest fit lies before it.
proof fn lemma_longest_fit_below(s: Seq<char>, max_width: int, k: int, n: int)
    requires
        1 <= k <= n <= s.len(),
        k == 1 || crate::text::text_width(s.take(k)) + ELLIPSIS_WIDTH <= max_width,
        k < n ==> crate::text::text_width(s.take(k + 1)) + ELLIPSIS_WIDTH > max_width,
    ensures
        longest_fit(s, max_width, n) == k,
    decreases n,
{
    if k < n {
        assert(s.take(n).take(k + 1) =~= s.take(k + 1));
        crate::text::law_text_width_prefix(s.take(n), k + 1);
        lemma_longest_fit_below(s, max_width, k, n - 1);
    }
}

/// Cuts a text to an estimated width and marks the cut with an ellipsis.
pub fn truncate_to_width(text: &str, max_width: u32) -> (fitted: String)
    requires
        crate::text::text_width(text@) <= u32::MAX,
    ensures
        fitted@ == truncated(text@, max_width as int),
{
    if content_text_width(text) <= max_width {
        return text.to_string();
    }
    let length: usize = text.unicode_len();
    let mut kept: usize = 0;
    let mut width: u32 = 0;
    let mut full: bool = false;
    for c in it: text.chars()
        invariant
            it.seq() == text@,
            length == text@.len(),
            crate::text::text_width(text@) <= u32::MAX,
            kept <= it.index(),
            !full ==> kept == it.index(),
            full ==> 1 <= kept < length && crate::text::text_width(text@.take(kept + 1))
                + ELLIPSIS_WIDTH > max_width,
            width == crate::text::text_width(text@.take(kept as int)),
            kept > 1 ==> width + ELLIPSIS_WIDTH <= max_width,
    {
        if !full {
            proof {
                crate::text::lemma_width_take_step(text@, it.index());
                crate::text::law_text_width_prefix(text@, it.index() + 1);
            }
            let wider: u32 = width + width_of_char(c);
            if kept > 0 && wider as u64 + ELLIPSIS_WIDTH as u64 > max_width as u64 {
                full = true;
            } else {
                kept = kept + 1;
                width = wider;
            }
        }
    }
    proof {
        assert(text@.take(length as int) =~= text@);
        assert(kept >= 1);
        lemma_longest_fit_below(text@, max_width as int, kept as int, length as int);
    }
    let mut fitted = text.substring_char(0, kept).to_string();
    fitted.append("…");
    fitted
}

/// A cut text is no wider than asked for, or holds a single character before
/// the ellipsis.
pub proof fn law_truncated_fits(s: Seq<char>, max_width: int)
    requires
        max_width >= 0,
    ensures
        crate::text::text_width(truncated(s, max_width)) <= max_width || (s.len() >= 1 && truncated(
            s,
            max_width,
        ) == s.take(1) + "…"@),
        truncated(s, max_width) == s || exists|k: int|
            1 <= k <= s.len() && truncated(s, max_width) == #[trigger] s.take(k) + "…"@,
{
    if crate::text::text_width(s) > max_width {
        lemma_longest_fit_bounds(s, max_width, s.len() as int);
        let k = longest_fit(s, max_width, s.len() as int);
        reveal_strlit("…");
        crate::text::law_text_width_concat(s.take(k), "…"@);
        lemma_ellipsis_width();
    }
}

/// The ellipsis is as wide as [`ELLIPSIS_WIDTH`] says.
proof fn lemma_ellipsis_width()
    ensures
        crate::text::text_width("…"@) == ELLIPSIS_WIDTH,
{
    reveal_strlit("…");
    reveal_with_fuel(crate::text::text_width, 2);
}

proof fn lemma_longest_fit_bounds(s: Seq<char>, max_width: int, n: int)
    requires
        1 <= n <= s.len(),
    ensures
        1 <= longest_fit(s, max_width, n) <= n,
        longest_fit(s, max_width, n) == 1 || crate::text::text_width(
            s.take(longest_fit(s, max_width, n)),
        ) + ELLIPSIS_WIDTH <= max_width,
    decreases n,
{
    if n > 1 && crate::text::text_width(s.take(n)) + ELLIPSIS_WIDTH > max_width {
        lemma_longest_fit_bounds(s, max_width, n - 1);
    }
}

// ── Panel views ────────────────────────────────────────────────────────────

/// An item of the content grid.
#[derive(Debug, Clone, PartialEq, Eq)]
pub struct GridItem {
    pub text: String,
    pub comment: String,
}

/// What is unfolded below the candidate bar.
#[derive(Debug, Clone, Default, PartialEq, Eq)]
pub enum PanelView {
    /// Nothing: the candidate bar only.
    #[default]
    Closed,
    /// The menu, with the active entry.
    Menu(Option<usize>),
    /// The content grid, with the highlighted item of the page.
    Content { items: Vec<GridItem>, highlighted: Option<usize> },
    /// The list page, with the highlighted row.
    List { kind: ListKind, items: Vec<ListItem>, highlighted: Option<usize> },
}

/// Height of the unfolded part.
pub open spec fn view_height(view: PanelView) -> int {
    match view {
        PanelView::Closed => 0,
        PanelView::Menu(_) => menu_height(),
        PanelView::Content { .. } => content_height(),
        PanelView::List { .. } => list_height(),
    }
}

/// Height of the unfolded part for a view.
pub fn panel_height_for(view: &PanelView) -> (height: u32)
    ensures
        height == view_height(*view),
{
    match view {
        PanelView::Closed => 0,
        PanelView::Menu(_) => menu_panel_height(),
        PanelView::Content { .. } => content_panel_height(),
        PanelView::List { .. } => list_panel_height(),
    }
}

/// Items on one page of the content grid.
pub fn content_capacity(columns: usize) -> (capacity: usize)
    requires
        columns * CONTENT_ROWS <= usize::MAX,
    ensures
        capacity == columns * CONTENT_ROWS,
{
    columns * CONTENT_ROWS
}

/// Height of the content grid: its rows and the gaps between them.
pub open spec fn content_height() -> int {
    CONTENT_ROWS * (CONTENT_ITEM_SIZE + CONTENT_GAP) - CONTENT_GAP
}

/// Height of the content grid.
pub fn content_panel_height() -> (height: u32)
    ensures
        height == content_height(),
{
    CONTENT_ROWS as u32 * (CONTENT_ITEM_SIZE + CONTENT_GAP) - CONTENT_GAP
}

// ── Menu ───────────────────────────────────────────────────────────────────

/// An entry of the menu.
#[derive(Debug, Clone, Copy, PartialEq, Eq, Structural)]
pub enum MenuAction {
    Emoji,
    Symbols,
    Clipboard,
    QuickSend,
}

impl MenuAction {
    /// All entries, in the order in which the menu shows them.
    pub const ALL: [MenuAction; 4] = [
        MenuAction::Emoji,
        MenuAction::Symbols,
        MenuAction::Clipboard,
        MenuAction::QuickSend,
    ];

    /// The entry's caption.
    pub open spec fn label_text(self) -> Seq<char> {
        match self {
            MenuAction::Emoji => "表情"@,
            MenuAction::Symbols => "符号"@,
            MenuAction::Clipboard => "剪切板"@,
            MenuAction::QuickSend => "快捷发送"@,
        }
    }

    /// The entry's caption.
    pub fn label(self) -> (label: &'static str)
        ensures
            label@ == self.label_text(),
    {
        match self {
            MenuAction::Emoji => "表情",
            MenuAction::Symbols => "符号",
            MenuAction::Clipboard => "剪切板",
            MenuAction::QuickSend => "快捷发送",
        }
    }

    /// The entry's position in the menu, from zero.
    pub open spec fn position(self) -> int {
        match self {
            MenuAction::Emoji => 0,
            MenuAction::Symbols => 1,
            MenuAction::Clipboard => 2,
            MenuAction::QuickSend => 3,
        }
    }

    /// The entry's row in the grid, from zero.
    pub fn row(self) -> (row: usize)
        ensures
            row == self.position() / MENU_COLUMNS as int,
    {
        self.index() / MENU_COLUMNS
    }

    /// The entry's column in the grid, from zero.
    pub fn col(self) -> (col: usize)
        ensures
            col == self.position() % MENU_COLUMNS as int,
    {
        self.index() % MENU_COLUMNS
    }

    /// The entry's position in the menu, from zero.
    pub fn index(self) -> (index: usize)
        ensures
            index == self.position(),
    {
        match self {
            MenuAction::Emoji => 0,
            MenuAction::Symbols => 1,
            MenuAction::Clipboard => 2,
            MenuAction::QuickSend => 3,
        }
    }

    /// The entry at a position of the menu.
    pub open spec fn at(position: int) -> Option<MenuAction> {
        if position == 0 {
            Some(MenuAction::Emoji)
        } else if position == 1 {
            Some(MenuAction::Symbols)
        } else if position == 2 {
            Some(MenuAction::Clipboard)
        } else if position == 3 {
            Some(MenuAction::QuickSend)
        } else {
            None
        }
    }

    /// The entry at a position of the menu.
    pub fn from_index(index: usize) -> (action: Option<MenuAction>)
        ensures
            action == MenuAction::at(index as int),
    {
        if index < 4 {
            Some(MenuAction::ALL[index])
        } else {
            None
        }
    }
}

/// The menu's order, its positions and its grid cells agree with each other.
pub proof fn law_menu_positions(action: MenuAction, position: int)
    ensures
        MenuAction::at(action.position()) == Some(action),
        MenuAction::at(position) matches Some(a) ==> a.position() == position,
        MenuAction::at(position) is Some <==> 0 <= position < MenuAction::ALL@.len(),
        0 <= position < MenuAction::ALL@.len() ==> MenuAction::at(position) == Some(
            MenuAction::ALL@[position],
        ),
        action.position() == (action.position() / MENU_COLUMNS as int) * MENU_COLUMNS
            + action.position() % MENU_COLUMNS as int,
{
}

/// Height of the menu: two columns, so half as many rows as entries.
pub open spec fn menu_height() -> int {
    MENU_ITEM_HEIGHT * (MenuAction::ALL@.len() / MENU_COLUMNS as nat)
}

/// Height of the menu.
pub fn menu_panel_height() -> (height: u32)
    ensures
        height == menu_height(),
{
    MENU_ITEM_HEIGHT * (MenuAction::ALL.len() as u32 / MENU_COLUMNS as u32)
}

/// Height of the container with the menu unfolded.
pub fn expanded_height(bar_height: u32) -> (height: u32)
    requires
        bar_height + menu_height() <= u32::MAX,
    ensures
        height == bar_height + menu_height(),
{
    bar_height + menu_panel_height()
}

/// The menu button at the right end of the candidate bar.
pub open spec fn menu_button(panel_width: u32, bar_height: u32) -> Rect {
    Rect {
        x: signed(panel_width) - MENU_BUTTON_WIDTH,
        y: 0,
        width: MENU_BUTTON_WIDTH as int,
        height: signed(bar_height),
    }
}

/// Whether a point lies on the menu button.
pub fn menu_button_hit(x: i32, y: i32, panel_width: u32, bar_height: u32) -> (hit: bool)
    requires
        signed(panel_width) - MENU_BUTTON_WIDTH >= i32::MIN,
    ensures
        hit == menu_button(panel_width, bar_height).contains(x as int, y as int),
{
    let start: i32 = to_signed(panel_width) - MENU_BUTTON_WIDTH as i32;
    x >= start && x < to_signed(panel_width) && y >= 0 && y < to_signed(bar_height)
}

/// The cell of the menu grid under a point: cells are half as wide as the
/// container and [`MENU_ITEM_HEIGHT`] high.
pub open spec fn menu_cell_at(x: int, local_y: int, container_width: int) -> (int, int) {
    (local_y / MENU_ITEM_HEIGHT as int, x * MENU_COLUMNS / container_width)
}

/// The menu entry under a point, if any.
///
/// The menu lies below the candidate bar, so its heights start at `bar_height`.
pub fn menu_item_hit(x: i32, y: i32, container_width: u32, bar_height: u32) -> (hit: Option<
    MenuAction,
>)
    requires
        signed(bar_height) + menu_height() <= i32::MAX,
    ensures
        hit == if panel_area(container_width, bar_height, menu_height()).contains(
            x as int,
            y as int,
        ) {
            let (row, col) = menu_cell_at(
                x as int,
                y - signed(bar_height),
                container_width as int,
            );
            MenuAction::at(row * MENU_COLUMNS + col)
        } else {
            None
        },
{
    let panel_start: i32 = to_signed(bar_height);
    let panel_end: i32 = panel_start + menu_panel_height() as i32;
    if y < panel_start || y >= panel_end {
        return None;
    }
    if x < 0 || x >= to_signed(container_width) {
        return None;
    }
    let row: usize = (y - panel_start) as usize / MENU_ITEM_HEIGHT as usize;
    let col: usize = x as usize * MENU_COLUMNS / container_width as usize;
    proof {
        lemma_column_in_range(x as int, MENU_COLUMNS as int, container_width as int);
    }
    let idx: usize = row * MENU_COLUMNS + col;
    MenuAction::from_index(idx)
}

/// A point inside the container lies in one of its columns.
proof fn lemma_column_in_range(x: int, columns: int, width: int)
    requires
        0 <= x < width,
        0 <= columns,
    ensures
        columns > 0 ==> 0 <= x * columns / width < columns,
        columns == 0 ==> x * columns / width == 0,
{
    if columns > 0 {
        assert(0 <= x * columns < columns * width) by (nonlinear_arith)
            requires
                0 <= x < width,
                columns > 0,
        ;
        assert(0 <= x * columns / width < columns) by (nonlinear_arith)
            requires
                0 <= x * columns < columns * width,
                width > 0,
        ;
    } else {
        assert(x * columns == 0) by (nonlinear_arith)
            requires
                columns == 0,
        ;
        assert(0int / width == 0) by (nonlinear_arith)
            requires
                width > 0,
        ;
    }
}

/// Every point of the unfolded menu belongs to exactly the entry whose cell it
/// lies in; the menu has no dead spots.
pub proof fn law_menu_has_no_gaps(x: int, local_y: int, container_width: int)
    requires
        0 <= x < container_width,
        0 <= local_y < menu_height(),
    ensures
        ({
            let (row, col) = menu_cell_at(x, local_y, container_width);
            MenuAction::at(row * MENU_COLUMNS + col) matches Some(action) && action.position()
                / MENU_COLUMNS as int == row && action.position() % MENU_COLUMNS as int == col
        }),
{
    lemma_column_in_range(x, MENU_COLUMNS as int, container_width);
}

/// The cell of the content grid under a point.
pub open spec fn content_cell_at(x: int, local_y: int, panel_width: int, columns: int) -> (
    int,
    int,
) {
    (local_y / (CONTENT_ITEM_SIZE + CONTENT_GAP), x * columns / panel_width)
}

/// The index on the page of the content item under a point.
pub open spec fn content_index_at(
    x: int,
    local_y: int,
    panel_width: int,
    columns: int,
) -> int {
    let (row, col) = content_cell_at(x, local_y, panel_width, columns);
    row * columns + col
}

/// The content item under a point, as its index on the page.
///
/// The grid lies below the candidate bar and has [`CONTENT_ROWS`] rows of the
/// given number of columns.
pub fn content_item_hit(
    x: i32,
    y: i32,
    panel_width: u32,
    bar_height: u32,
    columns: usize,
    item_count: usize,
) -> (hit: Option<usize>)
    requires
        signed(bar_height) + content_height() <= i32::MAX,
        panel_area(panel_width, bar_height, content_height()).contains(x as int, y as int) ==> {
            &&& x * columns <= usize::MAX
            &&& content_index_at(
                x as int,
                y - signed(bar_height),
                panel_width as int,
                columns as int,
            ) <= usize::MAX
        },
    ensures
        hit == if panel_area(panel_width, bar_height, content_height()).contains(
            x as int,
            y as int,
        ) && content_index_at(
            x as int,
            y - signed(bar_height),
            panel_width as int,
            columns as int,
        ) < item_count {
            Some(
                content_index_at(
                    x as int,
                    y - signed(bar_height),
                    panel_width as int,
                    columns as int,
                ) as usize,
            )
        } else {
            None
        },
{
    let panel_start: i32 = to_signed(bar_height);
    let panel_end: i32 = panel_start + content_panel_height() as i32;
    if y < panel_start || y >= panel_end {
        return None;
    }
    if x < 0 || x >= to_signed(panel_width) {
        return None;
    }
    let row: usize = (y - panel_start) as usize / (CONTENT_ITEM_SIZE + CONTENT_GAP) as usize;
    assert(x * columns >= 0) by (nonlinear_arith)
        requires
            x >= 0,
            columns >= 0,
    ;
    let col: usize = x as usize * columns / panel_width as usize;
    proof {
        lemma_column_in_range(x as int, columns as int, panel_width as int);
        assert(0 <= row * columns) by (nonlinear_arith)
            requires
                row >= 0,
                columns >= 0,
        ;
    }
    let idx: usize = row * columns + col;
    if idx < item_count {
        Some(idx)
    } else {
        None
    }
}

/// A hit on the content grid is an item of the page, within its capacity, and
/// lies in the row and column that its index stands for.
pub proof fn law_content_hit_in_cell(x: int, local_y: int, panel_width: int, columns: int)
    requires
        0 <= x < panel_width,
        0 <= local_y < content_height(),
        columns > 0,
    ensures
        ({
            let index = content_index_at(x, local_y, panel_width, columns);
            let (row, col) = content_cell_at(x, local_y, panel_width, columns);
            &&& 0 <= index < columns * CONTENT_ROWS
            &&& index / columns == row
            &&& index % columns == col
        }),
{
    lemma_column_in_range(x, columns, panel_width);
    let (row, col) = content_cell_at(x, local_y, panel_width, columns);
    assert(0 <= row < CONTENT_ROWS);
    assert(row * columns + columns <= columns * CONTENT_ROWS) by (nonlinear_arith)
        requires
            0 <= row,
            row + 1 <= CONTENT_ROWS,
            columns > 0,
    ;
    assert(row * columns >= 0) by (nonlinear_arith)
        requires
            row >= 0,
            columns > 0,
    ;
    vstd::arithmetic::div_mod::lemma_fundamental_div_mod_converse(
        row * columns + col,
        columns,
        row,
        col,
    );
}

// ── Laws of sizes and places ───────────────────────────────────────────────

/// A cast to `i32` keeps what fits and differs by two to the thirty-second power
/// otherwise.
pub proof fn law_casts_to_signed(v: u32)
    ensures
        i32::MIN <= signed(v) <= i32::MAX,
        signed(v) == v || signed(v) + 0x1_0000_0000 == v,
{
}

/// A rectangle is made of the points between its edges; the left and the upper edge
/// belong to it, the others do not.
pub proof fn law_points_of_a_rectangle(r: Rect, x: int, y: int)
    ensures
        r.contains(x, y) <==> r.x <= x && x < r.x + r.width && r.y <= y && y < r.y + r.height,
{
}

/// A cell has room for its text with 8 pixels on either side, is never narrower than
/// 36 pixels, and is no wider than either asks for.
pub proof fn law_cells_fit_their_texts(widest: int)
    ensures
        cell_width_of(widest) >= widest + 2 * 8,
        cell_width_of(widest) >= 36,
        cell_width_of(widest) == widest + 2 * 8 || cell_width_of(widest) == 36,
{
}

/// A grid of one column is as wide as its cell, and each further column adds a cell
/// and a gap of 6 pixels.
pub proof fn law_columns_add_up(cell_width: int, columns: int)
    ensures
        grid_width(cell_width, 1) == cell_width,
        grid_width(cell_width, columns + 1) == grid_width(cell_width, columns) + cell_width + 6,
{
    assert((columns + 1) * cell_width == columns * cell_width + cell_width) by (nonlinear_arith);
}

/// The rows of the list start 4 pixels below the title bar and follow each other
/// every 32 pixels.
pub proof fn law_rows_follow_each_other(i: int)
    ensures
        row_top(0) == 40 + 4,
        row_top(i + 1) == row_top(i) + 28 + 2 * 2,
{
}

/// The unfolded part is as high as what it shows: nothing, two rows of 44 pixels, three
/// rows of 36 with gaps of 6, or a title bar, five rows and a strip.
pub proof fn law_heights_of_views(view: PanelView)
    ensures
        view is Closed ==> view_height(view) == 0,
        view is Menu ==> view_height(view) == 2 * 44,
        view is Content ==> view_height(view) == 3 * 36 + 2 * 6,
        view is List ==> view_height(view) == 40 + 5 * 32 + 30,
        menu_height() == 2 * 44,
        content_height() == 3 * 36 + 2 * 6,
        list_height() == 40 + 5 * 32 + 30,
{
}

/// A panel below the candidate bar takes its whole width and begins where the bar
/// ends.
pub proof fn law_panels_lie_below_the_bar(
    panel_width: u32,
    bar_height: u32,
    height: int,
    x: int,
    y: int,
)
    requires
        panel_width <= i32::MAX,
        bar_height <= i32::MAX,
    ensures
        panel_area(panel_width, bar_height, height).contains(x, y) <==> 0 <= x < panel_width
            && bar_height <= y < bar_height + height,
        menu_button(panel_width, bar_height).contains(x, y) <==> panel_width - 36 <= x
            < panel_width && 0 <= y < bar_height,
{
}

/// Everything on the list page is where it is drawn, and nothing else is hit: the two
/// buttons of the title bar, the strip at the bottom, and for each entry shown its
/// delete button, on the clipboard page its quick-send button, and its body up to the
/// buttons.
pub proof fn law_list_page_from_point_to_hit(
    x: int,
    y: int,
    w: int,
    item_count: int,
    is_quick_send: bool,
    i: usize,
)
    requires
        0 <= x,
        0 <= y < 230,
        item_count >= 0,
    ensures
        ({
            let hit = list_hit_at(x, y, w, item_count, is_quick_send);
            let back = w - 70 <= x < w - 10 && 8 <= y < 32;
            let clear = w - 98 <= x < w - 78 && 10 <= y < 30;
            let shown = i < item_count && i < 5;
            let top = 44 + 32 * i;
            &&& hit == Some(ListHit::Back) <==> back
            &&& hit == Some(ListHit::Clear) <==> clear
            &&& hit == Some(ListHit::More) <==> y >= 200
            &&& hit == Some(ListHit::Row { index: i, button: Some(ListRowButton::Remove) })
                <==> shown && w - 30 <= x < w - 10 && top + 4 <= y < top + 24
            &&& hit == Some(ListHit::Row { index: i, button: Some(ListRowButton::QuickSend) })
                <==> shown && !is_quick_send && w - 56 <= x < w - 36 && top + 4 <= y < top + 24
            &&& hit == Some(ListHit::Row { index: i, button: None }) <==> shown && top <= y < top
                + 28 && x < if is_quick_send {
                w - 30
            } else {
                w - 56
            }
        }),
{
    if 0 <= y - 44 {
        let k = (y - 44) / 32;
        let r = (y - 44) % 32;
        assert(y - 44 == 32 * k + r && 0 <= r < 32);
    }
}

/// A point of the menu belongs to the entry of its half and its row: the left half to
/// the first column, the right half to the second.
pub proof fn law_menu_halves(x: int, local_y: int, container_width: int)
    requires
        0 <= x < container_width,
        0 <= local_y < 88,
    ensures
        ({
            let (row, col) = menu_cell_at(x, local_y, container_width);
            &&& row == if local_y < 44 {
                0int
            } else {
                1
            }
            &&& col == if 2 * x < container_width {
                0int
            } else {
                1
            }
        }),
{
    lemma_column_in_range(x, MENU_COLUMNS as int, container_width);
    let w = container_width;
    let d = x * MENU_COLUMNS / w;
    vstd::arithmetic::div_mod::lemma_fundamental_div_mod(x * MENU_COLUMNS, w);
    vstd::arithmetic::div_mod::lemma_mod_bound(x * MENU_COLUMNS, w);
    assert(d == 0 ==> w * d == 0) by (nonlinear_arith);
    assert(d == 1 ==> w * d == w) by (nonlinear_arith);
}

/// The entries of the menu and their captions.
pub proof fn law_menu_entries()
    ensures
        MenuAction::at(0) == Some(MenuAction::Emoji),
        MenuAction::at(1) == Some(MenuAction::Symbols),
        MenuAction::at(2) == Some(MenuAction::Clipboard),
        MenuAction::at(3) == Some(MenuAction::QuickSend),
        MenuAction::Emoji.label_text() == "表情"@,
        MenuAction::Symbols.label_text() == "符号"@,
        MenuAction::Clipboard.label_text() == "剪切板"@,
        MenuAction::QuickSend.label_text() == "快捷发送"@,
{
}

/// A point of the content grid belongs to the column whose share of the width it lies
/// in, and to the row of its 42 pixels; items are counted row by row.
pub proof fn law_content_cells_share_the_width(
    x: int,
    local_y: int,
    panel_width: int,
    columns: int,
)
    requires
        0 <= x < panel_width,
        0 <= local_y < 120,
        columns > 0,
    ensures
        ({
            let (row, col) = content_cell_at(x, local_y, panel_width, columns);
            &&& 42 * row <= local_y < 42 * (row + 1)
            &&& panel_width * col <= x * columns < panel_width * (col + 1)
            &&& content_index_at(x, local_y, panel_width, columns) == row * columns + col
        }),
{
    let col = x * columns / panel_width;
    vstd::arithmetic::div_mod::lemma_fundamental_div_mod(x * columns, panel_width);
    vstd::arithmetic::div_mod::lemma_mod_bound(x * columns, panel_width);
    assert(panel_width * (col + 1) == panel_width * col + panel_width) by (nonlinear_arith);
}

/// A text that fits is left as it is. One that does not is cut as late as possible: with
/// one more character it would not fit.
pub proof fn law_texts_are_cut_as_late_as_possible(s: Seq<char>, max_width: int, k: int)
    ensures
        crate::text::text_width(s) <= max_width ==> truncated(s, max_width) == s,
        crate::text::text_width(s) > max_width && 1 <= k < s.len() && truncated(s, max_width)
            == s.take(k) + "…"@ ==> crate::text::text_width(s.take(k + 1)) + 17 > max_width,
        crate::text::text_width(s) > max_width && s.len() >= 1 ==> exists|n: int|
            1 <= n <= s.len() && truncated(s, max_width) == #[trigger] s.take(n) + "…"@,
{
    reveal_strlit("…");
    if crate::text::text_width(s) > max_width && s.len() >= 1 {
        let n = longest_fit(s, max_width, s.len() as int);
        lemma_longest_fit_bounds(s, max_width, s.len() as int);
        lemma_longest_fit_is_longest(s, max_width, s.len() as int);
        assert(truncated(s, max_width) == s.take(n) + "…"@);
        if 1 <= k < s.len() && truncated(s, max_width) == s.take(k) + "…"@ {
            assert((s.take(k) + "…"@).len() == k + 1);
            assert((s.take(n) + "…"@).len() == n + 1);
        }
    }
}

proof fn lemma_longest_fit_is_longest(s: Seq<char>, max_width: int, n: int)
    requires
        1 <= n <= s.len(),
    ensures
        longest_fit(s, max_width, n) < n ==> crate::text::text_width(
            s.take(longest_fit(s, max_width, n) + 1),
        ) + ELLIPSIS_WIDTH > max_width,
    decreases n,
{
    if n > 1 && crate::text::text_width(s.take(n)) + ELLIPSIS_WIDTH > max_width {
        lemma_longest_fit_is_longest(s, max_width, n - 1);
    }
}

/// The titles of the two lists.
pub proof fn law_list_titles()
    ensures
        ListKind::Clipboard.title_text() == "剪切板"@,
        ListKind::QuickSend.title_text() == "快捷发送"@,
{
}

} // verus!
