use xime::menu::{
    content_item_hit, list_page_hit, menu_item_hit, GridItem, ListHit, ListItem, ListKind,
    MenuAction, PanelView,
};
use xime::panel::{
    build_panel_view, candidate_items, content_grid, list_page, list_row, menu_grid,
    menu_item_color, view_fits, CandidateItem, PanelBody,
};
use xime::pixels::{buffer_len, copy_rgba_to_bgra};
use xime::theme::{FontSize, PanelTheme, Rgb};

const PRIMARY: (u8, u8, u8) = (0x8F, 0x73, 0xE2);

fn points(whole: u32) -> FontSize {
    FontSize { whole, fraction: false }
}

fn candidates() -> Vec<CandidateItem> {
    ["式", "是", "时"]
        .iter()
        .zip(["aa", "bb", ""])
        .enumerate()
        .map(|(index, (text, comment))| CandidateItem {
            text: text.to_string(),
            comment: comment.to_string(),
            index,
        })
        .collect()
}

fn grid_items(n: usize) -> Vec<GridItem> {
    (0..n)
        .map(|i| GridItem { text: format!("{i}"), comment: String::new() })
        .collect()
}

fn list_items(n: usize) -> Vec<ListItem> {
    (0..n)
        .map(|i| ListItem { id: i as i64, text: format!("entry {i}"), is_pinned: i == 1 })
        .collect()
}

#[test]
fn test_bar_height_default_font() {
    let t = PanelTheme::light(points(14), PRIMARY);
    assert_eq!(t.bar_height(), xime::menu::CANDIDATE_HEIGHT);
    let t = PanelTheme::light(points(16), PRIMARY);
    assert_eq!(t.bar_height(), xime::menu::CANDIDATE_HEIGHT);
}

#[test]
fn test_bar_height_large_font() {
    let t = PanelTheme::light(points(20), PRIMARY);
    assert_eq!(t.bar_height(), 48);
    let t = PanelTheme::dark(points(40), PRIMARY);
    assert_eq!(t.bar_height(), 72);
}

#[test]
fn bar_height_just_above_the_default() {
    let t = PanelTheme::light(FontSize { whole: 16, fraction: true }, PRIMARY);
    assert_eq!(t.bar_height(), 40);
    let t = PanelTheme::light(points(32), PRIMARY);
    assert_eq!(t.bar_height(), 72);
}

#[test]
fn test_for_mode_colors_differ() {
    let light = PanelTheme::for_mode(false, points(14), PRIMARY);
    let dark = PanelTheme::for_mode(true, points(14), PRIMARY);
    assert_ne!(light.bg, dark.bg);
    assert_ne!(light.text_main, dark.text_main);
    assert_eq!(light.primary, dark.primary);
}

#[test]
fn themes_have_their_colors() {
    let light = PanelTheme::light(points(14), PRIMARY);
    assert_eq!(light.bg.rgb, Rgb { r: 0xF5, g: 0xF5, b: 0xF7 });
    assert_eq!(light.bg.opacity, 98);
    assert_eq!(light.border, Rgb { r: 0xE0, g: 0xE0, b: 0xE0 });
    assert_eq!(light.neutral_row_bg(), Rgb { r: 0, g: 0, b: 0 });
    let dark = PanelTheme::dark(points(14), PRIMARY);
    assert_eq!(dark.bg.rgb, Rgb { r: 0x24, g: 0x26, b: 0x2B });
    assert_eq!(dark.bg.opacity, 96);
    assert_eq!(dark.text_main, Rgb { r: 0xED, g: 0xED, b: 0xF2 });
    assert_eq!(dark.text_comment, Rgb { r: 0x9E, g: 0xA0, b: 0xA8 });
    assert_eq!(dark.neutral_row_bg(), Rgb { r: 0x59, g: 0x5E, b: 0x6B });
}

#[test]
fn candidates_are_numbered() {
    let cells = candidate_items(&candidates(), 1);
    let labels: Vec<&str> = cells.iter().map(|c| c.label.as_str()).collect();
    assert_eq!(labels, vec!["1. 式", "2. 是", "3. 时"]);
    assert_eq!(cells[0].comment, "aa");
    assert_eq!(cells[2].comment, "");
    assert!(!cells[0].highlighted && cells[1].highlighted && !cells[2].highlighted);
    assert!(candidate_items(&[], 0).is_empty());
}

#[test]
fn menu_shows_all_entries() {
    let rows = menu_grid(Some(2));
    assert_eq!(rows.len(), 2);
    let cell = rows[1][0].unwrap();
    assert_eq!(cell.action, MenuAction::Clipboard);
    assert_eq!(cell.label, "剪切板");
    assert_eq!(cell.initial, '剪');
    assert_eq!(cell.color, Rgb { r: 0x2E, g: 0xA0, b: 0x7D });
    assert!(cell.active);
    assert!(!rows[0][0].unwrap().active);
    assert_eq!(menu_item_color(0), Rgb { r: 0x8F, g: 0x73, b: 0xE2 });
    assert_eq!(menu_item_color(1), Rgb { r: 0x1A, g: 0x73, b: 0xE8 });
    assert_eq!(menu_item_color(9), Rgb { r: 0xE5, g: 0x8F, b: 0x2A });
}

#[test]
fn menu_hits_match_the_drawn_cells() {
    let rows = menu_grid(None);
    for y in (0..88).step_by(5) {
        for x in (0..414).step_by(7) {
            let hit = menu_item_hit(x, 36 + y, 414, 36);
            let cell = rows[(y / 44) as usize][(x * 2 / 414) as usize].unwrap();
            assert_eq!(hit, Some(cell.action));
        }
    }
}

#[test]
fn content_grid_places_items_row_by_row() {
    let grid = content_grid(&grid_items(13), Some(12));
    assert_eq!(grid.cell_width, 36);
    assert_eq!(grid.columns, 10);
    assert_eq!(grid.rows.len(), 3);
    assert_eq!(grid.rows[1][2].as_ref().unwrap().text, "12");
    assert!(grid.rows[1][2].as_ref().unwrap().highlighted);
    assert!(!grid.rows[0][0].as_ref().unwrap().highlighted);
    assert_eq!(grid.rows[1][3], None);
    assert_eq!(grid.rows[2].len(), 10);
    let empty = content_grid(&[], None);
    assert_eq!(empty.columns, 10);
    let mut wide = grid_items(3);
    wide[1].text = "颜文字颜文字".to_string();
    assert!(content_grid(&wide, None).columns < 10);
}

#[test]
fn content_hits_match_the_drawn_cells() {
    let items = grid_items(17);
    let grid = content_grid(&items, None);
    for y in 0..120 {
        for x in (0..414).step_by(3) {
            let hit = content_item_hit(x, 36 + y, 414, 36, grid.columns, items.len());
            let cell = &grid.rows[(y / 42) as usize][(x * 10 / 414) as usize];
            assert_eq!(
                hit.map(|i| items[i].text.clone()),
                cell.as_ref().map(|c| c.text.clone())
            );
        }
    }
}

#[test]
fn list_pages_show_their_first_entries() {
    let page = list_page(ListKind::Clipboard, &list_items(7), Some(1));
    assert_eq!(page.title, "剪切板");
    assert!(!page.empty);
    assert_eq!(page.rows.len(), 5);
    let row = page.rows[1].as_ref().unwrap();
    assert_eq!(row.text, "entry 1");
    assert!(row.pinned && row.highlighted && row.has_quick_send_button);
    let page = list_page(ListKind::QuickSend, &list_items(2), None);
    assert!(!page.rows[0].as_ref().unwrap().has_quick_send_button);
    assert_eq!(page.rows[2], None);
    assert!(list_page(ListKind::QuickSend, &[], None).empty);
}

#[test]
fn long_entries_are_cut_beside_the_buttons() {
    let item = ListItem { id: 1, text: "x".repeat(40), is_pinned: false };
    let clipboard = list_row(&item, false, ListKind::Clipboard);
    assert_eq!(clipboard.text, format!("{}…", "x".repeat(25)));
    let quick_send = list_row(&item, false, ListKind::QuickSend);
    assert_eq!(quick_send.text, format!("{}…", "x".repeat(27)));
}

#[test]
fn hit_rows_are_drawn() {
    let items = list_items(3);
    let page = list_page(ListKind::Clipboard, &items, None);
    for y in 0..230 {
        if let Some(ListHit::Row { index, .. }) = list_page_hit(60, 36 + y, 400, 36, 3, false) {
            assert!(page.rows[index].is_some());
        }
    }
}

#[test]
fn panels_unfold_what_the_view_says() {
    let bar = candidates();
    let closed = build_panel_view(&bar, 0, &PanelView::Closed);
    assert_eq!(closed.bar, candidate_items(&bar, 0));
    assert_eq!(closed.body, PanelBody::Closed);
    let menu = build_panel_view(&bar, 0, &PanelView::Menu(Some(0)));
    assert_eq!(menu.body, PanelBody::Menu(menu_grid(Some(0))));
    let view = PanelView::Content { items: grid_items(4), highlighted: Some(3) };
    assert!(view_fits(&view));
    let content = build_panel_view(&bar, 0, &view);
    assert_eq!(content.body, PanelBody::Content(content_grid(&grid_items(4), Some(3))));
    let view = PanelView::List {
        kind: ListKind::QuickSend,
        items: list_items(2),
        highlighted: None,
    };
    assert!(view_fits(&view));
    let list = build_panel_view(&bar, 0, &view);
    assert_eq!(
        list.body,
        PanelBody::List(list_page(ListKind::QuickSend, &list_items(2), None))
    );
}

#[test]
fn pixels_are_copied_with_red_and_blue_exchanged() {
    assert_eq!(buffer_len(3, 2), 24);
    let data = [1u8, 2, 3, 4, 5, 6, 7, 8];
    let mut pixels = [0u8; 8];
    copy_rgba_to_bgra(&mut pixels, &data);
    assert_eq!(pixels, [3, 2, 1, 4, 7, 6, 5, 8]);
    let mut back = [0u8; 8];
    copy_rgba_to_bgra(&mut back, &pixels);
    assert_eq!(back, data);
    let mut short = [9u8; 7];
    copy_rgba_to_bgra(&mut short, &data);
    assert_eq!(short, [3, 2, 1, 4, 9, 9, 9]);
    let mut long = [9u8; 10];
    copy_rgba_to_bgra(&mut long, &data);
    assert_eq!(long, [3, 2, 1, 4, 7, 6, 5, 8, 9, 9]);
}
