use xime::menu::{
    content_capacity, content_cell_width, content_columns_for, content_item_hit,
    content_panel_height, content_panel_width, content_text_width, expanded_height, list_page_hit,
    list_panel_height, list_quick_send_btn_rect, list_remove_btn_rect, list_row_y, menu_button_hit, menu_item_hit, menu_panel_height,
    panel_height_for, truncate_to_width, GridItem, ListHit, ListItem, ListKind, ListRowButton,
    MenuAction, PanelView, CONTENT_MAX_WIDTH, LIST_BACK_WIDTH, LIST_BUTTON_SIZE,
    LIST_HEADER_HEIGHT, LIST_H_INSET, LIST_MORE_HEIGHT,
};
use xime::text::measured_width;


#[test]
fn test_content_text_width() {
    assert_eq!(content_text_width("。"), 17);
    assert_eq!(content_text_width("abc"), 30);
    assert_eq!(content_text_width("0️⃣"), 10);
    assert_eq!(content_text_width(""), 0);
}

#[test]
fn test_content_grid_sizing() {
    let cell = content_cell_width(content_text_width("。"));
    assert_eq!(cell, 36);
    let cols = content_columns_for(cell);
    assert_eq!(cols, 10);
    assert_eq!(content_panel_width(cell, cols), 414);
    assert_eq!(content_capacity(cols), 30);

    let kaomoji = "(ﾟ∀ﾟ)";
    let cell = content_cell_width(content_text_width(kaomoji));
    assert!(cell >= 36);
    let cols = content_columns_for(cell);
    assert!(cols < 10, "wide items should reduce columns");
    assert!(content_panel_width(cell, cols) <= CONTENT_MAX_WIDTH + cell);
    assert!(content_panel_width(cell, cols) > 414);

    let cols = content_columns_for(200);
    assert_eq!(cols, 4);
}

#[test]
fn test_content_panel_geometry() {
    assert_eq!(content_panel_height(), 120);
}

#[test]
fn test_content_item_hit() {
    let w = 414u32;
    let bar = 36u32;
    let cols = 10usize;
    assert_eq!(content_item_hit(0, 36, w, bar, cols, 30), Some(0));
    assert_eq!(
        content_item_hit(w as i32 - 1, 36, w, bar, cols, 30),
        Some(9)
    );
    assert_eq!(content_item_hit(0, 78, w, bar, cols, 30), Some(10));
    assert_eq!(content_item_hit(0, 120, w, bar, cols, 30), Some(20));
    assert_eq!(content_item_hit(0, 155, w, bar, cols, 30), Some(20));
    assert_eq!(content_item_hit(0, 35, w, bar, cols, 30), None);
    assert_eq!(content_item_hit(0, 36 + 120, w, bar, cols, 30), None);
    assert_eq!(content_item_hit(-1, 36, w, bar, cols, 30), None);
    assert_eq!(content_item_hit(0, 36, w, bar, cols, 0), None);
    assert_eq!(content_item_hit(0, 36, w, bar, cols, 5), Some(0));
    assert_eq!(content_item_hit(w as i32 - 1, 36, w, bar, cols, 5), None);
}

#[test]
fn test_panel_height_for() {
    assert_eq!(panel_height_for(&PanelView::Closed), 0);
    assert_eq!(
        panel_height_for(&PanelView::Menu(None)),
        menu_panel_height()
    );
    assert_eq!(
        panel_height_for(&PanelView::Content {
            items: vec![],
            highlighted: None,
        }),
        content_panel_height()
    );
}

#[test]
fn test_menu_button_hit_with_bar_height() {
    assert!(menu_button_hit(378, 10, 414, 36));
    assert!(!menu_button_hit(100, 10, 414, 36));
    assert!(!menu_button_hit(378, 40, 414, 36));
    assert!(menu_button_hit(378, 40, 414, 48));
}

#[test]
fn test_list_panel_geometry() {
    // 40 + 5*(28+4) + 30 = 230
    assert_eq!(list_panel_height(), 230);
    assert_eq!(list_row_y(0), LIST_HEADER_HEIGHT + 4);
    assert_eq!(list_row_y(4), LIST_HEADER_HEIGHT + 4 + 4 * 32);
    assert_eq!(list_row_y(5), list_row_y(4) + 32);
}

#[test]
fn test_list_page_hit_rows() {
    let w = 400u32;
    let bar = 36u32;
    let row0 = 36 + list_row_y(0) as i32 + 10;
    assert_eq!(
        list_page_hit(50, row0, w, bar, 3, false),
        Some(ListHit::Row {
            index: 0,
            button: None
        })
    );
    let row2 = 36 + list_row_y(2) as i32 + 10;
    assert_eq!(
        list_page_hit(50, row2, w, bar, 3, false),
        Some(ListHit::Row {
            index: 2,
            button: None
        })
    );
    let row3 = 36 + list_row_y(3) as i32 + 10;
    assert_eq!(list_page_hit(50, row3, w, bar, 3, false), None);
    let rx = w as i32 - LIST_H_INSET as i32 - LIST_BUTTON_SIZE as i32 + 5;
    assert_eq!(
        list_page_hit(rx, row0, w, bar, 3, false),
        Some(ListHit::Row {
            index: 0,
            button: Some(ListRowButton::Remove)
        })
    );
    let qx = rx - LIST_BUTTON_SIZE as i32 - 6 + 5;
    assert_eq!(
        list_page_hit(qx, row0, w, bar, 3, false),
        Some(ListHit::Row {
            index: 0,
            button: Some(ListRowButton::QuickSend)
        })
    );
    assert_eq!(
        list_page_hit(qx, row0, w, bar, 3, true),
        Some(ListHit::Row {
            index: 0,
            button: None
        })
    );
}

#[test]
fn test_list_page_hit_header_and_more() {
    let w = 400u32;
    let bar = 36u32;
    let back_x = (w - LIST_BACK_WIDTH - LIST_H_INSET) as i32 + 10;
    let back_y = 36 + (LIST_HEADER_HEIGHT - 24 - 8) as i32 + 10;
    assert_eq!(
        list_page_hit(back_x, back_y, w, bar, 3, false),
        Some(ListHit::Back)
    );
    let clear_x = back_x - 8 - LIST_BUTTON_SIZE as i32 + 5;
    assert_eq!(
        list_page_hit(clear_x, back_y + 2, w, bar, 3, false),
        Some(ListHit::Clear)
    );
    let more_y = 36 + (list_panel_height() - LIST_MORE_HEIGHT) as i32 + 10;
    assert_eq!(
        list_page_hit(50, more_y, w, bar, 3, false),
        Some(ListHit::More)
    );
    assert_eq!(list_page_hit(50, 10, w, bar, 3, false), None);
    assert_eq!(
        list_page_hit(50, 36 + list_panel_height() as i32, w, bar, 3, false),
        None
    );
    assert_eq!(list_page_hit(-1, back_y, w, bar, 3, false), None);
}

#[test]
fn test_truncate_to_width() {
    assert_eq!(truncate_to_width("你好", 100), "你好");
    let long = "这是一段很长很长很长的剪贴板内容需要被截断显示";
    let t = truncate_to_width(long, 120);
    assert!(t.ends_with('…'));
    assert!(t.chars().count() < long.chars().count() + 1);
    assert_eq!(truncate_to_width("", 10), "");
}

#[test]
fn test_menu_item_hit_with_bar_height() {
    assert_eq!(menu_item_hit(10, 40, 414, 36), Some(MenuAction::Emoji));
    assert_eq!(menu_item_hit(10, 40, 414, 48), None);
    assert_eq!(menu_item_hit(10, 52, 414, 48), Some(MenuAction::Emoji));
}

#[test]
fn text_width_counts_each_kind_of_character() {
    assert_eq!(content_text_width("a\u{0301}"), 10);
    assert_eq!(content_text_width("👍\u{1F3FD}"), 17);
    assert_eq!(content_text_width("a你b"), 37);
    assert_eq!(content_text_width("\u{7f}\u{80}"), 27);
}

#[test]
fn measured_widths_are_the_estimated_ones() {
    for text in ["", "abc", "0️⃣", "a你b"] {
        assert_eq!(measured_width(text), Some(content_text_width(text)));
    }
}

#[test]
fn text_width_is_additive() {
    let (a, b) = ("héllo", "世界!");
    let both = format!("{a}{b}");
    assert_eq!(
        content_text_width(&both),
        content_text_width(a) + content_text_width(b)
    );
}

#[test]
fn columns_stay_between_four_and_ten() {
    assert_eq!(content_columns_for(0), 10);
    assert_eq!(content_columns_for(60), 10);
    assert_eq!(content_columns_for(61), 9);
    assert_eq!(content_columns_for(127), 5);
    assert_eq!(content_columns_for(128), 4);
    assert_eq!(content_columns_for(1_000_000), 4);
}

#[test]
fn wider_cells_never_get_more_columns() {
    let mut last = content_columns_for(0);
    for width in 1..300u32 {
        let columns = content_columns_for(width);
        assert!(columns <= last);
        last = columns;
    }
}

#[test]
fn list_view_has_the_height_of_the_list() {
    let view = PanelView::List {
        kind: ListKind::QuickSend,
        items: vec![ListItem { id: 1, text: "a".to_string(), is_pinned: true }],
        highlighted: Some(0),
    };
    assert_eq!(panel_height_for(&view), 230);
    let grid = PanelView::Content {
        items: vec![GridItem { text: "a".to_string(), comment: String::new() }],
        highlighted: None,
    };
    assert_eq!(panel_height_for(&grid), 120);
    assert_eq!(panel_height_for(&PanelView::default()), 0);
}

#[test]
fn list_kinds_have_titles_and_buttons() {
    assert_eq!(ListKind::Clipboard.title(), "剪切板");
    assert_eq!(ListKind::QuickSend.title(), "快捷发送");
    assert!(ListKind::Clipboard.has_quick_send_button());
    assert!(!ListKind::QuickSend.has_quick_send_button());
}

#[test]
fn row_buttons_stand_side_by_side() {
    assert_eq!(list_remove_btn_rect(44, 400), (370, 48));
    assert_eq!(list_quick_send_btn_rect(44, 400), (344, 48));
    for (y, width) in [(0, 56), (44, 360), (172, 1000)] {
        let (qx, qy) = list_quick_send_btn_rect(y, width);
        let (rx, ry) = list_remove_btn_rect(y, width);
        assert_eq!(qy, ry);
        assert_eq!(qx + 20 + 6, rx);
        assert_eq!(rx + 20 + 10, width);
        assert_eq!(ry - y, (y + 28) - (ry + 20));
    }
}

#[test]
fn gaps_between_rows_hit_nothing() {
    let below_first = 36 + list_row_y(0) as i32 + 28;
    for y in below_first..below_first + 4 {
        assert_eq!(list_page_hit(50, y, 400, 36, 3, false), None);
    }
    assert_eq!(
        list_page_hit(50, below_first + 4, 400, 36, 3, false),
        Some(ListHit::Row { index: 1, button: None })
    );
}

#[test]
fn list_hits_stay_within_the_items() {
    for y in 0..300 {
        for x in (0..400).step_by(3) {
            if let Some(ListHit::Row { index, button }) = list_page_hit(x, y, 400, 36, 2, true) {
                assert!(index < 2);
                assert_ne!(button, Some(ListRowButton::QuickSend));
            }
        }
    }
}

#[test]
fn truncated_texts_keep_a_prefix_and_fit() {
    assert_eq!(truncate_to_width("abcdef", 60), "abcdef");
    assert_eq!(truncate_to_width("abcdef", 59), "abcd…");
    assert_eq!(truncate_to_width("abcdef", 57), "abcd…");
    assert_eq!(truncate_to_width("abcdef", 56), "abc…");
    assert_eq!(truncate_to_width("abcdef", 0), "a…");
    for width in 27..80u32 {
        assert!(content_text_width(&truncate_to_width("abcdef你好", width)) <= width);
    }
}

#[test]
fn menu_entries_know_their_places() {
    for (i, action) in MenuAction::ALL.iter().enumerate() {
        assert_eq!(action.index(), i);
        assert_eq!(action.row() * 2 + action.col(), i);
        assert_eq!(MenuAction::from_index(i), Some(*action));
    }
    assert_eq!(MenuAction::from_index(4), None);
    assert_eq!(MenuAction::Emoji.label(), "表情");
    assert_eq!(MenuAction::Symbols.label(), "符号");
    assert_eq!(MenuAction::Clipboard.label(), "剪切板");
    assert_eq!(MenuAction::QuickSend.label(), "快捷发送");
}

#[test]
fn menu_has_no_dead_spots() {
    assert_eq!(expanded_height(36), 36 + 88);
    for y in 36..124 {
        for x in 0..414 {
            let hit = menu_item_hit(x, y, 414, 36).unwrap();
            assert_eq!(hit.row() as i32, (y - 36) / 44);
            assert_eq!(hit.col() as i32, x * 2 / 414);
        }
    }
    assert_eq!(menu_item_hit(0, 124, 414, 36), None);
    assert_eq!(menu_item_hit(414, 40, 414, 36), None);
    assert_eq!(menu_item_hit(413, 123, 414, 36), Some(MenuAction::QuickSend));
}

#[test]
fn content_hits_match_rows_and_columns() {
    for y in 36..156 {
        for x in 0..414 {
            let hit = content_item_hit(x, y, 414, 36, 10, 30).unwrap();
            assert_eq!(hit as i32, (y - 36) / 42 * 10 + x * 10 / 414);
        }
    }
}
