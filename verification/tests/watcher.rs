use xime::watcher::{
    choose_protocol, offer_text, pick_text_mime, DataControl, OfferEvent, WatcherState,
    MAX_READ_BYTES, MIME_PLAIN, MIME_UTF8,
};

#[test]
fn test_pick_text_mime() {
    assert_eq!(
        pick_text_mime(&["text/plain".to_string()]),
        Some(MIME_PLAIN)
    );
    assert_eq!(
        pick_text_mime(&["text/html".to_string(), MIME_UTF8.to_string()]),
        Some(MIME_UTF8),
        "UTF-8 变体优先"
    );
    assert_eq!(
        pick_text_mime(&[MIME_PLAIN.to_string(), MIME_UTF8.to_string()]),
        Some(MIME_UTF8)
    );
    assert_eq!(pick_text_mime(&["image/png".to_string()]), None);
    assert_eq!(pick_text_mime(&[]), None);
}

#[test]
fn selections_go_by_their_own_offer() {
    let mut state = WatcherState::new();
    assert_eq!(state.on_event(OfferEvent::DataOffer(1)), None);
    assert_eq!(
        state.on_event(OfferEvent::MimeType(1, "text/plain".to_string())),
        None
    );
    state.on_event(OfferEvent::DataOffer(2));
    state.on_event(OfferEvent::MimeType(2, "image/png".to_string()));
    state.on_event(OfferEvent::MimeType(1, MIME_UTF8.to_string()));
    assert_eq!(state.on_event(OfferEvent::Selection(Some(2))), None);
    assert_eq!(
        state.on_event(OfferEvent::Selection(Some(1))),
        Some(MIME_UTF8)
    );
    assert_eq!(state.on_event(OfferEvent::Selection(Some(1))), None);
}

#[test]
fn offers_start_over_and_need_no_announcement() {
    let mut state = WatcherState::new();
    state.on_event(OfferEvent::MimeType(5, "text/plain".to_string()));
    assert_eq!(
        state.on_event(OfferEvent::Selection(Some(5))),
        Some(MIME_PLAIN)
    );
    state.on_event(OfferEvent::MimeType(6, "text/plain".to_string()));
    state.on_event(OfferEvent::DataOffer(6));
    assert_eq!(state.on_event(OfferEvent::Selection(None)), None);
    assert_eq!(state.on_event(OfferEvent::Selection(Some(6))), None);
    assert_eq!(state.on_event(OfferEvent::Selection(Some(9))), None);
}

#[test]
fn texts_are_captured_once_in_a_row() {
    let mut state = WatcherState::new();
    assert!(state.wants_capture("a"));
    assert!(!state.finish_capture("a".to_string(), false));
    assert!(state.wants_capture("a"));
    assert!(state.finish_capture("a".to_string(), true));
    assert!(!state.wants_capture("a"));
    assert!(state.wants_capture("b"));
    assert!(state.finish_capture("b".to_string(), true));
    assert!(state.wants_capture("a"));
}

#[test]
fn offers_become_texts() {
    assert_eq!(
        offer_text("héllo 世界".as_bytes().to_vec()),
        Some("héllo 世界".to_string())
    );
    assert_eq!(offer_text(vec![]), None);
    assert_eq!(offer_text(vec![0x68, 0xff]), None);
    let limit = MAX_READ_BYTES as usize;
    let long = vec![b'x'; limit + 3];
    assert_eq!(offer_text(long).unwrap().len(), limit);
    let mut cut = vec![b'x'; limit - 1];
    cut.extend_from_slice("é".as_bytes());
    assert_eq!(offer_text(cut), None);
}

#[test]
fn the_standard_protocol_comes_first() {
    assert_eq!(choose_protocol(true, true), Some(DataControl::Ext));
    assert_eq!(choose_protocol(true, false), Some(DataControl::Ext));
    assert_eq!(choose_protocol(false, true), Some(DataControl::Wlr));
    assert_eq!(choose_protocol(false, false), None);
}
