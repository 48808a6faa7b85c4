//! Which link cards are asked for.

use vellum_app::links::{fetched_bytes, image_to_fetch, Fetcher};

fn ask(fetcher: &mut Fetcher, item: u128, url: &str, want_image: bool) -> bool {
    let web_page = url.starts_with("http://") || url.starts_with("https://");
    let send = fetcher.request(item, url, want_image, web_page);
    if send {
        fetcher.sent(item, url, want_image, true);
    }
    send
}

#[test]
fn a_url_is_requested_once_per_item() {
    let mut fetcher = Fetcher::new();
    let (a, b) = (1, 2);

    assert!(ask(&mut fetcher, a, "https://example.com/x", false), "the first ask goes");
    assert!(!ask(&mut fetcher, a, "https://example.com/x", false), "the second does not");
    assert!(
        ask(&mut fetcher, b, "https://example.com/x", false),
        "a different card wants the same page filled in"
    );
    assert_eq!(fetcher.outstanding(), 2);
}

#[test]
fn only_web_pages_are_requested() {
    let mut fetcher = Fetcher::new();
    for refused in ["mailto:a@b.com", "file:///etc/passwd", "javascript:alert(1)", "", "x"] {
        assert!(!ask(&mut fetcher, 1, refused, false), "{refused} was requested");
    }
    assert_eq!(fetcher.outstanding(), 0);
}

#[test]
fn draining_nothing_returns_nothing_and_does_not_block() {
    let mut fetcher = Fetcher::new();
    fetcher.drain(0);
    assert_eq!(fetcher.outstanding(), 0);
    fetcher.drain(3);
    assert_eq!(fetcher.outstanding(), 0, "an answer too many is not an underflow");
}

#[test]
fn a_card_that_comes_to_draw_a_picture_asks_again() {
    let mut fetcher = Fetcher::new();
    assert!(ask(&mut fetcher, 1, "https://example.com/x", false));
    assert!(ask(&mut fetcher, 1, "https://example.com/x", true));
    assert!(!ask(&mut fetcher, 1, "https://example.com/x", true));
}

#[test]
fn a_request_that_did_not_go_can_be_made_again() {
    let mut fetcher = Fetcher::new();
    assert!(fetcher.request(1, "https://example.com/x", false, true));
    fetcher.sent(1, "https://example.com/x", false, false);
    assert_eq!(fetcher.outstanding(), 0);
    assert!(fetcher.request(1, "https://example.com/x", false, true));
}

#[test]
fn forgetting_an_item_forgets_its_words_and_its_picture() {
    let mut fetcher = Fetcher::new();
    assert!(ask(&mut fetcher, 1, "https://example.com/x", false));
    assert!(ask(&mut fetcher, 1, "https://example.com/x", true));
    assert!(ask(&mut fetcher, 2, "https://example.com/x", false));
    fetcher.forget_item(1);
    assert!(ask(&mut fetcher, 1, "https://example.com/x", false));
    assert!(ask(&mut fetcher, 1, "https://example.com/x", true));
    assert!(!ask(&mut fetcher, 2, "https://example.com/x", false));
}

#[test]
fn a_picture_is_fetched_only_where_it_is_drawn() {
    assert_eq!(image_to_fetch(true, Some("https://e.com/i.png".into())).as_deref(), Some("https://e.com/i.png"));
    assert_eq!(image_to_fetch(false, Some("https://e.com/i.png".into())), None);
    assert_eq!(image_to_fetch(true, None), None);
    assert_eq!(fetched_bytes(Some(vec![1, 2])), Some(vec![1, 2]));
    assert_eq!(fetched_bytes(Some(vec![])), None);
    assert_eq!(fetched_bytes(None), None);
}
