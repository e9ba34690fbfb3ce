use rxer::output::{field, row, track};

fn pair(a: &str, b: &str) -> (String, String) {
    (a.to_string(), b.to_string())
}

#[test]
fn preserves_titles_and_handles_missing_or_ambiguous_metadata() {
    assert_eq!(
        track("Ignace Pleyel - Rondo in Bb"),
        pair("Ignace Pleyel", "Rondo in Bb")
    );
    assert_eq!(
        track("Artist - Work - Movement"),
        pair("Artist", "Work - Movement")
    );
    assert_eq!(track("Artist — Work"), pair("Artist", "Work"));
    assert_eq!(track("Untitled"), pair("", "Untitled"));
    assert_eq!(track(""), pair("", ""));
}

#[test]
fn rows_align_status_and_artist_without_tabs_or_empty_tails() {
    let playing = row("04:05:06", "playing", "Hans Zimmer", "The Thin Red Line");
    let connecting = row("04:05:06", "connecting", "Hans Zimmer", "The Thin Red Line");
    assert_eq!(playing.find("Hans Zimmer"), connecting.find("Hans Zimmer"));
    assert_eq!(playing.find("The Thin Red Line"), Some(60));
    assert!(!playing.contains('\t'));
    assert_eq!(
        row("04:05:06", "connecting", "", ""),
        "04:05:06    connecting"
    );
    assert!(row("04:05:06", "playing", "A|B", "Work\nnext\tmovement").ends_with("Work next movement"));
    assert!(row("04:05:06", "playing", "Artist", "A, \"quoted\" title").ends_with("A, \"quoted\" title"));
}

#[test]
fn en_dash_separates_and_fields_lose_control_characters() {
    assert_eq!(track("Artist – Work"), pair("Artist", "Work"));
    assert_eq!(track(" - Work"), pair("", "- Work"));
    assert_eq!(field("a\tb\nc"), "a b c");
    assert_eq!(
        row("04:05:06", "playing", "Artist", "Title"),
        "04:05:06    playing         Artist                          Title"
    );
}
