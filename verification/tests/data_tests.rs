use pnwfrc_live::data::{
    get_current_stream, get_current_stream_for_year, get_day_stream, get_day_stream_for_year,
    get_stream_on_date, EventStream,
};

#[test]
fn test_get_current_stream_valid_event() {
    // Test with a valid event code
    let result = get_current_stream("blk", false);
    // May be None if all stream dates are in the future; it must not panic.
    let _ = result;
}

#[test]
fn test_get_current_stream_invalid_event() {
    let result = get_current_stream("invalid", false);
    assert!(result.is_none());
}

#[test]
fn test_get_current_stream_for_year_valid() {
    let result = get_current_stream_for_year("2026", "blk", false);
    // May be None if all stream dates are in the future; it must not panic.
    let _ = result;
}

#[test]
fn test_get_current_stream_for_year_invalid_year() {
    let result = get_current_stream_for_year("2025", "blk", false);
    assert!(result.is_none());
}

#[test]
fn test_get_day_stream_valid() {
    let result = get_day_stream("blk", 0, false);
    assert!(result.is_some());
}

#[test]
fn test_get_day_stream_invalid_day() {
    let result = get_day_stream("blk", 999, false);
    assert!(result.is_none());
}

#[test]
fn test_get_day_stream_for_year_valid() {
    let result = get_day_stream_for_year("2026", "blk", 0, false);
    assert!(result.is_some());
}

#[test]
fn test_alternate_stream_available() {
    let result = get_day_stream("blk", 0, true);
    assert!(result.is_some());
}

#[test]
fn test_event_stream_struct_public() {
    let stream = EventStream {
        date: "2026-03-14",
        stream: "https://example.com",
        alt_stream: Some("https://alt.example.com"),
    };
    assert_eq!(stream.date, "2026-03-14");
    assert_eq!(stream.stream, "https://example.com");
    assert_eq!(stream.alt_stream, Some("https://alt.example.com"));
}

#[test]
fn day_stream_for_year_gives_exact_links() {
    assert_eq!(
        get_day_stream_for_year("2026", "blk", 0, false),
        Some("https://www.youtube.com/watch?v=tqImKZrD6B0")
    );
    assert_eq!(
        get_day_stream_for_year("2026", "blk", 0, true),
        Some("https://www.youtube.com/watch?v=21-aqNWtxko")
    );
    assert_eq!(
        get_day_stream_for_year("2026", "aub", 1, false),
        Some("https://www.twitch.tv/firstinspires16")
    );
    assert_eq!(
        get_day_stream_for_year("2026", "cas", 1, true),
        Some("https://www.twitch.tv/firstinspires14")
    );
}

#[test]
fn day_stream_for_year_refuses_unknown_keys_and_days() {
    assert_eq!(get_day_stream_for_year("2025", "blk", 0, false), None);
    assert_eq!(get_day_stream_for_year("2026", "xyz", 0, false), None);
    assert_eq!(get_day_stream_for_year("2026", "blk", 2, false), None);
    assert_eq!(get_day_stream_for_year("2026", "blk", usize::MAX, true), None);
    // Lookups take the code as given: no case folding here.
    assert_eq!(get_day_stream_for_year("2026", "BLK", 0, false), None);
    assert_eq!(get_day_stream_for_year("", "", 0, false), None);
}

#[test]
fn stream_on_date_before_the_event_is_none() {
    assert_eq!(get_stream_on_date("2026", "osf", "2026-01-01", false), None);
    assert_eq!(get_stream_on_date("2026", "osf", "2026-03-05", true), None);
    assert_eq!(get_stream_on_date("2026", "blk", "2026-03-06", false), None);
    // From the first day's date on there is a current stream.
    assert_eq!(
        get_stream_on_date("2026", "blk", "2026-03-07", false),
        Some("https://www.youtube.com/watch?v=tqImKZrD6B0")
    );
}

#[test]
fn stream_on_date_follows_the_days() {
    assert_eq!(
        get_stream_on_date("2026", "osf", "2026-03-06", false),
        Some("https://www.youtube.com/watch?v=VPWDvwxLED0")
    );
    assert_eq!(
        get_stream_on_date("2026", "osf", "2026-03-07", false),
        Some("https://www.youtube.com/watch?v=h-qcbsZw-xs")
    );
    assert_eq!(
        get_stream_on_date("2026", "osf", "2026-03-07", true),
        Some("https://www.youtube.com/watch?v=XWAhpt1cxxU")
    );
}

#[test]
fn stream_on_date_after_the_event_is_the_last_day() {
    assert_eq!(
        get_stream_on_date("2026", "sam", "2026-11-19", false),
        Some("https://www.youtube.com/watch?v=xgwgHLj5YZQ")
    );
    // A date text longer than ten characters compares as text does.
    assert_eq!(
        get_stream_on_date("2026", "sam", "2026-03-21T09:00", false),
        Some("https://www.youtube.com/watch?v=dZ_T_LNCg_U")
    );
}

#[test]
fn stream_on_date_refuses_unknown_keys() {
    assert_eq!(get_stream_on_date("2025", "sam", "2026-03-21", false), None);
    assert_eq!(get_stream_on_date("2026", "nope", "2026-03-21", false), None);
}

#[test]
fn current_stream_is_one_of_the_day_streams() {
    for event in ["blk", "osf", "gpk", "wil", "sam", "sun", "cas", "aub"] {
        for alt in [false, true] {
            let current = get_current_stream_for_year("2026", event, alt);
            if current.is_some() {
                let days: Vec<Option<&str>> =
                    (0..2).map(|d| get_day_stream_for_year("2026", event, d, alt)).collect();
                assert!(days.contains(&current));
            }
        }
    }
}

#[test]
fn alternate_falls_back_to_main_stream() {
    let day = EventStream { date: "2026-01-01", stream: "main", alt_stream: None };
    assert_eq!(day.link(true), "main");
    assert_eq!(day.link(false), "main");
    let day = EventStream { date: "2026-01-01", stream: "main", alt_stream: Some("other") };
    assert_eq!(day.link(true), "other");
    assert_eq!(day.link(false), "main");
}

#[test]
fn main_and_alternate_current_streams_come_from_the_same_day() {
    for today in ["2026-03-05", "2026-03-14", "2026-03-15", "2026-12-31"] {
        for event in ["gpk", "wil"] {
            let main = get_stream_on_date("2026", event, today, false);
            let alt = get_stream_on_date("2026", event, today, true);
            assert_eq!(main.is_some(), alt.is_some());
            if main.is_some() {
                let day = (0..2)
                    .find(|&d| get_day_stream_for_year("2026", event, d, false) == main)
                    .unwrap();
                assert_eq!(get_day_stream_for_year("2026", event, day, true), alt);
            }
        }
    }
}
