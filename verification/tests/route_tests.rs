use pnwfrc_live::data::{get_current_stream, get_day_stream};
use pnwfrc_live::routes::{
    current_route_on_date, current_stream, current_stream_alt, day_route_for_year, day_stream,
    day_stream_alt,
};
use pnwfrc_live::schedule::all_streams;

// A route answers `Some(link)` where the web server redirects (303 See Other, `Location: link`)
// and `None` where it answers 404 Not Found.

#[test]
fn test_current_stream_invalid_event() {
    assert_eq!(current_stream("invalid"), None);
}

#[test]
fn test_current_stream_valid_event() {
    let response = current_stream("blk");
    // Either a redirect (a current stream exists) or not found (all dates in the future).
    assert!(response.is_some() || response.is_none());
}

#[test]
fn test_current_stream_case_insensitive() {
    let response1 = current_stream("blk");
    let response2 = current_stream("BLK");
    let response3 = current_stream("Blk");
    assert_eq!(response1.is_some(), response2.is_some());
    assert_eq!(response1.is_some(), response3.is_some());
}

#[test]
fn test_current_stream_alt_invalid_event() {
    assert_eq!(current_stream_alt("invalid"), None);
}

#[test]
fn test_current_stream_alt_valid_event() {
    let response = current_stream_alt("blk");
    assert!(response.is_some() || response.is_none());
}

#[test]
fn test_current_stream_alt_fallback() {
    let response = current_stream_alt("osf");
    assert!(response.is_some() || response.is_none());
}

#[test]
fn test_current_stream_alt_case_insensitive() {
    let response1 = current_stream_alt("blk");
    let response2 = current_stream_alt("BLK");
    let response3 = current_stream_alt("Blk");
    assert_eq!(response1.is_some(), response2.is_some());
    assert_eq!(response1.is_some(), response3.is_some());
}

#[test]
fn every_url_is_valid() {
    for season in all_streams() {
        for event in season.events.iter() {
            for (day, stream) in event.streams.iter().enumerate() {
                url::Url::parse(stream.stream).expect(&format!(
                    "event '{}' day {} should have a valid stream URL",
                    event.event, day
                ));
                if let Some(alt) = stream.alt_stream {
                    url::Url::parse(alt).expect(&format!(
                        "event '{}' day {} should have a valid alt_stream URL",
                        event.event, day
                    ));
                }
            }
        }
    }
}

#[test]
fn all_dates_are_valid_format() {
    for season in all_streams() {
        for event in season.events.iter() {
            for (day, stream) in event.streams.iter().enumerate() {
                assert_eq!(
                    stream.date.len(),
                    10,
                    "event '{}' day {} date should be YYYY-MM-DD format",
                    event.event,
                    day
                );
                assert!(
                    stream.date.chars().nth(4) == Some('-') && stream.date.chars().nth(7) == Some('-'),
                    "event '{}' day {} date should be YYYY-MM-DD format",
                    event.event,
                    day
                );
            }
        }
    }
}

#[test]
fn dates_are_sorted() {
    for season in all_streams() {
        for event in season.events.iter() {
            let schedule = &event.streams;
            for i in 1..schedule.len() {
                assert!(
                    schedule[i - 1].date <= schedule[i].date,
                    "event '{}' dates should be sorted: {} should come before {}",
                    event.event,
                    schedule[i - 1].date,
                    schedule[i].date
                );
            }
        }
    }
}

#[test]
fn get_day_stream_returns_valid_urls() {
    for season in all_streams() {
        for event in season.events.iter() {
            for day in 0..event.streams.len() {
                let stream = get_day_stream(event.event, day, false);
                assert!(stream.is_some(), "event '{}' day {} should return a stream", event.event, day);
                let alt_stream = get_day_stream(event.event, day, true);
                assert!(
                    alt_stream.is_some(),
                    "event '{}' day {} should return an alt stream",
                    event.event,
                    day
                );
            }
        }
    }
}

#[test]
fn get_day_stream_returns_none_for_invalid() {
    assert!(get_day_stream("invalid", 0, false).is_none());
    assert!(get_day_stream("blk", 999, false).is_none());
}

#[test]
fn get_current_stream_returns_some_for_valid_events() {
    for season in all_streams() {
        for event in season.events.iter() {
            // Some or None depending on the date, but no panic.
            let _ = get_current_stream(event.event, false);
            let _ = get_current_stream(event.event, true);
        }
    }
}

#[test]
fn test_day_stream_valid_day() {
    let response = day_stream("blk", "1");
    assert!(response.is_some());
}

#[test]
fn test_day_stream_invalid_event() {
    assert_eq!(day_stream("invalid", "1"), None);
}

#[test]
fn test_day_stream_day_less_than_1() {
    assert_eq!(day_stream("blk", "0"), None);
}

#[test]
fn test_day_stream_day_exceeds_count() {
    assert_eq!(day_stream("blk", "999"), None);
}

#[test]
fn test_day_stream_non_numeric_day() {
    assert_eq!(day_stream("blk", "abc"), None);
}

#[test]
fn test_day_stream_case_insensitive_event() {
    let response1 = day_stream("blk", "1");
    let response2 = day_stream("BLK", "1");
    let response3 = day_stream("Blk", "1");
    assert_eq!(response1.is_some(), response2.is_some());
    assert_eq!(response1.is_some(), response3.is_some());
    assert_eq!(response1, response2);
    assert_eq!(response1, response3);
}

#[test]
fn test_day_stream_1_indexed() {
    let response = day_stream("blk", "1");
    assert!(response.is_some());
    let expected_url = get_day_stream("blk", 0, false);
    assert!(expected_url.is_some());
    assert_eq!(response, expected_url);
}

#[test]
fn test_day_stream_alt_with_alt_available() {
    let response = day_stream_alt("blk", "1");
    assert!(response.is_some());
}

#[test]
fn test_day_stream_alt_invalid_event() {
    assert_eq!(day_stream_alt("invalid", "1"), None);
}

#[test]
fn test_day_stream_alt_day_less_than_1() {
    assert_eq!(day_stream_alt("blk", "0"), None);
}

#[test]
fn test_day_stream_alt_day_exceeds_count() {
    assert_eq!(day_stream_alt("blk", "999"), None);
}

#[test]
fn test_day_stream_alt_non_numeric_day() {
    assert_eq!(day_stream_alt("blk", "abc"), None);
}

#[test]
fn test_day_stream_alt_case_insensitive_event() {
    let response1 = day_stream_alt("blk", "1");
    let response2 = day_stream_alt("BLK", "1");
    let response3 = day_stream_alt("Blk", "1");
    assert_eq!(response1.is_some(), response2.is_some());
    assert_eq!(response1.is_some(), response3.is_some());
    assert_eq!(response1, response2);
    assert_eq!(response1, response3);
}

#[test]
fn day_route_counts_days_from_one() {
    assert_eq!(
        day_route_for_year("2026", "gpk", "1", false),
        Some("https://www.youtube.com/watch?v=XcQ8EndxcuM")
    );
    assert_eq!(
        day_route_for_year("2026", "gpk", "2", true),
        Some("https://www.youtube.com/watch?v=KHvKahKD1OI")
    );
    assert_eq!(day_route_for_year("2026", "gpk", "3", false), None);
    assert_eq!(day_route_for_year("2025", "gpk", "1", false), None);
}

#[test]
fn day_route_reads_the_day_as_std_parses_usize() {
    let first = Some("https://www.youtube.com/watch?v=tY1iFSJ1U3k");
    assert_eq!(day_route_for_year("2026", "wil", "+1", false), first);
    assert_eq!(day_route_for_year("2026", "wil", "001", false), first);
    assert_eq!(day_route_for_year("2026", "wil", "-1", false), None);
    assert_eq!(day_route_for_year("2026", "wil", "+", false), None);
    assert_eq!(day_route_for_year("2026", "wil", "", false), None);
    assert_eq!(day_route_for_year("2026", "wil", " 1", false), None);
    assert_eq!(day_route_for_year("2026", "wil", "1.0", false), None);
    assert_eq!(day_route_for_year("2026", "wil", "99999999999999999999999", false), None);
}

#[test]
fn day_route_lowercases_the_event_code() {
    let first = Some("https://www.youtube.com/watch?v=Y538-wB-blE");
    assert_eq!(day_route_for_year("2026", "SUN", "1", false), first);
    assert_eq!(day_route_for_year("2026", "sUn", "1", false), first);
    assert_eq!(day_route_for_year("2026", "sun", "1", false), first);
}

#[test]
fn current_route_on_date_ignores_the_case_of_the_code() {
    let second_day = Some("https://www.youtube.com/watch?v=2CFKqm7IHfA");
    for code in ["blk", "BLK", "Blk", "bLk"] {
        assert_eq!(current_route_on_date("2026", code, "2026-03-08", false), second_day);
        assert_eq!(current_route_on_date("2026", code, "2026-03-01", false), None);
        assert_eq!(
            current_route_on_date("2026", code, "2026-03-07", true),
            Some("https://www.youtube.com/watch?v=21-aqNWtxko")
        );
    }
    assert_eq!(current_route_on_date("2025", "blk", "2025-03-08", false), None);
    assert_eq!(current_route_on_date("2026", "blkx", "2026-03-08", false), None);
}

#[test]
fn day_routes_agree_on_a_code_and_its_lowercase_form() {
    for code in ["BLK", "Blk", "OsF", "AUB"] {
        let lower = code.to_lowercase();
        for day in ["1", "2", "3", "0", "x"] {
            for alt in [false, true] {
                assert_eq!(
                    day_route_for_year("2026", code, day, alt),
                    day_route_for_year("2026", &lower, day, alt)
                );
            }
        }
    }
}

#[test]
fn main_and_alternate_day_routes_find_the_same_day() {
    for day in ["1", "2", "3", "0", "-1", "two"] {
        let main = day_route_for_year("2026", "cas", day, false);
        let alt = day_route_for_year("2026", "cas", day, true);
        assert_eq!(main.is_some(), alt.is_some());
    }
    assert_eq!(
        day_route_for_year("2026", "blk", "2", false),
        Some("https://www.youtube.com/watch?v=2CFKqm7IHfA")
    );
    assert_eq!(
        day_route_for_year("2026", "blk", "2", true),
        Some("https://www.youtube.com/watch?v=mAsQeD8regk")
    );
}
