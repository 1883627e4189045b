//! The broadcast schedule: for each season, the events of that season, and for each event the
//! streams of its days in order.

use vstd::prelude::*;

use crate::text::{is_digit, lemma_text_le_first_difference, lemma_text_le_reflexive, text_le};

verus! {

/// One day of an event: its date, written `YYYY-MM-DD`, the link of its main stream, and the link
/// of an alternate stream where there is one.
pub struct EventStream {
    pub date: &'static str,
    pub stream: &'static str,
    pub alt_stream: Option<&'static str>,
}

impl EventStream {
    /// The link a viewer is sent to: the alternate stream when one is asked for and the day has
    /// one, the main stream otherwise.
    pub open spec fn link_for(self, alt: bool) -> &'static str {
        if alt {
            match self.alt_stream {
                Some(a) => a,
                None => self.stream,
            }
        } else {
            self.stream
        }
    }

    /// The link a viewer is sent to for this day (see `link_for`).
    pub fn link(&self, alt: bool) -> (link: &'static str)
        ensures
            link == self.link_for(alt),
    {
        if alt {
            self.alt_stream.unwrap_or(self.stream)
        } else {
            self.stream
        }
    }
}

/// The streams of one event, keyed by the event's code (such as `blk`), one per day in order.
pub struct EventSchedule {
    pub event: &'static str,
    pub streams: Vec<EventStream>,
}

/// The events of one season, keyed by the season's year (such as `2026`).
pub struct YearSchedule {
    pub year: &'static str,
    pub events: Vec<EventSchedule>,
}

/// An event's code and its streams, as values.
pub type EventEntry = (Seq<char>, Seq<EventStream>);

/// A season's year and its events, as values.
pub type YearEntry = (Seq<char>, Seq<EventEntry>);

pub open spec fn event_entry(e: EventSchedule) -> EventEntry {
    (e.event@, e.streams@)
}

pub open spec fn year_entry(y: YearSchedule) -> YearEntry {
    (y.year@, y.events@.map_values(|e: EventSchedule| event_entry(e)))
}

/// The value of a schedule table: each season with its events.
pub open spec fn table_entries(t: Seq<YearSchedule>) -> Seq<YearEntry> {
    t.map_values(|y: YearSchedule| year_entry(y))
}

/// The schedule that the library serves.
#[verifier::opaque]
pub open spec fn stream_table() -> Seq<YearEntry> {
    seq![
        ("2026"@, seq![
            ("blk"@, seq![
                EventStream {
                    date: "2026-03-07",
                    stream: "https://www.youtube.com/watch?v=tqImKZrD6B0",
                    alt_stream: Some("https://www.youtube.com/watch?v=21-aqNWtxko"),
                },
                EventStream {
                    date: "2026-03-08",
                    stream: "https://www.youtube.com/watch?v=2CFKqm7IHfA",
                    alt_stream: Some("https://www.youtube.com/watch?v=mAsQeD8regk"),
                },
            ]),
            ("osf"@, seq![
                EventStream {
                    date: "2026-03-06",
                    stream: "https://www.youtube.com/watch?v=VPWDvwxLED0",
                    alt_stream: Some("https://www.youtube.com/watch?v=x-4VAVyb4as"),
                },
                EventStream {
                    date: "2026-03-07",
                    stream: "https://www.youtube.com/watch?v=h-qcbsZw-xs",
                    alt_stream: Some("https://www.youtube.com/watch?v=XWAhpt1cxxU"),
                },
            ]),
            ("gpk"@, seq![
                EventStream {
                    date: "2026-03-14",
                    stream: "https://www.youtube.com/watch?v=XcQ8EndxcuM",
                    alt_stream: Some("https://www.youtube.com/watch?v=bURRb2HrvXA"),
                },
                EventStream {
                    date: "2026-03-15",
                    stream: "https://www.youtube.com/watch?v=xU3Nbp_vpWE",
                    alt_stream: Some("https://www.youtube.com/watch?v=KHvKahKD1OI"),
                },
            ]),
            ("wil"@, seq![
                EventStream {
                    date: "2026-03-14",
                    stream: "https://www.youtube.com/watch?v=tY1iFSJ1U3k",
                    alt_stream: Some("https://www.youtube.com/watch?v=qFn0ZgF3KTo"),
                },
                EventStream {
                    date: "2026-03-15",
                    stream: "https://www.youtube.com/watch?v=K3Ftdmvmw1E",
                    alt_stream: Some("https://www.youtube.com/watch?v=XGLQ_8yjcQ0"),
                },
            ]),
            ("sam"@, seq![
                EventStream {
                    date: "2026-03-21",
                    stream: "https://www.youtube.com/watch?v=dZ_T_LNCg_U",
                    alt_stream: Some("https://www.youtube.com/watch?v=5GpOR-eBbNg"),
                },
                EventStream {
                    date: "2026-03-22",
                    stream: "https://www.youtube.com/watch?v=xgwgHLj5YZQ",
                    alt_stream: Some("https://www.youtube.com/watch?v=eRglKjvZZCo"),
                },
            ]),
            ("sun"@, seq![
                EventStream {
                    date: "2026-03-20",
                    stream: "https://www.youtube.com/watch?v=Y538-wB-blE",
                    alt_stream: Some("https://www.youtube.com/watch?v=stokCPqL9Xo"),
                },
                EventStream {
                    date: "2026-03-21",
                    stream: "https://www.youtube.com/watch?v=PH5qDFB1xq0",
                    alt_stream: Some("https://www.youtube.com/watch?v=DvKmaFE-2Kc"),
                },
            ]),
            ("cas"@, seq![
                EventStream {
                    date: "2026-03-27",
                    stream: "https://www.youtube.com/watch?v=zq8HiQrru4c",
                    alt_stream: Some("https://www.youtube.com/watch?v=FrwOFI5KcnI"),
                },
                EventStream {
                    date: "2026-03-28",
                    stream: "https://www.twitch.tv/firstinspires15",
                    alt_stream: Some("https://www.twitch.tv/firstinspires14"),
                },
            ]),
            ("aub"@, seq![
                EventStream {
                    date: "2026-03-28",
                    stream: "https://www.twitch.tv/firstinspires16",
                    alt_stream: Some("https://www.twitch.tv/firstinspires17"),
                },
                EventStream {
                    date: "2026-03-29",
                    stream: "https://www.twitch.tv/firstinspires16",
                    alt_stream: Some("https://www.twitch.tv/firstinspires17"),
                },
            ]),
        ]),
    ]
}

/// The schedule that the library serves, built as values that the lookups walk.
pub fn all_streams() -> (table: Vec<YearSchedule>)
    ensures
        table_entries(table@) == stream_table(),
{
    let blk = EventSchedule {
        event: "blk",
        streams: vec![
            EventStream {
                date: "2026-03-07",
                stream: "https://www.youtube.com/watch?v=tqImKZrD6B0",
                alt_stream: Some("https://www.youtube.com/watch?v=21-aqNWtxko"),
            },
            EventStream {
                date: "2026-03-08",
                stream: "https://www.youtube.com/watch?v=2CFKqm7IHfA",
                alt_stream: Some("https://www.youtube.com/watch?v=mAsQeD8regk"),
            },
        ],
    };
    let osf = EventSchedule {
        event: "osf",
        streams: vec![
            EventStream {
                date: "2026-03-06",
                stream: "https://www.youtube.com/watch?v=VPWDvwxLED0",
                alt_stream: Some("https://www.youtube.com/watch?v=x-4VAVyb4as"),
            },
            EventStream {
                date: "2026-03-07",
                stream: "https://www.youtube.com/watch?v=h-qcbsZw-xs",
                alt_stream: Some("https://www.youtube.com/watch?v=XWAhpt1cxxU"),
            },
        ],
    };
    let gpk = EventSchedule {
        event: "gpk",
        streams: vec![
            EventStream {
                date: "2026-03-14",
                stream: "https://www.youtube.com/watch?v=XcQ8EndxcuM",
                alt_stream: Some("https://www.youtube.com/watch?v=bURRb2HrvXA"),
            },
            EventStream {
                date: "2026-03-15",
                stream: "https://www.youtube.com/watch?v=xU3Nbp_vpWE",
                alt_stream: Some("https://www.youtube.com/watch?v=KHvKahKD1OI"),
            },
        ],
    };
    let wil = EventSchedule {
        event: "wil",
        streams: vec![
            EventStream {
                date: "2026-03-14",
                stream: "https://www.youtube.com/watch?v=tY1iFSJ1U3k",
                alt_stream: Some("https://www.youtube.com/watch?v=qFn0ZgF3KTo"),
            },
            EventStream {
                date: "2026-03-15",
                stream: "https://www.youtube.com/watch?v=K3Ftdmvmw1E",
                alt_stream: Some("https://www.youtube.com/watch?v=XGLQ_8yjcQ0"),
            },
        ],
    };
    let sam = EventSchedule {
        event: "sam",
        streams: vec![
            EventStream {
                date: "2026-03-21",
                stream: "https://www.youtube.com/watch?v=dZ_T_LNCg_U",
                alt_stream: Some("https://www.youtube.com/watch?v=5GpOR-eBbNg"),
            },
            EventStream {
                date: "2026-03-22",
                stream: "https://www.youtube.com/watch?v=xgwgHLj5YZQ",
                alt_stream: Some("https://www.youtube.com/watch?v=eRglKjvZZCo"),
            },
        ],
    };
    let sun = EventSchedule {
        event: "sun",
        streams: vec![
            EventStream {
                date: "2026-03-20",
                stream: "https://www.youtube.com/watch?v=Y538-wB-blE",
                alt_stream: Some("https://www.youtube.com/watch?v=stokCPqL9Xo"),
            },
            EventStream {
                date: "2026-03-21",
                stream: "https://www.youtube.com/watch?v=PH5qDFB1xq0",
                alt_stream: Some("https://www.youtube.com/watch?v=DvKmaFE-2Kc"),
            },
        ],
    };
    let cas = EventSchedule {
        event: "cas",
        streams: vec![
            EventStream {
                date: "2026-03-27",
                stream: "https://www.youtube.com/watch?v=zq8HiQrru4c",
                alt_stream: Some("https://www.youtube.com/watch?v=FrwOFI5KcnI"),
            },
            EventStream {
                date: "2026-03-28",
                stream: "https://www.twitch.tv/firstinspires15",
                alt_stream: Some("https://www.twitch.tv/firstinspires14"),
            },
        ],
    };
    let aub = EventSchedule {
        event: "aub",
        streams: vec![
            EventStream {
                date: "2026-03-28",
                stream: "https://www.twitch.tv/firstinspires16",
                alt_stream: Some("https://www.twitch.tv/firstinspires17"),
            },
            EventStream {
                date: "2026-03-29",
                stream: "https://www.twitch.tv/firstinspires16",
                alt_stream: Some("https://www.twitch.tv/firstinspires17"),
            },
        ],
    };
    let season = YearSchedule {
        year: "2026",
        events: vec![blk, osf, gpk, wil, sam, sun, cas, aub],
    };
    let table = vec![season];
    proof {
        reveal(stream_table);
        assert(table_entries(table@) =~~= stream_table());
    }
    table
}

/// A date written `YYYY-MM-DD`: ten characters, dashes at the fifth and eighth, digits elsewhere.
pub open spec fn is_iso_date(d: Seq<char>) -> bool {
    &&& d.len() == 10
    &&& is_digit(d[0]) && is_digit(d[1]) && is_digit(d[2]) && is_digit(d[3])
    &&& d[4] == '-'
    &&& is_digit(d[5]) && is_digit(d[6])
    &&& d[7] == '-'
    &&& is_digit(d[8]) && is_digit(d[9])
}

/// An event's days: at least one, each dated `YYYY-MM-DD`, in order of date.
pub open spec fn schedule_well_formed(s: Seq<EventStream>) -> bool {
    &&& s.len() > 0
    &&& forall|i: int| 0 <= i < s.len() ==> is_iso_date(#[trigger] s[i].date@)
    &&& forall|i: int, j: int|
        0 <= i <= j < s.len() ==> text_le(#[trigger] s[i].date@, #[trigger] s[j].date@)
}

/// No key occurs twice among the entries.
pub open spec fn keys_distinct<V>(entries: Seq<(Seq<char>, V)>) -> bool {
    forall|i: int, j: int|
        0 <= i < j < entries.len() ==> #[trigger] entries[i].0 != #[trigger] entries[j].0
}

/// A season table in which every key is found at one place only and every event's days are
/// well formed.
pub open spec fn table_well_formed(t: Seq<YearEntry>) -> bool {
    &&& keys_distinct(t)
    &&& forall|y: int| 0 <= y < t.len() ==> keys_distinct(#[trigger] t[y].1)
    &&& forall|y: int, e: int|
        0 <= y < t.len() && 0 <= e < t[y].1.len() ==> schedule_well_formed(#[trigger] t[y].1[e].1)
}

proof fn lemma_two_days(s: Seq<EventStream>)
    requires
        s.len() == 2,
        is_iso_date(s[0].date@),
        is_iso_date(s[1].date@),
        forall|i: int| 0 <= i < 9 ==> s[0].date@[i] == s[1].date@[i],
        (s[0].date@[9] as u32) < (s[1].date@[9] as u32),
    ensures
        schedule_well_formed(s),
{
    lemma_text_le_reflexive(s[0].date@);
    lemma_text_le_reflexive(s[1].date@);
    lemma_text_le_first_difference(s[0].date@, s[1].date@, 9);
}

/// The schedule that the library serves is well formed: each season and each event of a season
/// is found under one key only, every date is written `YYYY-MM-DD`, and each event's days come
/// in order of date.
pub proof fn lemma_stream_table_well_formed()
    ensures
        table_well_formed(stream_table()),
{
    reveal(stream_table);
    let t = stream_table();
    reveal_strlit("2026-03-06");
    reveal_strlit("2026-03-07");
    reveal_strlit("2026-03-08");
    reveal_strlit("2026-03-14");
    reveal_strlit("2026-03-15");
    reveal_strlit("2026-03-20");
    reveal_strlit("2026-03-21");
    reveal_strlit("2026-03-22");
    reveal_strlit("2026-03-27");
    reveal_strlit("2026-03-28");
    reveal_strlit("2026-03-29");
    reveal_strlit("blk");
    reveal_strlit("osf");
    reveal_strlit("gpk");
    reveal_strlit("wil");
    reveal_strlit("sam");
    reveal_strlit("sun");
    reveal_strlit("cas");
    reveal_strlit("aub");
    let events = t[0].1;
    assert forall|i: int, j: int| 0 <= i < j < events.len() implies #[trigger] events[i].0
        != #[trigger] events[j].0 by {
        assert(i == 0 || i == 1 || i == 2 || i == 3 || i == 4 || i == 5 || i == 6);
        assert(j == 1 || j == 2 || j == 3 || j == 4 || j == 5 || j == 6 || j == 7);
        assert(events[i].0[0] != events[j].0[0] || events[i].0[1] != events[j].0[1]);
    }
    lemma_two_days(events[0].1);
    lemma_two_days(events[1].1);
    lemma_two_days(events[2].1);
    lemma_two_days(events[3].1);
    lemma_two_days(events[4].1);
    lemma_two_days(events[5].1);
    lemma_two_days(events[6].1);
    lemma_two_days(events[7].1);
}

} // verus!
