//! Looking up a stream: the stream of a given day of an event, and the stream of the day that is
//! under way.

use vstd::prelude::*;

use crate::clock::{date_from_1969, is_date_text, is_year_text, los_angeles_now, year_from_1969};
use crate::schedule::{
    all_streams, event_entry, keys_distinct, lemma_stream_table_well_formed, schedule_well_formed,
    stream_table, table_entries, EventSchedule, YearEntry, YearSchedule,
};
pub use crate::schedule::EventStream;
use crate::text::{lemma_text_le_transitive, same_text, text_at_most, text_le};

verus! {

/// The value stored under `key`: that of the first entry with this key, if any.
pub open spec fn find_entry<V>(entries: Seq<(Seq<char>, V)>, key: Seq<char>) -> Option<V>
    decreases entries.len(),
{
    if entries.len() == 0 {
        None
    } else if entries[0].0 == key {
        Some(entries[0].1)
    } else {
        find_entry(entries.drop_first(), key)
    }
}

/// The days of `event` in the season `year` of the table `t`.
pub open spec fn schedule_of(t: Seq<YearEntry>, year: Seq<char>, event: Seq<char>) -> Option<
    Seq<EventStream>,
> {
    match find_entry(t, year) {
        Some(events) => find_entry(events, event),
        None => None,
    }
}

/// The link for day `day` (counted from 0) of `event` in the season `year`: none when the season,
/// the event or the day is not in the table.
pub open spec fn day_stream_in(
    t: Seq<YearEntry>,
    year: Seq<char>,
    event: Seq<char>,
    day: int,
    alt: bool,
) -> Option<&'static str> {
    match schedule_of(t, year, event) {
        Some(s) => if 0 <= day < s.len() {
            Some(s[day].link_for(alt))
        } else {
            None
        },
        None => None,
    }
}

/// The last of the days whose date comes no later than `today`.
pub open spec fn latest_started(s: Seq<EventStream>, today: Seq<char>) -> Option<int>
    decreases s.len(),
{
    if s.len() == 0 {
        None
    } else if text_le(s.last().date@, today) {
        Some(s.len() - 1)
    } else {
        latest_started(s.drop_last(), today)
    }
}

/// The link for the day of `event` in the season `year` that is current on `today`: the last day
/// whose date is no later than `today`. None before the first day has begun, and none when the
/// season or the event is not scheduled.
pub open spec fn current_stream_in(
    t: Seq<YearEntry>,
    year: Seq<char>,
    event: Seq<char>,
    today: Seq<char>,
    alt: bool,
) -> Option<&'static str> {
    match schedule_of(t, year, event) {
        Some(s) => match latest_started(s, today) {
            Some(i) => Some(s[i].link_for(alt)),
            None => None,
        },
        None => None,
    }
}

/// In entries whose keys are distinct, each entry's value is found under its key.
pub proof fn lemma_find_entry_distinct<V>(entries: Seq<(Seq<char>, V)>, i: int)
    requires
        keys_distinct(entries),
        0 <= i < entries.len(),
    ensures
        find_entry(entries, entries[i].0) == Some(entries[i].1),
    decreases i,
{
    if i > 0 {
        let rest = entries.drop_first();
        assert(entries[0].0 != entries[i].0);
        assert(keys_distinct(rest)) by {
            assert forall|a: int, b: int| 0 <= a < b < rest.len() implies #[trigger] rest[a].0
                != #[trigger] rest[b].0 by {
                assert(entries[a + 1].0 != entries[b + 1].0);
            }
        }
        lemma_find_entry_distinct(rest, i - 1);
    }
}

/// Every day of every scheduled event has a link, main and alternate alike: looking up the
/// season, the event and the day gives that day's link.
pub proof fn lemma_every_scheduled_day_has_a_link(y: int, e: int, d: int, alt: bool)
    requires
        0 <= y < stream_table().len(),
        0 <= e < stream_table()[y].1.len(),
        0 <= d < stream_table()[y].1[e].1.len(),
    ensures
        day_stream_in(stream_table(), stream_table()[y].0, stream_table()[y].1[e].0, d, alt)
            == Some(stream_table()[y].1[e].1[d].link_for(alt)),
{
    let t = stream_table();
    lemma_stream_table_well_formed();
    lemma_find_entry_distinct(t, y);
    assert(keys_distinct(t[y].1));
    lemma_find_entry_distinct(t[y].1, e);
}

/// Asking for the alternate stream succeeds exactly where asking for the main one does, and
/// gives the main stream for a day that has no alternate.
pub proof fn lemma_alt_falls_back(t: Seq<YearEntry>, year: Seq<char>, event: Seq<char>, day: int)
    ensures
        day_stream_in(t, year, event, day, true) is Some <==> day_stream_in(
            t,
            year,
            event,
            day,
            false,
        ) is Some,
        (schedule_of(t, year, event) matches Some(s) && 0 <= day < s.len() && s[day].alt_stream
            is None) ==> day_stream_in(t, year, event, day, true) == day_stream_in(
            t,
            year,
            event,
            day,
            false,
        ),
{
}

/// The last day that has begun is a day of the event that has begun, and no later day has.
pub proof fn lemma_latest_started(s: Seq<EventStream>, today: Seq<char>)
    ensures
        match latest_started(s, today) {
            Some(i) => {
                &&& 0 <= i < s.len()
                &&& text_le(s[i].date@, today)
                &&& forall|j: int| i < j < s.len() ==> !text_le(#[trigger] s[j].date@, today)
            },
            None => forall|j: int| 0 <= j < s.len() ==> !text_le(#[trigger] s[j].date@, today),
        },
    decreases s.len(),
{
    if s.len() > 0 && !text_le(s.last().date@, today) {
        let rest = s.drop_last();
        lemma_latest_started(rest, today);
        assert(latest_started(s, today) == latest_started(rest, today));
        match latest_started(rest, today) {
            Some(i) => {
                assert(rest[i] == s[i]);
                assert forall|j: int| i < j < s.len() implies !text_le(
                    #[trigger] s[j].date@,
                    today,
                ) by {
                    if j < s.len() - 1 {
                        assert(rest[j] == s[j]);
                        assert(!text_le(rest[j].date@, today));
                    } else {
                        assert(s[j] == s.last());
                    }
                }
            },
            None => {
                assert forall|j: int| 0 <= j < s.len() implies !text_le(
                    #[trigger] s[j].date@,
                    today,
                ) by {
                    if j < s.len() - 1 {
                        assert(rest[j] == s[j]);
                        assert(!text_le(rest[j].date@, today));
                    } else {
                        assert(s[j] == s.last());
                    }
                }
            },
        }
    }
}

/// The current stream of an event is the stream of one of its days; there is one exactly when
/// the event is scheduled and one of its days has begun by `today`.
pub proof fn lemma_current_stream_is_a_day_stream(
    t: Seq<YearEntry>,
    year: Seq<char>,
    event: Seq<char>,
    today: Seq<char>,
    alt: bool,
)
    ensures
        current_stream_in(t, year, event, today, alt) is Some <==> (schedule_of(t, year, event)
            matches Some(s) && exists|j: int|
            0 <= j < s.len() && text_le(#[trigger] s[j].date@, today)),
        current_stream_in(t, year, event, today, alt) is Some ==> exists|d: int|
            0 <= d && #[trigger] day_stream_in(t, year, event, d, alt) == current_stream_in(
                t,
                year,
                event,
                today,
                alt,
            ),
{
    if let Some(s) = schedule_of(t, year, event) {
        lemma_latest_started(s, today);
        if let Some(i) = latest_started(s, today) {
            assert(day_stream_in(t, year, event, i, alt) == current_stream_in(
                t,
                year,
                event,
                today,
                alt,
            ));
        }
    }
}

/// The main and the alternate current stream are asked for in the same cases and come from the
/// same day: the last day that has begun, whose main stream and whose alternate (or, lacking one,
/// main) stream they are.
pub proof fn lemma_current_streams_agree(
    t: Seq<YearEntry>,
    year: Seq<char>,
    event: Seq<char>,
    today: Seq<char>,
)
    ensures
        current_stream_in(t, year, event, today, true) is Some <==> current_stream_in(
            t,
            year,
            event,
            today,
            false,
        ) is Some,
        current_stream_in(t, year, event, today, false) is Some ==> (schedule_of(t, year, event)
            matches Some(s) && latest_started(s, today) matches Some(i) && 0 <= i < s.len()
            && current_stream_in(t, year, event, today, false) == Some(s[i].stream)
            && current_stream_in(t, year, event, today, true) == Some(s[i].link_for(true))),
{
    if let Some(s) = schedule_of(t, year, event) {
        lemma_latest_started(s, today);
    }
}

/// On a date by which day `i` of an event has begun and the next day (if any) has not, the
/// current stream is day `i`'s; in particular, after the last day has begun it is the last day's.
pub proof fn lemma_current_stream_is_the_day_under_way(
    t: Seq<YearEntry>,
    year: Seq<char>,
    event: Seq<char>,
    today: Seq<char>,
    alt: bool,
    s: Seq<EventStream>,
    i: int,
)
    requires
        schedule_of(t, year, event) == Some(s),
        schedule_well_formed(s),
        0 <= i < s.len(),
        text_le(s[i].date@, today),
        i + 1 < s.len() ==> !text_le(s[i + 1].date@, today),
    ensures
        current_stream_in(t, year, event, today, alt) == Some(s[i].link_for(alt)),
{
    lemma_latest_started(s, today);
    let k = latest_started(s, today).unwrap();
    if k != i {
        assert(i < k);
        assert(text_le(s[i + 1].date@, s[k].date@));
        lemma_text_le_transitive(s[i + 1].date@, s[k].date@, today);
    }
}

/// A scheduled event has a current stream exactly from its first day on: none while `today`
/// comes before the first day's date, and from then on the stream of the last day that has
/// begun.
pub proof fn lemma_current_stream_from_first_day(y: int, e: int, today: Seq<char>, alt: bool)
    requires
        0 <= y < stream_table().len(),
        0 <= e < stream_table()[y].1.len(),
    ensures
        ({
            let s = stream_table()[y].1[e].1;
            let link = current_stream_in(
                stream_table(),
                stream_table()[y].0,
                stream_table()[y].1[e].0,
                today,
                alt,
            );
            &&& link is Some <==> text_le(s[0].date@, today)
            &&& link is Some ==> (latest_started(s, today) matches Some(i) && link == Some(
                s[i].link_for(alt),
            ))
        }),
{
    let t = stream_table();
    lemma_stream_table_well_formed();
    lemma_find_entry_distinct(t, y);
    assert(keys_distinct(t[y].1));
    lemma_find_entry_distinct(t[y].1, e);
    let s = t[y].1[e].1;
    assert(schedule_well_formed(s));
    assert(schedule_of(t, t[y].0, t[y].1[e].0) == Some(s));
    let link = current_stream_in(t, t[y].0, t[y].1[e].0, today, alt);
    lemma_current_stream_is_a_day_stream(t, t[y].0, t[y].1[e].0, today, alt);
    lemma_latest_started(s, today);
    if link is Some {
        let j = choose|j: int| 0 <= j < s.len() && text_le(#[trigger] s[j].date@, today);
        assert(text_le(s[0].date@, s[j].date@));
        lemma_text_le_transitive(s[0].date@, s[j].date@, today);
    }
    if text_le(s[0].date@, today) {
        assert(0 <= 0 < s.len() && text_le(s[0].date@, today));
        assert(link is Some);
    }
}

/// A day of the schedule as its lookups see it: dated `date`, with the main stream `main` and the
/// alternate stream `alt`.
pub open spec fn is_day(d: EventStream, date: Seq<char>, main: Seq<char>, alt: Seq<char>) -> bool {
    &&& d.date@ == date
    &&& d.stream@ == main
    &&& d.alt_stream matches Some(a) && a@ == alt
}

/// The schedule that the lookups serve: the only season is `2026`; its events are `blk`, `osf`,
/// `gpk`, `wil`, `sam`, `sun`, `cas` and `aub`; and each has two days, with these dates and
/// streams.
pub proof fn lemma_served_schedule()
    ensures
        forall|y: Seq<char>| #[trigger] find_entry(stream_table(), y) is Some <==> y == "2026"@,
        forall|e: Seq<char>|
            #[trigger] schedule_of(stream_table(), "2026"@, e) is Some <==> (e == "blk"@ || e
                == "osf"@ || e == "gpk"@ || e == "wil"@ || e == "sam"@ || e == "sun"@ || e
                == "cas"@ || e == "aub"@),
        schedule_of(stream_table(), "2026"@, "blk"@) matches Some(s) && s.len() == 2
            && is_day(s[0], "2026-03-07"@, "https://www.youtube.com/watch?v=tqImKZrD6B0"@,
            "https://www.youtube.com/watch?v=21-aqNWtxko"@)
            && is_day(s[1], "2026-03-08"@, "https://www.youtube.com/watch?v=2CFKqm7IHfA"@,
            "https://www.youtube.com/watch?v=mAsQeD8regk"@),
        schedule_of(stream_table(), "2026"@, "osf"@) matches Some(s) && s.len() == 2
            && is_day(s[0], "2026-03-06"@, "https://www.youtube.com/watch?v=VPWDvwxLED0"@,
            "https://www.youtube.com/watch?v=x-4VAVyb4as"@)
            && is_day(s[1], "2026-03-07"@, "https://www.youtube.com/watch?v=h-qcbsZw-xs"@,
            "https://www.youtube.com/watch?v=XWAhpt1cxxU"@),
        schedule_of(stream_table(), "2026"@, "gpk"@) matches Some(s) && s.len() == 2
            && is_day(s[0], "2026-03-14"@, "https://www.youtube.com/watch?v=XcQ8EndxcuM"@,
            "https://www.youtube.com/watch?v=bURRb2HrvXA"@)
            && is_day(s[1], "2026-03-15"@, "https://www.youtube.com/watch?v=xU3Nbp_vpWE"@,
            "https://www.youtube.com/watch?v=KHvKahKD1OI"@),
        schedule_of(stream_table(), "2026"@, "wil"@) matches Some(s) && s.len() == 2
            && is_day(s[0], "2026-03-14"@, "https://www.youtube.com/watch?v=tY1iFSJ1U3k"@,
            "https://www.youtube.com/watch?v=qFn0ZgF3KTo"@)
            && is_day(s[1], "2026-03-15"@, "https://www.youtube.com/watch?v=K3Ftdmvmw1E"@,
            "https://www.youtube.com/watch?v=XGLQ_8yjcQ0"@),
        schedule_of(stream_table(), "2026"@, "sam"@) matches Some(s) && s.len() == 2
            && is_day(s[0], "2026-03-21"@, "https://www.youtube.com/watch?v=dZ_T_LNCg_U"@,
            "https://www.youtube.com/watch?v=5GpOR-eBbNg"@)
            && is_day(s[1], "2026-03-22"@, "https://www.youtube.com/watch?v=xgwgHLj5YZQ"@,
            "https://www.youtube.com/watch?v=eRglKjvZZCo"@),
        schedule_of(stream_table(), "2026"@, "sun"@) matches Some(s) && s.len() == 2
            && is_day(s[0], "2026-03-20"@, "https://www.youtube.com/watch?v=Y538-wB-blE"@,
            "https://www.youtube.com/watch?v=stokCPqL9Xo"@)
            && is_day(s[1], "2026-03-21"@, "https://www.youtube.com/watch?v=PH5qDFB1xq0"@,
            "https://www.youtube.com/watch?v=DvKmaFE-2Kc"@),
        schedule_of(stream_table(), "2026"@, "cas"@) matches Some(s) && s.len() == 2
            && is_day(s[0], "2026-03-27"@, "https://www.youtube.com/watch?v=zq8HiQrru4c"@,
            "https://www.youtube.com/watch?v=FrwOFI5KcnI"@)
            && is_day(s[1], "2026-03-28"@, "https://www.twitch.tv/firstinspires15"@,
            "https://www.twitch.tv/firstinspires14"@),
        schedule_of(stream_table(), "2026"@, "aub"@) matches Some(s) && s.len() == 2
            && is_day(s[0], "2026-03-28"@, "https://www.twitch.tv/firstinspires16"@,
            "https://www.twitch.tv/firstinspires17"@)
            && is_day(s[1], "2026-03-29"@, "https://www.twitch.tv/firstinspires16"@,
            "https://www.twitch.tv/firstinspires17"@),
{
    reveal(stream_table);
    lemma_stream_table_well_formed();
    let t = stream_table();
    lemma_find_entry_distinct(t, 0);
    assert(keys_distinct(t[0].1));
    lemma_find_entry_distinct(t[0].1, 0);
    lemma_find_entry_distinct(t[0].1, 1);
    lemma_find_entry_distinct(t[0].1, 2);
    lemma_find_entry_distinct(t[0].1, 3);
    lemma_find_entry_distinct(t[0].1, 4);
    lemma_find_entry_distinct(t[0].1, 5);
    lemma_find_entry_distinct(t[0].1, 6);
    lemma_find_entry_distinct(t[0].1, 7);
    reveal_strlit("2026");
    reveal_strlit("blk");
    reveal_strlit("osf");
    reveal_strlit("gpk");
    reveal_strlit("wil");
    reveal_strlit("sam");
    reveal_strlit("sun");
    reveal_strlit("cas");
    reveal_strlit("aub");
    assert forall|y: Seq<char>| #[trigger] find_entry(t, y) is Some <==> y == "2026"@ by {
        reveal_with_fuel(find_entry, 2);
    }
    assert forall|e: Seq<char>| #[trigger] schedule_of(t, "2026"@, e) is Some <==> (e == "blk"@
        || e == "osf"@ || e == "gpk"@ || e == "wil"@ || e == "sam"@ || e == "sun"@ || e == "cas"@
        || e == "aub"@) by {
        reveal_with_fuel(find_entry, 9);
    }
}


fn find_year(table: &Vec<YearSchedule>, year: &str) -> (found: Option<usize>)
    ensures
        match found {
            Some(i) => i < table.len() && find_entry(table_entries(table@), year@) == Some(
                table_entries(table@)[i as int].1,
            ),
            None => find_entry(table_entries(table@), year@) is None,
        },
{
    let ghost entries = table_entries(table@);
    let mut i: usize = 0;
    assert(entries.skip(0) =~= entries);
    while i < table.len()
        invariant
            entries == table_entries(table@),
            i <= table.len(),
            find_entry(entries, year@) == find_entry(entries.skip(i as int), year@),
        decreases table.len() - i,
    {
        if same_text(table[i].year, year) {
            return Some(i);
        }
        assert(entries.skip(i as int).drop_first() =~= entries.skip(i + 1));
        i = i + 1;
    }
    None
}

fn find_event(events: &Vec<EventSchedule>, event: &str) -> (found: Option<usize>)
    ensures
        match found {
            Some(i) => i < events.len() && find_entry(
                events@.map_values(|e: EventSchedule| event_entry(e)),
                event@,
            ) == Some(events@[i as int].streams@),
            None => find_entry(
                events@.map_values(|e: EventSchedule| event_entry(e)),
                event@,
            ) is None,
        },
{
    let ghost entries = events@.map_values(|e: EventSchedule| event_entry(e));
    let mut i: usize = 0;
    assert(entries.skip(0) =~= entries);
    while i < events.len()
        invariant
            entries == events@.map_values(|e: EventSchedule| event_entry(e)),
            i <= events.len(),
            find_entry(entries, event@) == find_entry(entries.skip(i as int), event@),
        decreases events.len() - i,
    {
        if same_text(events[i].event, event) {
            return Some(i);
        }
        assert(entries.skip(i as int).drop_first() =~= entries.skip(i + 1));
        i = i + 1;
    }
    None
}

fn day_stream_in_table(
    table: &Vec<YearSchedule>,
    year: &str,
    event: &str,
    day: usize,
    alt: bool,
) -> (link: Option<&'static str>)
    ensures
        link == day_stream_in(table_entries(table@), year@, event@, day as int, alt),
{
    let y = match find_year(table, year) {
        Some(y) => y,
        None => return None,
    };
    let events = &table[y].events;
    let e = match find_event(events, event) {
        Some(e) => e,
        None => return None,
    };
    let streams = &events[e].streams;
    if day < streams.len() {
        Some(streams[day].link(alt))
    } else {
        None
    }
}

fn current_stream_in_table(
    table: &Vec<YearSchedule>,
    year: &str,
    event: &str,
    today: &str,
    alt: bool,
) -> (link: Option<&'static str>)
    ensures
        link == current_stream_in(table_entries(table@), year@, event@, today@, alt),
{
    let y = match find_year(table, year) {
        Some(y) => y,
        None => return None,
    };
    let events = &table[y].events;
    let e = match find_event(events, event) {
        Some(e) => e,
        None => return None,
    };
    let streams = &events[e].streams;
    assert(schedule_of(table_entries(table@), year@, event@) == Some(streams@));
    // Walk back from the last day to the last one that has begun.
    let mut i: usize = streams.len();
    assert(streams@.take(i as int) =~= streams@);
    while i > 0
        invariant
            i <= streams.len(),
            schedule_of(table_entries(table@), year@, event@) == Some(streams@),
            latest_started(streams@, today@) == latest_started(streams@.take(i as int), today@),
        decreases i,
    {
        if text_at_most(streams[i - 1].date, today) {
            assert(streams@.take(i as int).last() == streams@[i - 1]);
            return Some(streams[i - 1].link(alt));
        }
        assert(streams@.take(i as int).drop_last() =~= streams@.take(i - 1));
        i = i - 1;
    }
    assert(streams@.take(0) =~= Seq::<EventStream>::empty());
    None
}

/// The current year in Los Angeles, written as chrono's `%Y` writes years (such as `2026`).
pub(crate) fn get_current_year() -> (year: String)
    ensures
        is_year_text(year@),
        year_from_1969(year@),
{
    los_angeles_now("%Y")
}

/// The link for day `day` (counted from 0) of `event` in the season `year`: `None` when the
/// season, the event or the day is not scheduled. With `alt`, the day's alternate stream where
/// it has one.
pub fn get_day_stream_for_year(year: &str, event: &str, day: usize, alt: bool) -> (link: Option<
    &'static str,
>)
    ensures
        link == day_stream_in(stream_table(), year@, event@, day as int, alt),
{
    let table = all_streams();
    day_stream_in_table(&table, year, event, day, alt)
}

/// The link for the day of `event` in the season `year` that is current on the date `today`
/// (written `YYYY-MM-DD`): the last day whose date is no later than `today`. `None` while all the
/// event's days are still to come, and when the season or the event is not scheduled.
pub fn get_stream_on_date(year: &str, event: &str, today: &str, alt: bool) -> (link: Option<
    &'static str,
>)
    ensures
        link == current_stream_in(stream_table(), year@, event@, today@, alt),
{
    let table = all_streams();
    current_stream_in_table(&table, year, event, today, alt)
}

/// The link for the day of `event` in the season `year` that is current today in Los Angeles
/// (see `get_stream_on_date`). The link is the one for the date the clock gives, a date written
/// `%Y-%m-%d`.
pub fn get_current_stream_for_year(year: &str, event: &str, alt: bool) -> (link: Option<
    &'static str,
>)
    ensures
        exists|today: Seq<char>|
            is_date_text(today) && date_from_1969(today) && link == #[trigger] current_stream_in(
                stream_table(),
                year@,
                event@,
                today,
                alt,
            ),
{
    let today = los_angeles_now("%Y-%m-%d");
    let link = get_stream_on_date(year, event, today.as_str(), alt);
    assert(link == current_stream_in(stream_table(), year@, event@, today@, alt));
    link
}

/// The link for day `day` (counted from 0) of `event` in the current season in Los Angeles (see
/// `get_day_stream_for_year`). The link is the one for the year the clock gives, a year written
/// `%Y`.
pub fn get_day_stream(event: &str, day: usize, alt: bool) -> (link: Option<&'static str>)
    ensures
        exists|year: Seq<char>|
            is_year_text(year) && year_from_1969(year) && link == #[trigger] day_stream_in(
                stream_table(),
                year,
                event@,
                day as int,
                alt,
            ),
{
    let year = get_current_year();
    let link = get_day_stream_for_year(year.as_str(), event, day, alt);
    assert(link == day_stream_in(stream_table(), year@, event@, day as int, alt));
    link
}

/// The link for the day of `event` that is current today, in the current season, both as the
/// clock in Los Angeles gives them (see `get_stream_on_date`): a year written `%Y` and a date
/// written `%Y-%m-%d`.
pub fn get_current_stream(event: &str, alt: bool) -> (link: Option<&'static str>)
    ensures
        exists|year: Seq<char>, today: Seq<char>|
            is_year_text(year) && year_from_1969(year) && is_date_text(today) && date_from_1969(today) && link == #[trigger] current_stream_in(
                stream_table(),
                year,
                event@,
                today,
                alt,
            ),
{
    let year = get_current_year();
    let link = get_current_stream_for_year(year.as_str(), event, alt);
    proof {
        let today = choose|today: Seq<char>|
            is_date_text(today) && date_from_1969(today) && link == #[trigger] current_stream_in(
                stream_table(),
                year@,
                event@,
                today,
                alt,
            );
        assert(link == current_stream_in(stream_table(), year@, event@, today, alt));
    }
    link
}

} // verus!
