use alexandria::fires::{
    check_cron, count_walked, cron_dom_dow_conflict, select_later, Weekday,
};
use alexandria::reminder_rows::{spec_from_reminder, Reminder, CRON, PATTERN};
use alexandria::reminders::{
    human_readable, next_fire, normalize_cron, occurrence_count, occurrences_between,
    parse_datetime, parse_freq, parse_time_of_day, parse_weekday, pattern_to_cron, upcoming, Freq,
    ScheduleSpec, TimeOfDay,
};
use alexandria::time::{Instant, Zone};
use chrono::{DateTime, Datelike, TimeZone, Utc};

fn utc(y: i32, mo: u32, d: u32, h: u32, mi: u32) -> Instant {
    let at = Utc.with_ymd_and_hms(y, mo, d, h, mi, 0).unwrap();
    Instant::new(at.timestamp(), 0).unwrap()
}

fn nyc() -> Zone {
    Zone::named("America/New_York").unwrap()
}

fn stockholm() -> Zone {
    Zone::named("Europe/Stockholm").unwrap()
}

fn at(hour: u32, minute: u32) -> TimeOfDay {
    TimeOfDay { hour, minute }
}

fn weekday_of(at: &Instant) -> Weekday {
    match DateTime::<Utc>::from_timestamp(at.unix_secs(), 0).unwrap().weekday() {
        chrono::Weekday::Mon => Weekday::Mon,
        chrono::Weekday::Tue => Weekday::Tue,
        chrono::Weekday::Wed => Weekday::Wed,
        chrono::Weekday::Thu => Weekday::Thu,
        chrono::Weekday::Fri => Weekday::Fri,
        chrono::Weekday::Sat => Weekday::Sat,
        chrono::Weekday::Sun => Weekday::Sun,
    }
}

#[test]
fn normalize_cron_prepends_seconds_to_five_fields() {
    assert_eq!(normalize_cron("0 9 * * 1-5").unwrap(), "0 0 9 * * 1-5");
    assert_eq!(normalize_cron("0 0 9 * * 1-5").unwrap(), "0 0 9 * * 1-5");
}

#[test]
fn normalize_cron_rejects_garbage() {
    assert!(normalize_cron("not a cron").is_err());
    assert!(normalize_cron("0 9 * *").is_err()); // 4 fields
    assert!(normalize_cron("99 99 99 99 99").is_err());
}

#[test]
fn cron_numeric_weekdays_are_sunday_first_and_reject_zero() {
    let fires = |expr: &str| -> Vec<Weekday> {
        upcoming(
            &ScheduleSpec::Cron {
                expr: expr.to_string(),
            },
            utc(2026, 9, 7, 0, 0), // a Monday
            &Zone::utc(),
            7,
        )
        .unwrap()
        .iter()
        .map(weekday_of)
        .collect()
    };

    assert_eq!(fires("0 0 9 * * 1"), vec![Weekday::Sun; 7]);
    assert_eq!(fires("0 0 9 * * 7"), vec![Weekday::Sat; 7]);
    assert!(normalize_cron("0 0 9 * * 0").is_err());

    // The trap a standard-cron reader falls into: Sunday–Thursday.
    assert_eq!(
        fires("0 0 9 * * 1-5"),
        vec![
            Weekday::Mon,
            Weekday::Tue,
            Weekday::Wed,
            Weekday::Thu,
            Weekday::Sun,
            Weekday::Mon,
            Weekday::Tue,
        ]
    );

    // Day names are unambiguous.
    assert_eq!(
        fires("0 0 9 * * MON-FRI"),
        vec![
            Weekday::Mon,
            Weekday::Tue,
            Weekday::Wed,
            Weekday::Thu,
            Weekday::Fri,
            Weekday::Mon,
            Weekday::Tue,
        ]
    );
}

#[test]
fn pattern_to_cron_all_freqs() {
    let t = at(9, 0);
    assert_eq!(
        pattern_to_cron(Freq::Daily, t, &vec![], None).unwrap(),
        "0 0 9 * * *"
    );
    assert_eq!(
        pattern_to_cron(Freq::Weekly, t, &vec![Weekday::Fri], None).unwrap(),
        "0 0 9 * * FRI"
    );
    assert_eq!(
        pattern_to_cron(Freq::Weekly, t, &vec![Weekday::Mon, Weekday::Fri], None).unwrap(),
        "0 0 9 * * MON,FRI"
    );
    assert_eq!(
        pattern_to_cron(Freq::Monthly, t, &vec![], Some(1)).unwrap(),
        "0 0 9 1 * *"
    );
    // validation failures
    assert!(pattern_to_cron(Freq::Weekly, t, &vec![], None).is_err()); // no weekdays
    assert!(pattern_to_cron(Freq::Monthly, t, &vec![], None).is_err()); // no day
    assert!(pattern_to_cron(Freq::Monthly, t, &vec![], Some(32)).is_err());
    assert!(pattern_to_cron(Freq::Daily, t, &vec![Weekday::Fri], None).is_err());
    // weekdays on daily
}

#[test]
fn parse_freq_accepts_names_case_insensitive() {
    assert_eq!(parse_freq("daily").unwrap(), Freq::Daily);
    assert_eq!(parse_freq("WEEKLY").unwrap(), Freq::Weekly);
    assert_eq!(parse_freq("Monthly").unwrap(), Freq::Monthly);
    assert!(parse_freq("hourly").is_err());
    assert!(parse_freq("").is_err());
}

#[test]
fn parse_weekday_accepts_names_case_insensitive() {
    assert_eq!(parse_weekday("fri").unwrap(), Weekday::Fri);
    assert_eq!(parse_weekday("MONDAY").unwrap(), Weekday::Mon);
    assert_eq!(parse_weekday("sun").unwrap(), Weekday::Sun);
    assert!(parse_weekday("funday").is_err());
    assert!(parse_weekday("7").is_err()); // numbers rejected — names only, unambiguous
}

#[test]
fn parse_time_of_day_formats() {
    assert_eq!(parse_time_of_day("09:00").unwrap(), at(9, 0));
    assert_eq!(parse_time_of_day("9:30").unwrap(), at(9, 30));
    assert!(parse_time_of_day("25:00").is_err());
    assert!(parse_time_of_day("noon").is_err());
}

#[test]
fn parse_datetime_offset_wins_over_tz() {
    let tz = stockholm();
    let dt = parse_datetime("2026-09-10T15:00:00+02:00", &tz).unwrap();
    assert_eq!(dt, utc(2026, 9, 10, 13, 0));
}

#[test]
fn parse_datetime_naive_uses_configured_tz() {
    let tz = stockholm();
    // September = CEST (+02:00)
    let dt = parse_datetime("2026-09-10T15:00", &tz).unwrap();
    assert_eq!(dt, utc(2026, 9, 10, 13, 0));
    let dt2 = parse_datetime("2026-09-10 15:00:00", &tz).unwrap();
    assert_eq!(dt, dt2);
}

#[test]
fn parse_datetime_rejects_nonexistent_dst_gap_time() {
    // America/New_York springs forward 2026-03-08: 02:30 local does not exist
    let err = parse_datetime("2026-03-08T02:30", &nyc())
        .unwrap_err()
        .message();
    assert!(err.contains("does not exist"), "{err}");
    assert!(err.contains("spring-forward gap"), "{err}");
    assert!(err.contains("pick a time after the transition"), "{err}");
    // The fold wording belongs to the other failure mode only.
    assert!(!err.contains("ambiguous"), "{err}");
}

#[test]
fn parse_datetime_rejects_ambiguous_dst_fold_time() {
    // America/New_York falls back 2026-11-01: 01:30 local occurs twice.
    let err = parse_datetime("2026-11-01T01:30", &nyc())
        .unwrap_err()
        .message();
    assert!(err.contains("is ambiguous"), "{err}");
    assert!(err.contains("fall-back fold"), "{err}");
    assert!(err.contains("specify a UTC offset instead"), "{err}");
    assert!(!err.contains("does not exist"), "{err}");
}

#[test]
fn next_fire_once() {
    let spec = ScheduleSpec::Once {
        due_at: utc(2026, 9, 10, 15, 0),
    };
    assert_eq!(
        next_fire(&spec, utc(2026, 9, 10, 14, 0), &Zone::utc()).unwrap(),
        Some(utc(2026, 9, 10, 15, 0))
    );
    // already past → None
    assert_eq!(
        next_fire(&spec, utc(2026, 9, 10, 16, 0), &Zone::utc()).unwrap(),
        None
    );
}

#[test]
fn next_fire_daily_pattern_in_tz() {
    // daily 09:00 New York; ask at 2026-09-10 14:00 UTC (10:00 EDT — past today's fire)
    let spec = ScheduleSpec::Pattern {
        freq: Freq::Daily,
        time: at(9, 0),
        weekdays: vec![],
        day_of_month: 1,
    };
    let next = next_fire(&spec, utc(2026, 9, 10, 14, 0), &nyc())
        .unwrap()
        .unwrap();
    // 2026-09-11 09:00 EDT = 13:00 UTC
    assert_eq!(next, utc(2026, 9, 11, 13, 0));
}

#[test]
fn next_fire_monthly_skips_short_months() {
    // monthly on the 31st at 10:00 UTC; from Sep 1 → Oct 31 (Sep has 30 days)
    let spec = ScheduleSpec::Pattern {
        freq: Freq::Monthly,
        time: at(10, 0),
        weekdays: vec![],
        day_of_month: 31,
    };
    let next = next_fire(&spec, utc(2026, 9, 1, 0, 0), &Zone::utc())
        .unwrap()
        .unwrap();
    assert_eq!(next, utc(2026, 10, 31, 10, 0));
}

#[test]
fn upcoming_returns_n_fire_times() {
    let spec = ScheduleSpec::Pattern {
        freq: Freq::Weekly,
        time: at(9, 0),
        weekdays: vec![Weekday::Fri],
        day_of_month: 1,
    };
    let ups = upcoming(&spec, utc(2026, 9, 1, 0, 0), &Zone::utc(), 3).unwrap();
    assert_eq!(ups.len(), 3);
    assert!(ups[1].is_after(ups[0]) && ups[2].is_after(ups[1]));
    assert!(ups.iter().all(|d| weekday_of(d) == Weekday::Fri));
}

#[test]
fn next_fire_is_the_first_element_of_upcoming() {
    let daily = || at(9, 0);
    let specs = [
        ScheduleSpec::Once {
            due_at: utc(2026, 9, 10, 15, 0),
        },
        // A one-shot already in the past: no future fire in either form.
        ScheduleSpec::Once {
            due_at: utc(2020, 1, 1, 0, 0),
        },
        ScheduleSpec::Pattern {
            freq: Freq::Daily,
            time: daily(),
            weekdays: vec![],
            day_of_month: 1,
        },
        ScheduleSpec::Pattern {
            freq: Freq::Weekly,
            time: daily(),
            weekdays: vec![Weekday::Fri],
            day_of_month: 1,
        },
        // Monthly on the 31st: most months are skipped, so the walk matters.
        ScheduleSpec::Pattern {
            freq: Freq::Monthly,
            time: daily(),
            weekdays: vec![],
            day_of_month: 31,
        },
        // Pinned to a year already past: never fires again.
        ScheduleSpec::Cron {
            expr: "0 0 12 * * * 2020".to_string(),
        },
        // 01:30 local: the one window where a DST fold yields two instants.
        ScheduleSpec::Cron {
            expr: "0 30 1 * * *".to_string(),
        },
    ];
    let from = utc(2026, 3, 7, 12, 0);
    for spec in &specs {
        for zone in [Zone::utc(), nyc()] {
            assert_eq!(
                next_fire(spec, from, &zone).unwrap(),
                upcoming(spec, from, &zone, 3).unwrap().first().copied(),
                "{spec:?} in {zone:?}"
            );
        }
    }
}

#[test]
fn occurrences_between_coalesces_downtime() {
    // daily 12:00 UTC; missed window Sep 1 12:00 (exclusive) → Sep 4 13:00
    let spec = ScheduleSpec::Pattern {
        freq: Freq::Daily,
        time: at(12, 0),
        weekdays: vec![],
        day_of_month: 1,
    };
    // occurrences strictly after Sep 1 12:00, up to Sep 4 13:00 = Sep 2, 3, 4 → 3
    assert_eq!(
        occurrences_between(
            &spec,
            utc(2026, 9, 1, 12, 0),
            utc(2026, 9, 4, 13, 0),
            &Zone::utc()
        )
        .unwrap(),
        3
    );
    // none in an empty window
    assert_eq!(
        occurrences_between(
            &spec,
            utc(2026, 9, 1, 12, 0),
            utc(2026, 9, 1, 13, 0),
            &Zone::utc()
        )
        .unwrap(),
        0
    );
}

#[test]
fn occurrences_of_adjoining_windows_add_up_to_those_of_both() {
    let spec = ScheduleSpec::Pattern {
        freq: Freq::Daily,
        time: at(12, 0),
        weekdays: vec![],
        day_of_month: 1,
    };
    let count = |from: Instant, to: Instant| {
        occurrences_between(&spec, from, to, &Zone::utc()).unwrap()
    };
    let (a, c) = (utc(2026, 9, 1, 12, 0), utc(2026, 9, 9, 11, 59));
    assert_eq!(count(a, c), 7);
    // A window's end counts to it, and its start does not.
    for b in [a, utc(2026, 9, 3, 11, 59), utc(2026, 9, 3, 12, 0), utc(2026, 9, 5, 0, 0), c] {
        assert_eq!(count(a, b) + count(b, c), count(a, c));
    }
    assert_eq!(count(a, utc(2026, 9, 3, 12, 0)), 2);
}

#[test]
fn later_fires_are_selected_from_a_walk() {
    let day = |d: u32| utc(2026, 9, d, 12, 0);
    let walk = vec![day(1), day(2), day(3), day(4)];
    assert_eq!(select_later(&walk, day(2), 5), vec![day(3), day(4)]);
    assert_eq!(select_later(&walk, day(1), 2), vec![day(2), day(3)]);
    assert!(select_later(&walk, day(1), 0).is_empty());
    assert!(select_later(&walk, day(4), 3).is_empty());
}

#[test]
fn fires_of_a_walk_are_counted_within_a_window() {
    let day = |d: u32| utc(2026, 9, d, 12, 0);
    let walk = vec![day(1), day(2), day(3), day(4)];
    let within = count_walked(&walk, day(1), day(3));
    assert_eq!((within.count, within.saturated), (2, false));
    let none = count_walked(&walk, day(4), day(9));
    assert_eq!((none.count, none.saturated), (0, false));
    // A walk that was cut inside the window says only how many there are at least.
    let start = day(1).unix_secs();
    let long: Vec<Instant> = (1..=10_000).map(|k| Instant::new(start + k, 0).unwrap()).collect();
    let cut = count_walked(&long, day(1), day(9));
    assert_eq!((cut.count, cut.saturated), (10_000, true));
    let whole = count_walked(&long, day(1), Instant::new(start + 9_999, 0).unwrap());
    assert_eq!((whole.count, whole.saturated), (9_999, false));
}

#[test]
fn occurrences_between_once_is_zero() {
    let spec = ScheduleSpec::Once {
        due_at: utc(2026, 9, 10, 15, 0),
    };
    assert_eq!(
        occurrences_between(
            &spec,
            utc(2026, 9, 1, 0, 0),
            utc(2026, 9, 20, 0, 0),
            &Zone::utc()
        )
        .unwrap(),
        0
    );
}

#[test]
fn daily_series_across_dst_spring_forward() {
    // America/New_York springs forward 2026-03-08 02:00 → 03:00.
    let spec = ScheduleSpec::Pattern {
        freq: Freq::Daily,
        time: at(9, 0),
        weekdays: vec![],
        day_of_month: 1,
    };
    let ups = upcoming(&spec, utc(2026, 3, 6, 0, 0), &nyc(), 4).unwrap();
    assert_eq!(ups.len(), 4);
    assert!(ups.windows(2).all(|w| w[1].is_after(w[0])));
    // Mar 6, 7 = EST (UTC-5) → 14:00 UTC; Mar 8, 9 = EDT (UTC-4) → 13:00 UTC
    assert_eq!(ups[0], utc(2026, 3, 6, 14, 0));
    assert_eq!(ups[1], utc(2026, 3, 7, 14, 0));
    assert_eq!(ups[2], utc(2026, 3, 8, 13, 0));
    assert_eq!(ups[3], utc(2026, 3, 9, 13, 0));
}

#[test]
fn human_readable_renders_all_kinds() {
    assert_eq!(
        human_readable(&ScheduleSpec::Once {
            due_at: utc(2026, 9, 10, 15, 0)
        }),
        "one-shot at 2026-09-10 15:00 UTC"
    );
    assert_eq!(
        human_readable(&ScheduleSpec::Pattern {
            freq: Freq::Weekly,
            time: at(9, 0),
            weekdays: vec![Weekday::Fri],
            day_of_month: 1,
        }),
        "every Friday at 09:00"
    );
    assert_eq!(
        human_readable(&ScheduleSpec::Cron {
            expr: "0 0 9 * * 1-5".to_string()
        }),
        "cron '0 0 9 * * 1-5'"
    );
}

fn base() -> Reminder {
    Reminder {
        id: None,
        message: "m".into(),
        target_project: None,
        prov_project: None,
        prov_session_id: None,
        note: None,
        schedule_kind: "once".into(),
        due_at: None,
        freq: None,
        time_of_day: None,
        weekdays: vec![],
        day_of_month: None,
        cron_expr: None,
        next_due_at: None,
        status: "pending".into(),
        created_at: None,
        cancelled_at: None,
        last_delivered_at: None,
        delivered_count: 0,
    }
}

fn pattern() -> Reminder {
    let mut r = base();
    r.schedule_kind = PATTERN.into();
    r.time_of_day = Some("09:00".into());
    r
}

#[test]
fn spec_from_reminder_roundtrips_all_kinds() {
    let mut once = base();
    once.due_at = Some(utc(2026, 9, 10, 15, 0));
    assert_eq!(
        spec_from_reminder(&once).unwrap(),
        ScheduleSpec::Once {
            due_at: utc(2026, 9, 10, 15, 0)
        }
    );

    let mut weekly = pattern();
    weekly.freq = Some("weekly".into());
    weekly.weekdays = vec!["fri".into()];
    assert_eq!(
        spec_from_reminder(&weekly).unwrap(),
        ScheduleSpec::Pattern {
            freq: Freq::Weekly,
            time: at(9, 0),
            weekdays: vec![Weekday::Fri],
            day_of_month: 1,
        }
    );

    let mut monthly = pattern();
    monthly.freq = Some("monthly".into());
    monthly.day_of_month = Some(15);
    assert_eq!(
        spec_from_reminder(&monthly).unwrap(),
        ScheduleSpec::Pattern {
            freq: Freq::Monthly,
            time: at(9, 0),
            weekdays: vec![],
            day_of_month: 15,
        }
    );

    let mut cr = base();
    cr.schedule_kind = CRON.into();
    cr.cron_expr = Some("0 0 9 * * 1-5".into());
    assert_eq!(
        spec_from_reminder(&cr).unwrap(),
        ScheduleSpec::Cron {
            expr: "0 0 9 * * 1-5".into()
        }
    );

    // A stored 5-field expression must come back normalized to 6 fields.
    let mut five = base();
    five.schedule_kind = CRON.into();
    five.cron_expr = Some("0 9 * * 1-5".into());
    assert_eq!(
        spec_from_reminder(&five).unwrap(),
        ScheduleSpec::Cron {
            expr: "0 0 9 * * 1-5".into()
        }
    );

    // Corrupt row → error, not panic
    let mut bad = base();
    bad.schedule_kind = PATTERN.into();
    assert!(spec_from_reminder(&bad).is_err());

    // Inconsistent row (weekly without weekdays) → error at conversion time.
    let mut no_days = pattern();
    no_days.freq = Some("weekly".into());
    assert!(spec_from_reminder(&no_days).is_err());

    // Monthly with no day_of_month: error rather than defaulting to the 1st.
    let mut no_dom = pattern();
    no_dom.freq = Some("monthly".into());
    let err = spec_from_reminder(&no_dom).unwrap_err().message();
    assert!(
        err.contains("monthly pattern missing day_of_month"),
        "{err}"
    );
    assert!(err.contains("reminder <no id>"), "{err}");

    // Out-of-range must error, not truncate/wrap.
    for bad_dom in [0i64, -1, 32, i64::MAX] {
        for (freq, weekdays) in [("monthly", vec![]), ("weekly", vec!["fri".to_string()])] {
            let mut r = pattern();
            r.freq = Some(freq.into());
            r.weekdays = weekdays;
            r.day_of_month = Some(bad_dom);
            assert!(spec_from_reminder(&r).is_err(), "{freq} dom {bad_dom}");
        }
    }

    // A corrupt stored weekday reads as stored-row corruption, not user input.
    let mut bad_day = pattern();
    bad_day.freq = Some("weekly".into());
    bad_day.weekdays = vec!["xyz".into()];
    let err = spec_from_reminder(&bad_day).unwrap_err().message();
    assert!(err.contains("stored weekdays entry \"xyz\""), "{err}");
    assert!(err.contains("invalid weekday"), "{err}");
}

#[test]
fn a_fire_at_the_very_instant_is_not_upcoming() {
    let spec = ScheduleSpec::Cron {
        expr: "0 0 12 * * *".to_string(),
    };
    let noon = utc(2026, 9, 1, 12, 0);
    assert_eq!(
        next_fire(&spec, noon, &Zone::utc()).unwrap(),
        Some(utc(2026, 9, 2, 12, 0))
    );
}

#[test]
fn a_busy_schedule_saturates_its_count() {
    let spec = ScheduleSpec::Cron {
        expr: "* * * * * *".to_string(),
    };
    let count = occurrence_count(
        &spec,
        utc(2026, 9, 1, 0, 0),
        utc(2026, 9, 2, 0, 0),
        &Zone::utc(),
    )
    .unwrap();
    assert!(count.saturated);
    assert_eq!(count.count, 10_000);
    let short = occurrence_count(
        &spec,
        utc(2026, 9, 1, 0, 0),
        utc(2026, 9, 1, 0, 1),
        &Zone::utc(),
    )
    .unwrap();
    assert!(!short.saturated);
    assert_eq!(short.count, 60);
}

#[test]
fn both_day_fields_at_once_are_a_conflict() {
    assert!(cron_dom_dow_conflict("0 0 9 1 * MON"));
    assert!(!cron_dom_dow_conflict("0 0 9 1 * *"));
    assert!(!cron_dom_dow_conflict("0 0 9 * * MON"));
}

#[test]
fn the_parser_says_what_is_wrong() {
    assert_eq!(check_cron("0 0 9 * * *"), None);
    assert!(check_cron("0 0 99 * * *").is_some());
}

#[test]
fn an_unknown_zone_is_none() {
    assert!(Zone::named("Mars/Olympus").is_none());
    assert_eq!(Zone::utc().name(), "UTC");
    assert_eq!(nyc().name(), "America/New_York");
}

#[test]
fn a_time_that_is_no_time_says_so() {
    let err = parse_datetime("tomorrow", &Zone::utc()).unwrap_err();
    assert!(!err.message().is_empty());
}

#[test]
fn every_kind_of_row_fault_has_its_words() {
    let mut none = base();
    none.schedule_kind = "never".into();
    let err = spec_from_reminder(&none).unwrap_err().message();
    assert!(err.contains("unknown schedule_kind \"never\""), "{err}");

    let err = spec_from_reminder(&base()).unwrap_err().message();
    assert!(err.contains("due_at"), "{err}");

    let mut cr = base();
    cr.id = Some("reminder:1".into());
    cr.schedule_kind = CRON.into();
    let err = spec_from_reminder(&cr).unwrap_err().message();
    assert!(err.contains("cron reminder missing cron_expr"), "{err}");
    assert!(err.contains("reminder:1"), "{err}");
}

#[test]
fn a_pattern_that_is_written_reads_back() {
    for (days, texts) in [
        (vec![Weekday::Mon, Weekday::Sun], vec!["mon", "sun"]),
        (vec![Weekday::Wed], vec!["wed"]),
    ] {
        let mut r = pattern();
        r.freq = Some("weekly".into());
        r.time_of_day = Some(at(7, 5).clock_text());
        r.weekdays = texts.iter().map(|t| t.to_string()).collect();
        assert_eq!(
            spec_from_reminder(&r).unwrap(),
            ScheduleSpec::Pattern {
                freq: Freq::Weekly,
                time: at(7, 5),
                weekdays: days,
                day_of_month: 1,
            }
        );
    }
    assert_eq!(at(7, 5).clock_text(), "07:05");
}

#[test]
fn a_time_in_a_fall_back_fold_is_yielded_by_both_passes() {
    let spec = ScheduleSpec::Pattern {
        freq: Freq::Daily,
        time: at(1, 30),
        weekdays: vec![],
        day_of_month: 1,
    };
    let ups = upcoming(&spec, utc(2026, 10, 31, 0, 0), &nyc(), 3).unwrap();
    assert_eq!(
        ups,
        vec![
            utc(2026, 10, 31, 5, 30),
            utc(2026, 11, 1, 5, 30),
            utc(2026, 11, 1, 6, 30)
        ]
    );
}

#[test]
fn a_time_in_a_spring_forward_gap_does_not_fire_that_day() {
    let spec = ScheduleSpec::Pattern {
        freq: Freq::Daily,
        time: at(2, 30),
        weekdays: vec![],
        day_of_month: 1,
    };
    let ups = upcoming(&spec, utc(2026, 3, 7, 0, 0), &nyc(), 2).unwrap();
    assert_eq!(ups, vec![utc(2026, 3, 7, 7, 30), utc(2026, 3, 9, 6, 30)]);
}
