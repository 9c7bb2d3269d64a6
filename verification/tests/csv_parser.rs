use sma_controller::clock::TimeOfDay;
use sma_controller::csv_parser::{
    parse_hhmm, parse_line, parse_price_csv, parse_time_range, range_end, slot_for_time, CsvError,
    LineError, PriceSlot, RangeError,
};
use sma_controller::decimal::Decimal;

fn chars(s: &str) -> Vec<char> {
    s.chars().collect()
}

fn t(h: u32, m: u32, s: u32) -> TimeOfDay {
    TimeOfDay::from_hms(h, m, s).unwrap()
}

fn slot(start: TimeOfDay, end: TimeOfDay, magnitude: u64, scale: u8) -> PriceSlot {
    PriceSlot { start, end, price_eur_mwh: Decimal { negative: false, magnitude, scale } }
}

#[test]
fn hhmm_reads_times() {
    assert_eq!(parse_hhmm("10:15"), Some(t(10, 15, 0)));
    assert_eq!(parse_hhmm("00:00"), Some(t(0, 0, 0)));
    assert_eq!(parse_hhmm("23:59"), Some(t(23, 59, 0)));
    assert_eq!(parse_hhmm("7:15"), Some(t(7, 15, 0)));
}

#[test]
fn hhmm_refuses_bad_times() {
    for s in ["17:60", "24:00", "abc", "", "12", "10:15:00", "10:15 "] {
        assert_eq!(parse_hhmm(s), None, "{:?}", s);
    }
}

#[test]
fn range_end_of_day_rule() {
    assert_eq!(range_end(t(23, 45, 0), t(0, 0, 0)), TimeOfDay { secs: 86400 });
    assert_eq!(range_end(t(23, 0, 0), t(0, 0, 0)), TimeOfDay { secs: 86400 });
    assert_eq!(range_end(t(22, 45, 0), t(0, 0, 0)), t(0, 0, 0));
    assert_eq!(range_end(t(23, 45, 0), t(0, 15, 0)), t(0, 15, 0));
    assert_eq!(range_end(t(10, 0, 0), t(10, 15, 0)), t(10, 15, 0));
}

#[test]
fn time_range_parses() {
    assert_eq!(parse_time_range(&chars("10:00 - 10:15")), Ok((t(10, 0, 0), t(10, 15, 0))));
    assert_eq!(parse_time_range(&chars("23:45 - 00:00")), Ok((t(23, 45, 0), TimeOfDay { secs: 86400 })));
    assert_eq!(parse_time_range(&chars("10:00  -  10:15")), Ok((t(10, 0, 0), t(10, 15, 0))));
}

#[test]
fn time_range_errors() {
    assert_eq!(parse_time_range(&chars("10:00-10:15")), Err(RangeError::MissingSeparator));
    assert_eq!(parse_time_range(&chars("")), Err(RangeError::MissingSeparator));
    assert_eq!(parse_time_range(&chars("xx - 10:15")), Err(RangeError::InvalidStart));
    assert_eq!(parse_time_range(&chars("10:00 - yy")), Err(RangeError::InvalidEnd));
    assert_eq!(parse_time_range(&chars("10:00 - 10:15 - 10:30")), Err(RangeError::InvalidEnd));
}

#[test]
fn line_parses() {
    assert_eq!(
        parse_line(&chars("QH1;00:00 - 00:15;85.32")),
        Ok(slot(t(0, 0, 0), t(0, 15, 0), 8532, 2))
    );
    assert_eq!(
        parse_line(&chars("QH96;23:45 - 00:00; 12.5 ;extra")),
        Ok(slot(t(23, 45, 0), TimeOfDay { secs: 86400 }, 125, 1))
    );
    assert_eq!(
        parse_line(&chars("QH2;00:15 - 00:30;-3.10")),
        Ok(PriceSlot {
            start: t(0, 15, 0),
            end: t(0, 30, 0),
            price_eur_mwh: Decimal { negative: true, magnitude: 310, scale: 2 },
        })
    );
}

#[test]
fn line_errors() {
    assert_eq!(parse_line(&chars("QH1")), Err(LineError::MissingTimeRange));
    assert_eq!(parse_line(&chars("QH1;00:00 - 00:15")), Err(LineError::MissingPrice));
    assert_eq!(
        parse_line(&chars("QH1;bad;1")),
        Err(LineError::InvalidTimeRange(RangeError::MissingSeparator))
    );
    assert_eq!(parse_line(&chars("QH1;00:00 - 00:15;abc")), Err(LineError::InvalidPrice));
    assert_eq!(parse_line(&chars("QH1;00:00 - 00:15;")), Err(LineError::InvalidPrice));
}

#[test]
fn price_file_parses() {
    let text = "Day ahead prices\r\nPeriod;Time;Price\r\n\r\n  QH1;00:00 - 00:15;85.32\r\nQH2;00:15 - 00:30;79.9\r\n";
    let slots = parse_price_csv(text).unwrap();
    assert_eq!(
        slots,
        vec![slot(t(0, 0, 0), t(0, 15, 0), 8532, 2), slot(t(0, 15, 0), t(0, 30, 0), 799, 1)]
    );
}

#[test]
fn price_file_without_final_newline() {
    let slots = parse_price_csv("QH1;00:00 - 00:15;1").unwrap();
    assert_eq!(slots, vec![slot(t(0, 0, 0), t(0, 15, 0), 1, 0)]);
}

#[test]
fn price_file_without_slots() {
    assert_eq!(parse_price_csv(""), Err(CsvError::NoSlots));
    assert_eq!(parse_price_csv("header\n\nfooter\n"), Err(CsvError::NoSlots));
    assert_eq!(parse_price_csv("qh1;00:00 - 00:15;1\n"), Err(CsvError::NoSlots));
}

#[test]
fn price_file_names_the_bad_line() {
    let text = "header\nQH1;00:00 - 00:15;85.32\n  QH2;oops;1  \nQH3;00:30 - 00:45;x\n";
    assert_eq!(
        parse_price_csv(text),
        Err(CsvError::InvalidLine {
            line_no: 3,
            line: "QH2;oops;1".to_string(),
            cause: LineError::InvalidTimeRange(RangeError::MissingSeparator),
        })
    );
}

#[test]
fn full_day_has_96_slots_and_every_time_has_one() {
    let mut text = String::new();
    for q in 0..96u32 {
        let start = q * 15;
        let end = (start + 15) % (24 * 60);
        text.push_str(&format!(
            "QH{};{:02}:{:02} - {:02}:{:02};{}.5\n",
            q + 1,
            start / 60,
            start % 60,
            end / 60,
            end % 60,
            q
        ));
    }
    let slots = parse_price_csv(&text).unwrap();
    assert_eq!(slots.len(), 96);
    for secs in (0..86400u32).step_by(97).chain([86399u32, 86340, 0, 899, 900]) {
        let found = slot_for_time(&slots, TimeOfDay { secs }).unwrap();
        assert_eq!(found.price_eur_mwh.magnitude, (secs / 900) as u64 * 10 + 5);
    }
}

#[test]
fn slot_lookup_takes_first_match_and_excludes_end() {
    let slots = vec![
        slot(t(10, 0, 0), t(10, 15, 0), 1, 0),
        slot(t(10, 0, 0), t(11, 0, 0), 2, 0),
        slot(t(23, 45, 0), TimeOfDay { secs: 86400 }, 3, 0),
    ];
    assert_eq!(slot_for_time(&slots, t(10, 0, 0)), Some(&slots[0]));
    assert_eq!(slot_for_time(&slots, t(10, 14, 59)), Some(&slots[0]));
    assert_eq!(slot_for_time(&slots, t(10, 15, 0)), Some(&slots[1]));
    assert_eq!(slot_for_time(&slots, t(11, 0, 0)), None);
    assert_eq!(slot_for_time(&slots, t(23, 59, 58)), Some(&slots[2]));
    assert_eq!(slot_for_time(&slots, t(23, 59, 59)), Some(&slots[2]));
    assert_eq!(slot_for_time(&slots, t(23, 44, 59)), None);
    assert_eq!(slot_for_time(&[], t(12, 0, 0)), None);
}
