//! The daily spot-price CSV: quarter-hour slots with their prices.
//!
//! A price line looks like `QH1;00:00 - 00:15;85.32`: a label starting with
//! `QH`, a time range and a price in EUR/MWh, separated by `;`.

use vstd::prelude::*;
use crate::text::{trim, split_on, lines_of, rows, trim_chars, split_chars, lines_chars, string_from_chars, chars_of, sub_chars};
use crate::decimal::{Decimal, decimal_of_text, parse_decimal};
use crate::clock::{TimeOfDay, chrono_time_of, parse_time_with_format, SECS_PER_DAY};

verus! {

/// One quarter-hour slot of the price file: `[start, end)` and its price.
#[derive(Clone, Copy, Debug, PartialEq, Eq, Structural)]
pub struct PriceSlot {
    pub start: TimeOfDay,
    pub end: TimeOfDay,
    pub price_eur_mwh: Decimal,
}

/// Why a time range such as `10:00 - 10:15` was refused.
#[derive(Clone, Copy, Debug, PartialEq, Eq, Structural)]
pub enum RangeError {
    /// No ` - ` between the two times.
    MissingSeparator,
    /// The part before ` - ` is no `HH:MM` time.
    InvalidStart,
    /// The part after ` - ` is no `HH:MM` time.
    InvalidEnd,
}

/// Why a price line was refused.
#[derive(Clone, Copy, Debug, PartialEq, Eq, Structural)]
pub enum LineError {
    /// The line has no second `;`-separated column.
    MissingTimeRange,
    /// The line has no third `;`-separated column.
    MissingPrice,
    /// The second column is no valid time range.
    InvalidTimeRange(RangeError),
    /// The third column is no valid decimal price.
    InvalidPrice,
}

/// Why a price file was refused.
#[derive(Debug, PartialEq, Eq)]
pub enum CsvError {
    /// No `QH` line in the whole file.
    NoSlots,
    /// The `QH` line with this 1-based number (shown trimmed) could not be parsed.
    InvalidLine { line_no: usize, line: String, cause: LineError },
}

/// The time that `text` denotes in the `%H:%M` format.
pub open spec fn hhmm_of(text: Seq<char>) -> Option<TimeOfDay> {
    match chrono_time_of(text, "%H:%M"@) {
        Some(s) => Some(TimeOfDay { secs: s }),
        None => None,
    }
}

/// Parses an `HH:MM` time.
pub fn parse_hhmm(s: &str) -> (r: Option<TimeOfDay>)
    ensures
        r == hhmm_of(s@),
        r matches Some(t) ==> t.wf(),
{
    match parse_time_with_format(s, "%H:%M") {
        Some(secs) => Some(TimeOfDay { secs }),
        None => None,
    }
}

/// The end of the day (midnight that ends it), the end of a range written as
/// ending at `00:00`. Ends are exclusive, so the range holds the day's last
/// second.
pub open spec fn end_of_day() -> TimeOfDay {
    TimeOfDay { secs: SECS_PER_DAY }
}

/// The end of a range: an end of `00:00` after a start at or after `23:00`
/// means the end of the day (`24:00`, exclusive); any other end stands as
/// written.
pub open spec fn end_of_range(start: TimeOfDay, raw_end: TimeOfDay) -> TimeOfDay {
    if raw_end.secs == 0 && start.secs >= 23 * 3600 {
        end_of_day()
    } else {
        raw_end
    }
}

/// The end of the range that starts at `start` and is written to end at `raw_end`.
pub fn range_end(start: TimeOfDay, raw_end: TimeOfDay) -> (r: TimeOfDay)
    ensures
        r == end_of_range(start, raw_end),
{
    if raw_end.secs == 0 && start.secs >= 23 * 3600 {
        TimeOfDay { secs: SECS_PER_DAY }
    } else {
        raw_end
    }
}

/// ` - ` stands at index `i` of `s`.
pub open spec fn is_range_sep_at(s: Seq<char>, i: int) -> bool {
    0 <= i && i + 3 <= s.len() && s[i] == ' ' && s[i + 1] == '-' && s[i + 2] == ' '
}

/// The first index at or after `i` where ` - ` stands.
pub open spec fn first_range_sep(s: Seq<char>, i: int) -> Option<int>
    decreases s.len() - i,
{
    if i < 0 || i + 3 > s.len() {
        None
    } else if is_range_sep_at(s, i) {
        Some(i)
    } else {
        first_range_sep(s, i + 1)
    }
}

/// The start and end that the time range `range` denotes: the text is split at
/// the first ` - `, both halves are trimmed and read as `HH:MM`, and the end
/// follows `end_of_range`.
pub open spec fn time_range_of(range: Seq<char>) -> Result<(TimeOfDay, TimeOfDay), RangeError> {
    match first_range_sep(range, 0) {
        None => Err(RangeError::MissingSeparator),
        Some(i) => match hhmm_of(trim(range.take(i))) {
            None => Err(RangeError::InvalidStart),
            Some(start) => match hhmm_of(trim(range.skip(i + 3))) {
                None => Err(RangeError::InvalidEnd),
                Some(raw_end) => Ok((start, end_of_range(start, raw_end))),
            },
        },
    }
}

proof fn lemma_first_range_sep(s: Seq<char>, i: int)
    requires
        0 <= i,
    ensures
        first_range_sep(s, i) matches Some(k) ==> i <= k && k + 3 <= s.len(),
    decreases s.len() - i,
{
    if i + 3 <= s.len() && !is_range_sep_at(s, i) {
        lemma_first_range_sep(s, i + 1);
    }
}

fn find_range_sep(s: &[char]) -> (r: Option<usize>)
    ensures
        match r {
            Some(i) => first_range_sep(s@, 0) == Some(i as int),
            None => first_range_sep(s@, 0) is None,
        },
{
    let n = s.len();
    let mut i: usize = 0;
    while i < n && n - i >= 3
        invariant
            0 <= i <= n == s@.len(),
            first_range_sep(s@, i as int) == first_range_sep(s@, 0),
        decreases n - i,
    {
        if s[i] == ' ' && s[i + 1] == '-' && s[i + 2] == ' ' {
            return Some(i);
        }
        i += 1;
    }
    None
}

/// Parses a time range such as `10:00 - 10:15`.
pub fn parse_time_range(range: &[char]) -> (r: Result<(TimeOfDay, TimeOfDay), RangeError>)
    ensures
        r == time_range_of(range@),
        r matches Ok((a, b)) ==> a.wf() && b.wf_end(),
{
    let sep = find_range_sep(range);
    match sep {
        None => Err(RangeError::MissingSeparator),
        Some(i) => {
            proof {
                lemma_first_range_sep(range@, 0);
                assert(i + 3 <= range@.len());
            }
            let n = range.len();
            let j = i + 3;
            let start_text = trim_chars(sub_chars(range, 0, i).as_slice());
            let end_text = trim_chars(sub_chars(range, j, n).as_slice());
            proof {
                assert(range@.subrange(0, i as int) == range@.take(i as int));
                assert(range@.subrange(i + 3, range@.len() as int) == range@.skip(i + 3));
            }
            let start_string = string_from_chars(start_text.as_slice());
            match parse_hhmm(start_string.as_str()) {
                None => Err(RangeError::InvalidStart),
                Some(start) => {
                    let end_string = string_from_chars(end_text.as_slice());
                    match parse_hhmm(end_string.as_str()) {
                        None => Err(RangeError::InvalidEnd),
                        Some(raw_end) => Ok((start, range_end(start, raw_end))),
                    }
                },
            }
        },
    }
}

/// The slot that a (trimmed) price line denotes: its second `;`-separated
/// column, trimmed, is the time range and its third, trimmed, the price.
pub open spec fn slot_of_line(line: Seq<char>) -> Result<PriceSlot, LineError> {
    let parts = split_on(line, ';');
    if parts.len() < 2 {
        Err(LineError::MissingTimeRange)
    } else if parts.len() < 3 {
        Err(LineError::MissingPrice)
    } else {
        match time_range_of(trim(parts[1])) {
            Err(e) => Err(LineError::InvalidTimeRange(e)),
            Ok((start, end)) => match decimal_of_text(trim(parts[2])) {
                None => Err(LineError::InvalidPrice),
                Some(price) => Ok(PriceSlot { start, end, price_eur_mwh: price }),
            },
        }
    }
}

/// A slot whose times lie within the day.
pub open spec fn slot_wf(s: PriceSlot) -> bool {
    s.start.wf() && s.end.wf_end()
}

/// Parses one price line, such as `QH1;00:00 - 00:15;85.32`.
pub fn parse_line(line: &[char]) -> (r: Result<PriceSlot, LineError>)
    ensures
        r == slot_of_line(line@),
        r matches Ok(s) ==> slot_wf(s),
{
    let parts = split_chars(line, ';');
    if parts.len() < 2 {
        return Err(LineError::MissingTimeRange);
    }
    if parts.len() < 3 {
        return Err(LineError::MissingPrice);
    }
    let range = trim_chars(parts[1].as_slice());
    let price_text = trim_chars(parts[2].as_slice());
    match parse_time_range(range.as_slice()) {
        Err(e) => Err(LineError::InvalidTimeRange(e)),
        Ok((start, end)) => match parse_decimal(price_text.as_slice()) {
            None => Err(LineError::InvalidPrice),
            Some(price) => Ok(PriceSlot { start, end, price_eur_mwh: price }),
        },
    }
}

/// A trimmed line is a price line when it starts with `QH`.
pub open spec fn is_price_line(t: Seq<char>) -> bool {
    t.len() >= 2 && t[0] == 'Q' && t[1] == 'H'
}

/// The slots of the first `k` lines, or the index of the first price line
/// among them that does not parse, with the reason. Empty lines and lines
/// that do not start with `QH` (after trimming) are skipped.
pub open spec fn slots_of_lines(lines: Seq<Seq<char>>, k: nat) -> Result<Seq<PriceSlot>, (nat, LineError)>
    decreases k,
{
    if k == 0 || k > lines.len() {
        Ok(Seq::empty())
    } else {
        match slots_of_lines(lines, (k - 1) as nat) {
            Err(e) => Err(e),
            Ok(v) => {
                let t = trim(lines[k - 1]);
                if !is_price_line(t) {
                    Ok(v)
                } else {
                    match slot_of_line(t) {
                        Ok(s) => Ok(v.push(s)),
                        Err(e) => Err(((k - 1) as nat, e)),
                    }
                }
            },
        }
    }
}

proof fn lemma_slots_error_stays(lines: Seq<Seq<char>>, k: nat, m: nat)
    requires
        k <= m <= lines.len(),
        slots_of_lines(lines, k) is Err,
    ensures
        slots_of_lines(lines, m) == slots_of_lines(lines, k),
    decreases m - k,
{
    if k < m {
        lemma_slots_error_stays(lines, k, (m - 1) as nat);
    }
}

/// The price lines among the first `k` lines: each line trimmed, those that
/// start with `QH` kept, in order.
pub open spec fn price_lines_of(lines: Seq<Seq<char>>, k: int) -> Seq<Seq<char>> {
    lines.take(k).map_values(|l: Seq<char>| trim(l)).filter(|t: Seq<char>| is_price_line(t))
}

/// The price lines of a file, trimmed, in order.
pub open spec fn price_lines(text: Seq<char>) -> Seq<Seq<char>> {
    price_lines_of(lines_of(text), lines_of(text).len() as int)
}

proof fn lemma_price_lines_step(lines: Seq<Seq<char>>, k: int)
    requires
        0 < k <= lines.len(),
    ensures
        price_lines_of(lines, k) == if is_price_line(trim(lines[k - 1])) {
            price_lines_of(lines, k - 1).push(trim(lines[k - 1]))
        } else {
            price_lines_of(lines, k - 1)
        },
{
    let f = |l: Seq<char>| trim(l);
    let m = lines.take(k).map_values(f);
    assert(m.drop_last() =~= lines.take(k - 1).map_values(f));
    assert(m.last() == trim(lines[k - 1]));
    reveal_with_fuel(Seq::filter, 1);
}

proof fn lemma_slots_match_price_lines(lines: Seq<Seq<char>>, k: nat)
    requires
        k <= lines.len(),
    ensures
        slots_of_lines(lines, k) matches Ok(v) ==> {
            &&& v.len() == price_lines_of(lines, k as int).len()
            &&& forall|j: int|
                0 <= j < v.len() ==> slot_of_line(#[trigger] price_lines_of(lines, k as int)[j])
                    == Ok::<PriceSlot, LineError>(v[j])
        },
        slots_of_lines(lines, k) is Err ==> exists|j: int|
            0 <= j < price_lines_of(lines, k as int).len() && (#[trigger] slot_of_line(
                price_lines_of(lines, k as int)[j],
            )) is Err,
    decreases k,
{
    if k == 0 {
        reveal_with_fuel(Seq::filter, 1);
        assert(lines.take(0).map_values(|l: Seq<char>| trim(l)) =~= Seq::<Seq<char>>::empty());
    } else {
        lemma_slots_match_price_lines(lines, (k - 1) as nat);
        lemma_price_lines_step(lines, k as int);
        let prev = price_lines_of(lines, k - 1);
        let t = trim(lines[k - 1]);
        if is_price_line(t) {
            let cur = prev.push(t);
            assert(cur[prev.len() as int] == t);
            assert(forall|j: int| 0 <= j < prev.len() ==> cur[j] == prev[j]);
            if slots_of_lines(lines, (k - 1) as nat) is Err {
                let j = choose|j: int| 0 <= j < prev.len() && (#[trigger] slot_of_line(prev[j])) is Err;
                assert(cur[j] == prev[j]);
            }
        }
    }
}

/// Every price line of a file gives its slot: where the file parses, its
/// slots are the slots of its price lines, one each, in order; and the file
/// parses exactly when every price line does.
pub proof fn law_each_price_line_gives_its_slot(text: Seq<char>)
    ensures
        slots_of_text(text) matches Ok(v) ==> {
            &&& v.len() == price_lines(text).len()
            &&& forall|j: int|
                0 <= j < v.len() ==> slot_of_line(#[trigger] price_lines(text)[j]) == Ok::<
                    PriceSlot,
                    LineError,
                >(v[j])
        },
        slots_of_text(text) is Ok <==> forall|j: int|
            0 <= j < price_lines(text).len() ==> (#[trigger] slot_of_line(price_lines(text)[j])) is Ok,
{
    lemma_slots_match_price_lines(lines_of(text), lines_of(text).len());
}

/// The slots of all lines of a price file, as `slots_of_lines` gives them.
pub open spec fn slots_of_text(text: Seq<char>) -> Result<Seq<PriceSlot>, (nat, LineError)> {
    slots_of_lines(lines_of(text), lines_of(text).len())
}

/// Parses the contents of a price file. Succeeds exactly when every price line
/// parses and there is at least one; otherwise names the first line that does
/// not parse, or says that there is none.
pub fn parse_price_csv(contents: &str) -> (r: Result<Vec<PriceSlot>, CsvError>)
    ensures
        match slots_of_text(contents@) {
            Ok(v) => if v.len() == 0 {
                r == Err::<Vec<PriceSlot>, CsvError>(CsvError::NoSlots)
            } else {
                r matches Ok(slots) && slots@ == v
            },
            Err((i, e)) => r matches Err(CsvError::InvalidLine { line_no, line, cause })
                && line_no == i + 1 && line@ == trim(lines_of(contents@)[i as int]) && cause == e,
        },
        r matches Ok(slots) ==> forall|j: int| 0 <= j < slots@.len() ==> slot_wf(#[trigger] slots@[j]),
        r matches Ok(slots) ==> {
            &&& slots@.len() == price_lines(contents@).len()
            &&& forall|j: int|
                0 <= j < slots@.len() ==> slot_of_line(#[trigger] price_lines(contents@)[j]) == Ok::<
                    PriceSlot,
                    LineError,
                >(slots@[j])
        },
{
    proof {
        law_each_price_line_gives_its_slot(contents@);
    }
    let chars = chars_of(contents);
    let lines = lines_chars(chars.as_slice());
    let ghost ls = lines_of(contents@);
    let mut slots: Vec<PriceSlot> = Vec::new();
    let mut k: usize = 0;
    while k < lines.len()
        invariant
            0 <= k <= lines@.len(),
            rows(lines@) == ls,
            ls == lines_of(contents@),
            slots_of_lines(ls, k as nat) == Ok::<Seq<PriceSlot>, (nat, LineError)>(slots@),
            forall|j: int| 0 <= j < slots@.len() ==> slot_wf(#[trigger] slots@[j]),
        decreases lines@.len() - k,
    {
        assert(ls[k as int] == lines@[k as int]@);
        let t = trim_chars(lines[k].as_slice());
        if t.len() >= 2 && t[0] == 'Q' && t[1] == 'H' {
            match parse_line(t.as_slice()) {
                Ok(s) => {
                    slots.push(s);
                },
                Err(e) => {
                    proof {
                        assert(slots_of_lines(ls, (k + 1) as nat) == Err::<Seq<PriceSlot>, (nat, LineError)>((k as nat, e)));
                        lemma_slots_error_stays(ls, (k + 1) as nat, ls.len());
                    }
                    let line = string_from_chars(t.as_slice());
                    return Err(CsvError::InvalidLine { line_no: k + 1, line, cause: e });
                },
            }
        }
        k += 1;
    }
    if slots.len() == 0 {
        Err(CsvError::NoSlots)
    } else {
        Ok(slots)
    }
}

/// The index of the first slot at or after `i` whose range `[start, end)`
/// holds `t`.
pub open spec fn slot_index_from(slots: Seq<PriceSlot>, t: TimeOfDay, i: int) -> Option<int>
    decreases slots.len() - i,
{
    if i < 0 || i >= slots.len() {
        None
    } else if slots[i].start.secs <= t.secs && t.secs < slots[i].end.secs {
        Some(i)
    } else {
        slot_index_from(slots, t, i + 1)
    }
}

/// The first slot whose range `[start, end)` holds `time`, if any.
pub fn slot_for_time(slots: &[PriceSlot], time: TimeOfDay) -> (r: Option<&PriceSlot>)
    ensures
        match slot_index_from(slots@, time, 0) {
            Some(i) => r == Some(&slots@[i]),
            None => r is None,
        },
{
    let mut i: usize = 0;
    while i < slots.len()
        invariant
            0 <= i <= slots@.len(),
            slot_index_from(slots@, time, i as int) == slot_index_from(slots@, time, 0),
        decreases slots@.len() - i,
    {
        if slots[i].start.secs <= time.secs && time.secs < slots[i].end.secs {
            return Some(&slots[i]);
        }
        i += 1;
    }
    None
}

} // verus!

verus! {

/// The slots cover one whole day without gaps: the first starts at `00:00`,
/// each ends where the next starts, and the last ends at the end of the day.
pub open spec fn covers_day(slots: Seq<PriceSlot>) -> bool {
    &&& slots.len() > 0
    &&& slots[0].start.secs == 0
    &&& slots.last().end.secs == SECS_PER_DAY
    &&& forall|i: int| 0 <= i < slots.len() - 1 ==> #[trigger] slots[i].end.secs == slots[i + 1].start.secs
}

proof fn lemma_covered_from(slots: Seq<PriceSlot>, t: TimeOfDay, i: int)
    requires
        covers_day(slots),
        t.wf(),
        0 <= i < slots.len(),
        slots[i].start.secs <= t.secs,
    ensures
        slot_index_from(slots, t, i) is Some,
    decreases slots.len() - i,
{
    if t.secs >= slots[i].end.secs {
        assert(i + 1 < slots.len());
        assert(slots[i].end.secs == slots[i + 1].start.secs);
        lemma_covered_from(slots, t, i + 1);
    }
}

/// Every second of the day lies in a slot of a gap-free day of slots (such
/// as a complete price file of 96 quarter hours, the last one ending `00:00`).
pub proof fn law_full_day_has_slot(slots: Seq<PriceSlot>, t: TimeOfDay)
    requires
        covers_day(slots),
        t.wf(),
    ensures
        slot_index_from(slots, t, 0) is Some,
{
    lemma_covered_from(slots, t, 0);
}

} // verus!
