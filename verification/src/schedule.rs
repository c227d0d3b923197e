//! Per-tick countdown scheduling.
//!
//! Each tick: keep the enabled records whose target parses, value each
//! target in epoch seconds, sort ascending by target — ties keep the
//! records' original relative order — and render one message per record.
//! A record that fails to parse is only skipped for this tick; it is
//! looked at afresh on the next one.

use vstd::prelude::*;
use crate::config_store::{Countdown, CountdownView};
use crate::datetime::{valid_datetime, datetime_secs, parse_datetime, MIN_DATETIME_SECS,
    MAX_DATETIME_SECS};
use crate::format::{message_for, format_message, whole_seconds, whole_seconds_exec,
    REMAINING_MS_BOUND};

verus! {

/// Wall-clock "now" values the scheduler accepts, milliseconds since the
/// epoch; wide enough for every parsable datetime.
pub const NOW_MS_BOUND: i64 = 0x3ffffffffffff;

/// One surviving record this tick: its title, its target in epoch
/// seconds, and its position among this tick's survivors before sorting.
pub struct ScheduledEntry {
    pub title: String,
    pub target_secs: i64,
    pub idx: usize,
}

/// The mathematical value of a scheduled entry.
pub struct EntryView {
    pub title: Seq<char>,
    pub target_secs: int,
    pub idx: int,
}

impl View for ScheduledEntry {
    type V = EntryView;

    open spec fn view(&self) -> EntryView {
        EntryView { title: self.title@, target_secs: self.target_secs as int, idx: self.idx as int }
    }
}

impl Clone for ScheduledEntry {
    fn clone(&self) -> (r: Self)
        ensures
            r@ == self@,
    {
        ScheduledEntry { title: self.title.clone(), target_secs: self.target_secs, idx: self.idx }
    }
}

/// Does this record take part in the tick: enabled, with a parsable
/// target?
pub open spec fn record_survives(c: CountdownView) -> bool {
    c.enabled && valid_datetime(c.datetime)
}

/// The surviving records of `rs` in order, each valued and numbered by
/// its position among the survivors.
pub open spec fn entry_list(rs: Seq<CountdownView>) -> Seq<EntryView>
    decreases rs.len(),
{
    if rs.len() == 0 {
        Seq::empty()
    } else {
        let rest = entry_list(rs.drop_last());
        let c = rs.last();
        if record_survives(c) {
            rest.push(
                EntryView {
                    title: c.title,
                    target_secs: datetime_secs(c.datetime),
                    idx: rest.len() as int,
                },
            )
        } else {
            rest
        }
    }
}

/// The titles of enabled records whose target does not parse, in order:
/// the tick's diagnostics.
pub open spec fn skipped_list(rs: Seq<CountdownView>) -> Seq<Seq<char>>
    decreases rs.len(),
{
    if rs.len() == 0 {
        Seq::empty()
    } else {
        let rest = skipped_list(rs.drop_last());
        let c = rs.last();
        if c.enabled && !valid_datetime(c.datetime) {
            rest.push(c.title)
        } else {
            rest
        }
    }
}

/// The schedule order: ascending target, ties broken by the original
/// position — the order of a stable sort.
pub open spec fn entry_le(a: EntryView, b: EntryView) -> bool {
    a.target_secs < b.target_secs || (a.target_secs == b.target_secs && a.idx <= b.idx)
}

/// Is `s` sorted in schedule order?
pub open spec fn entries_sorted(s: Seq<EntryView>) -> bool {
    forall|i: int, j: int| 0 <= i <= j < s.len() ==> entry_le(#[trigger] s[i], #[trigger] s[j])
}

/// `e` placed into `s` behind every element that precedes it in schedule
/// order.
pub open spec fn insert_sorted(e: EntryView, s: Seq<EntryView>) -> Seq<EntryView>
    decreases s.len(),
{
    if s.len() == 0 {
        seq![e]
    } else if entry_le(s.last(), e) {
        s.push(e)
    } else {
        insert_sorted(e, s.drop_last()).push(s.last())
    }
}

/// The schedule order of `s`: an insertion sort, element by element.
pub open spec fn sort_entries_spec(s: Seq<EntryView>) -> Seq<EntryView>
    decreases s.len(),
{
    if s.len() == 0 {
        Seq::empty()
    } else {
        insert_sorted(s.last(), sort_entries_spec(s.drop_last()))
    }
}

/// Inserting preserves sortedness and adds exactly the new element.
proof fn lemma_insert_sorted_props(e: EntryView, s: Seq<EntryView>)
    requires
        entries_sorted(s),
    ensures
        entries_sorted(insert_sorted(e, s)),
        insert_sorted(e, s).to_multiset() =~= s.to_multiset().insert(e),
        insert_sorted(e, s).len() == s.len() + 1,
    decreases s.len(),
{
    broadcast use vstd::seq_lib::group_to_multiset_ensures;

    if s.len() == 0 {
        assert(seq![e] =~= Seq::empty().push(e));
    } else if entry_le(s.last(), e) {
        assert forall|i: int, j: int|
            0 <= i <= j < s.push(e).len() implies entry_le(#[trigger] s.push(e)[i], #[trigger] s.push(e)[j]) by {
            if j < s.len() {
                assert(entry_le(s[i], s[j]));
            } else if i < s.len() {
                assert(entry_le(s[i], s.last()));
            }
        }
    } else {
        let rest = s.drop_last();
        assert(entries_sorted(rest)) by {
            assert forall|i: int, j: int|
                0 <= i <= j < rest.len() implies entry_le(#[trigger] rest[i], #[trigger] rest[j]) by {
                assert(entry_le(s[i], s[j]));
            }
        }
        lemma_insert_sorted_props(e, rest);
        let inner = insert_sorted(e, rest);
        let whole = inner.push(s.last());
        assert forall|i: int, j: int|
            0 <= i <= j < whole.len() implies entry_le(#[trigger] whole[i], #[trigger] whole[j]) by {
            if j < inner.len() {
                assert(entry_le(inner[i], inner[j]));
            } else if i < inner.len() {
                // Everything already placed precedes `s.last()`: it is
                // either an old element of `rest`, or `e`, which here
                // precedes `s.last()` because `s.last()` does not precede
                // `e` in the total order.
                assert(inner.to_multiset().count(inner[i]) > 0);
                if inner[i] == e {
                    assert(entry_le(e, s.last()));
                } else {
                    assert(rest.to_multiset().count(inner[i]) > 0);
                    let k = choose|k: int| 0 <= k < rest.len() && rest[k] == inner[i];
                    assert(entry_le(rest[k], s[s.len() - 1]));
                }
            }
        }
        assert(whole.to_multiset() =~= s.to_multiset().insert(e)) by {
            assert(inner.to_multiset() =~= rest.to_multiset().insert(e));
            assert(s =~= rest.push(s.last()));
            assert(s.to_multiset() =~= rest.to_multiset().insert(s.last()));
        }
    }
}

/// Law: sorting yields a sequence in schedule order with exactly the same
/// entries. Because the schedule order breaks target ties by the original
/// position, the sort is stable: records with equal targets keep their
/// relative order.
pub proof fn lemma_sort_entries_props(s: Seq<EntryView>)
    ensures
        entries_sorted(sort_entries_spec(s)),
        sort_entries_spec(s).to_multiset() =~= s.to_multiset(),
        sort_entries_spec(s).len() == s.len(),
    decreases s.len(),
{
    broadcast use vstd::seq_lib::group_to_multiset_ensures;

    if s.len() == 0 {
    } else {
        let rest = s.drop_last();
        lemma_sort_entries_props(rest);
        lemma_insert_sorted_props(s.last(), sort_entries_spec(rest));
        assert(s =~= rest.push(s.last()));
        assert(s.to_multiset() =~= rest.to_multiset().insert(s.last()));
    }
}

/// Law: the rendered order is non-decreasing by target timestamp, ties
/// keep the original relative order, and the sorted schedule holds
/// exactly the surviving records.
pub proof fn lemma_schedule_order(rs: Seq<CountdownView>)
    ensures
        ({
            let sorted = sort_entries_spec(entry_list(rs));
            &&& sorted.to_multiset() =~= entry_list(rs).to_multiset()
            &&& forall|i: int, j: int|
                0 <= i <= j < sorted.len() ==> #[trigger] sorted[i].target_secs
                    <= #[trigger] sorted[j].target_secs
            &&& forall|i: int, j: int|
                0 <= i <= j < sorted.len() && #[trigger] sorted[i].target_secs
                    == #[trigger] sorted[j].target_secs ==> sorted[i].idx <= sorted[j].idx
        }),
{
    lemma_sort_entries_props(entry_list(rs));
}

/// There are never more survivors than records.
pub proof fn lemma_entry_list_len(rs: Seq<CountdownView>)
    ensures
        entry_list(rs).len() <= rs.len(),
    decreases rs.len(),
{
    if rs.len() > 0 {
        lemma_entry_list_len(rs.drop_last());
    }
}

/// Law: one rendered line per surviving record, and a line asks for a
/// notification exactly when its tick observes the target's moment — so a
/// tick at zero fires exactly one notification per record. Successive
/// ticks inside the same zero-second window each observe the moment
/// again; the caller may debounce.
pub proof fn lemma_one_line_per_record(rs: Seq<CountdownView>, now_ms: int)
    ensures
        schedule_lines(rs, now_ms).len() == entry_list(rs).len(),
        forall|k: int|
            0 <= k < schedule_lines(rs, now_ms).len() ==> (#[trigger] schedule_lines(
                rs,
                now_ms,
            )[k]).notify == (whole_seconds(
                sort_entries_spec(entry_list(rs))[k].target_secs * 1000 - now_ms,
            ) == 0),
{
    lemma_sort_entries_props(entry_list(rs));
}

/// Every entry's target is a representable datetime value and its index
/// is its position.
pub proof fn lemma_entry_list_targets(rs: Seq<CountdownView>)
    ensures
        forall|k: int|
            0 <= k < entry_list(rs).len() ==> MIN_DATETIME_SECS <= (#[trigger] entry_list(
                rs,
            )[k]).target_secs <= MAX_DATETIME_SECS && entry_list(rs)[k].idx == k,
    decreases rs.len(),
{
    if rs.len() == 0 {
    } else {
        lemma_entry_list_targets(rs.drop_last());
        let rest = entry_list(rs.drop_last());
        let c = rs.last();
        if record_survives(c) {
            crate::datetime::lemma_datetime_secs_bounds(c.datetime);
            let e = EntryView {
                title: c.title,
                target_secs: datetime_secs(c.datetime),
                idx: rest.len() as int,
            };
            assert(entry_list(rs) =~= rest.push(e));
            assert forall|k: int| 0 <= k < entry_list(rs).len() implies MIN_DATETIME_SECS <= (
            #[trigger] entry_list(rs)[k]).target_secs <= MAX_DATETIME_SECS && entry_list(
                rs,
            )[k].idx == k by {
                if k < rest.len() {
                    assert(entry_list(rs)[k] == rest[k]);
                } else {
                    assert(entry_list(rs)[k] == e);
                }
            }
        } else {
            assert(entry_list(rs) =~= rest);
        }
    }
}

/// Keep the enabled, parsable records, valued and numbered; also report
/// the titles of enabled records that failed to parse.
pub fn build_entries(records: &Vec<Countdown>) -> (r: (Vec<ScheduledEntry>, Vec<String>))
    ensures
        r.0@.map_values(|e: ScheduledEntry| e@) == entry_list(
            records@.map_values(|c: Countdown| c@),
        ),
        r.1@.map_values(|t: String| t@) == skipped_list(records@.map_values(|c: Countdown| c@)),
{
    let ghost rsv = records@.map_values(|c: Countdown| c@);
    let mut entries: Vec<ScheduledEntry> = Vec::new();
    let mut skipped: Vec<String> = Vec::new();
    let mut i: usize = 0;
    while i < records.len()
        invariant
            i <= records.len(),
            rsv == records@.map_values(|c: Countdown| c@),
            rsv.len() == records@.len(),
            entries@.map_values(|e: ScheduledEntry| e@) == entry_list(rsv.take(i as int)),
            skipped@.map_values(|t: String| t@) == skipped_list(rsv.take(i as int)),
        decreases records.len() - i,
    {
        let ghost prefix = rsv.take(i as int);
        let ghost next_prefix = rsv.take(i as int + 1);
        proof {
            assert(next_prefix.drop_last() =~= prefix);
            assert(next_prefix.last() == rsv[i as int]);
            assert(rsv[i as int] == records@[i as int]@);
        }
        let rec = &records[i];
        if rec.enabled {
            match parse_datetime(rec.datetime.as_str()) {
                Some(target) => {
                    let e = ScheduledEntry {
                        title: rec.title.clone(),
                        target_secs: target,
                        idx: entries.len(),
                    };
                    entries.push(e);
                    proof {
                        assert(entries@.map_values(|e: ScheduledEntry| e@) =~= entry_list(
                            next_prefix,
                        ));
                    }
                },
                None => {
                    skipped.push(rec.title.clone());
                    proof {
                        assert(entries@.map_values(|e: ScheduledEntry| e@) =~= entry_list(
                            next_prefix,
                        ));
                        assert(skipped@.map_values(|t: String| t@) =~= skipped_list(next_prefix));
                    }
                },
            }
        }
        proof {
            assert(entries@.map_values(|e: ScheduledEntry| e@) =~= entry_list(next_prefix));
            assert(skipped@.map_values(|t: String| t@) =~= skipped_list(next_prefix));
        }
        i = i + 1;
    }
    proof {
        assert(rsv.take(records@.len() as int) =~= rsv);
    }
    (entries, skipped)
}

/// Does `a` come no later than `b` in schedule order?
fn entry_precedes(a: &ScheduledEntry, b: &ScheduledEntry) -> (r: bool)
    ensures
        r == entry_le(a@, b@),
{
    a.target_secs < b.target_secs || (a.target_secs == b.target_secs && a.idx <= b.idx)
}

/// Where `e` goes in the sorted prefix: `insert_sorted` puts it exactly
/// at the first position from the back whose predecessor precedes it.
proof fn lemma_insert_sorted_at(e: EntryView, s: Seq<EntryView>, pos: int)
    requires
        0 <= pos <= s.len(),
        forall|j: int| pos <= j < s.len() ==> !entry_le(#[trigger] s[j], e),
        pos > 0 ==> entry_le(s[pos - 1], e),
    ensures
        insert_sorted(e, s) =~= s.insert(pos, e),
    decreases s.len(),
{
    if s.len() == 0 {
    } else if pos == s.len() {
        assert(entry_le(s.last(), e));
        assert(s.push(e) =~= s.insert(pos, e));
    } else {
        assert(!entry_le(s.last(), e));
        let rest = s.drop_last();
        lemma_insert_sorted_at(e, rest, pos);
        assert(insert_sorted(e, rest) =~= rest.insert(pos, e));
        assert(insert_sorted(e, rest).push(s.last()) =~= s.insert(pos, e));
    }
}

/// Sort the tick's entries into schedule order.
pub fn sort_entries(entries: &Vec<ScheduledEntry>) -> (r: Vec<ScheduledEntry>)
    ensures
        r@.map_values(|e: ScheduledEntry| e@) == sort_entries_spec(
            entries@.map_values(|e: ScheduledEntry| e@),
        ),
{
    let ghost sv = entries@.map_values(|e: ScheduledEntry| e@);
    let mut out: Vec<ScheduledEntry> = Vec::new();
    let mut i: usize = 0;
    while i < entries.len()
        invariant
            i <= entries.len(),
            sv == entries@.map_values(|e: ScheduledEntry| e@),
            sv.len() == entries@.len(),
            out@.map_values(|e: ScheduledEntry| e@) == sort_entries_spec(sv.take(i as int)),
        decreases entries.len() - i,
    {
        let ghost prefix = sv.take(i as int);
        let ghost next_prefix = sv.take(i as int + 1);
        proof {
            assert(next_prefix.drop_last() =~= prefix);
            assert(next_prefix.last() == sv[i as int]);
            assert(sv[i as int] == entries@[i as int]@);
        }
        let e = entries[i].clone();
        let ghost ev = e@;
        let ghost outv = out@.map_values(|x: ScheduledEntry| x@);
        let mut pos: usize = out.len();
        while pos > 0 && !entry_precedes(&out[pos - 1], &e)
            invariant
                0 <= pos <= out.len(),
                outv == out@.map_values(|x: ScheduledEntry| x@),
                outv.len() == out@.len(),
                ev == e@,
                forall|j: int| pos <= j < outv.len() ==> !entry_le(#[trigger] outv[j], ev),
            decreases pos,
        {
            proof {
                assert(outv[pos - 1] == out@[pos - 1]@);
            }
            pos = pos - 1;
        }
        proof {
            if pos > 0 {
                assert(outv[pos - 1] == out@[pos - 1]@);
                assert(entry_le(outv[pos - 1], ev));
            }
            lemma_insert_sorted_at(ev, outv, pos as int);
        }
        out.insert(pos, e);
        proof {
            assert(out@.map_values(|x: ScheduledEntry| x@) =~= outv.insert(pos as int, ev));
            assert(out@.map_values(|x: ScheduledEntry| x@) =~= sort_entries_spec(next_prefix));
        }
        i = i + 1;
    }
    proof {
        assert(sv.take(entries@.len() as int) =~= sv);
    }
    out
}

/// One rendered countdown line: the title, the whole seconds remaining,
/// the message text, and whether this tick observes the target's moment
/// and must fire its notification.
pub struct CountdownLine {
    pub title: String,
    pub remaining_seconds: i64,
    pub message: String,
    pub notify: bool,
}

/// The mathematical value of a rendered countdown line.
pub struct LineView {
    pub title: Seq<char>,
    pub remaining_seconds: int,
    pub message: Seq<char>,
    pub notify: bool,
}

impl View for CountdownLine {
    type V = LineView;

    open spec fn view(&self) -> LineView {
        LineView {
            title: self.title@,
            remaining_seconds: self.remaining_seconds as int,
            message: self.message@,
            notify: self.notify,
        }
    }
}

/// The line for one entry at wall-clock `now_ms`.
pub open spec fn line_for(e: EntryView, now_ms: int) -> LineView {
    let rem = e.target_secs * 1000 - now_ms;
    LineView {
        title: e.title,
        remaining_seconds: whole_seconds(rem),
        message: message_for(e.title, rem),
        notify: whole_seconds(rem) == 0,
    }
}

/// The whole tick's countdown block at wall-clock `now_ms`: the surviving
/// records, in schedule order, rendered.
pub open spec fn schedule_lines(rs: Seq<CountdownView>, now_ms: int) -> Seq<LineView> {
    sort_entries_spec(entry_list(rs)).map_values(|e: EntryView| line_for(e, now_ms))
}

/// Run one scheduling tick: returns the rendered countdown lines in
/// schedule order, and the titles of enabled records whose target did not
/// parse.
pub fn run_schedule(records: &Vec<Countdown>, now_ms: i64) -> (r: (Vec<CountdownLine>, Vec<String>))
    requires
        -NOW_MS_BOUND <= now_ms <= NOW_MS_BOUND,
    ensures
        r.0@.map_values(|l: CountdownLine| l@) == schedule_lines(
            records@.map_values(|c: Countdown| c@),
            now_ms as int,
        ),
        r.1@.map_values(|t: String| t@) == skipped_list(records@.map_values(|c: Countdown| c@)),
        r.0@.len() <= records@.len(),
{
    let ghost rsv = records@.map_values(|c: Countdown| c@);
    let (entries, skipped) = build_entries(records);
    let sorted = sort_entries(&entries);
    let ghost sortedv = sort_entries_spec(entry_list(rsv));
    proof {
        lemma_entry_list_targets(rsv);
        lemma_sort_entries_props(entry_list(rsv));
        assert forall|k: int| 0 <= k < sortedv.len() implies MIN_DATETIME_SECS <= (
        #[trigger] sortedv[k]).target_secs <= MAX_DATETIME_SECS by {
            broadcast use vstd::seq_lib::group_to_multiset_ensures;

            assert(sortedv.to_multiset().count(sortedv[k]) > 0);
            assert(entry_list(rsv).to_multiset().count(sortedv[k]) > 0);
            let j = choose|j: int|
                0 <= j < entry_list(rsv).len() && entry_list(rsv)[j] == sortedv[k];
            assert(entry_list(rsv)[j] == sortedv[k]);
        }
    }
    let mut lines: Vec<CountdownLine> = Vec::new();
    let mut i: usize = 0;
    while i < sorted.len()
        invariant
            i <= sorted.len(),
            -NOW_MS_BOUND <= now_ms <= NOW_MS_BOUND,
            sorted@.map_values(|e: ScheduledEntry| e@) == sortedv,
            sortedv.len() == sorted@.len(),
            forall|k: int|
                0 <= k < sortedv.len() ==> MIN_DATETIME_SECS <= (#[trigger] sortedv[k]).target_secs
                    <= MAX_DATETIME_SECS,
            lines@.map_values(|l: CountdownLine| l@) == sortedv.take(i as int).map_values(
                |e: EntryView| line_for(e, now_ms as int),
            ),
        decreases sorted.len() - i,
    {
        proof {
            assert(sortedv[i as int] == sorted@[i as int]@);
        }
        let e = &sorted[i];
        let rem: i64 = e.target_secs * 1000 - now_ms;
        let secs = whole_seconds_exec(rem);
        let message = format_message(e.title.as_str(), rem);
        let line = CountdownLine {
            title: e.title.clone(),
            remaining_seconds: secs,
            message,
            notify: secs == 0,
        };
        let ghost linesv = lines@;
        proof {
            assert(line@ == line_for(sortedv[i as int], now_ms as int));
            assert(sortedv.take(i as int + 1) =~= sortedv.take(i as int).push(
                sortedv[i as int],
            ));
        }
        lines.push(line);
        proof {
            assert(lines@.map_values(|l: CountdownLine| l@) =~= linesv.map_values(
                |l: CountdownLine| l@,
            ).push(line@));
            assert(sortedv.take(i as int + 1).map_values(|e: EntryView| line_for(e, now_ms as int))
                =~= sortedv.take(i as int).map_values(|e: EntryView| line_for(e, now_ms as int)).push(
                line_for(sortedv[i as int], now_ms as int),
            ));
        }
        i = i + 1;
    }
    proof {
        assert(sortedv.take(sortedv.len() as int) =~= sortedv);
        assert(lines@.map_values(|l: CountdownLine| l@) =~= schedule_lines(rsv, now_ms as int));
        lemma_entry_list_len(rsv);
        assert(lines@.len() <= records@.len());
    }
    (lines, skipped)
}

} // verus!
