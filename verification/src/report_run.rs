//! Carrying out an hourly report: which reads follow each other, and what
//! comes of them.

use std::collections::HashMap;

use vstd::prelude::*;

use crate::completeness;
use crate::detail::{HourlyDetailGroupAgg, ScanRow};
use crate::hourly;
use crate::report;
use crate::sql;
use crate::sql::Statement;
use crate::window;
use crate::window::{ReportWindow, StoredRow};

verus! {

/// What is to be read next for a report.
#[derive(Debug)]
pub enum ReportAction {
    /// The summaries, by this statement.
    ReadStored(Statement),
    /// The log from the first instant up to the second.
    Scan(u64, u64),
    /// Nothing: the figures are complete.
    Finish,
}

/// A report that is being put together.
pub struct ReportRun {
    window: ReportWindow,
    table: HashMap<u64, Vec<HourlyDetailGroupAgg>>,
    /// Whether the summaries have been read, or are not read at all.
    stored_done: bool,
    /// The spans that are being scanned.
    spans: Vec<(u64, u64)>,
    /// How many of them have been scanned.
    scanned: usize,
    /// Whether the spans are those of the missing hours.
    in_missing: bool,
    lists: Ghost<Seq<Seq<HourlyDetailGroupAgg>>>,
}

/// How far a report has come.
pub struct RunModel {
    pub window: ReportWindow,
    /// The figures of each read so far: the summaries, the spans that are
    /// always scanned, and the spans of the missing hours.
    pub lists: Seq<Seq<HourlyDetailGroupAgg>>,
    /// The spans of the missing hours, once they are known.
    pub missing_spans: Option<Seq<(u64, u64)>>,
}

impl View for ReportRun {
    type V = RunModel;

    closed spec fn view(&self) -> RunModel {
        RunModel {
            window: self.window,
            lists: self.lists@,
            missing_spans: if self.in_missing {
                Some(self.spans@)
            } else {
                None
            },
        }
    }
}

/// The number of spans that are always scanned.
pub open spec fn live_count(w: ReportWindow) -> nat {
    completeness::live_spans(w).len()
}

/// The spans are those of the finished hours without figures in the first
/// reads: the summaries and the spans that are always scanned.
pub open spec fn missing_after(
    w: ReportWindow,
    first: Seq<Seq<HourlyDetailGroupAgg>>,
    spans: Seq<(u64, u64)>,
) -> bool {
    if w.stored_from < w.current_hour {
        hourly::are_missing_ranges(
            spans,
            completeness::figures_of_lists(first).dom(),
            w.stored_from,
            w.current_hour,
        )
    } else {
        spans.len() == 0
    }
}

/// The reads so far are those that a report on the window makes, in order.
pub open spec fn in_progress(m: RunModel) -> bool {
    &&& window::spans_in_range(m.window)
    &&& match m.missing_spans {
        None => m.lists.len() < 1 + live_count(m.window),
        Some(spans) => {
            let n = 1 + live_count(m.window);
            &&& n <= m.lists.len() <= n + spans.len()
            &&& missing_after(m.window, m.lists.take(n as int), spans)
        },
    }
}

/// The read that comes next: `None` for the summaries.
pub open spec fn next_span(m: RunModel) -> Option<(u64, u64)> {
    if m.lists.len() == 0 {
        None
    } else {
        match m.missing_spans {
            None => Some(completeness::live_spans(m.window)[m.lists.len() - 1]),
            Some(spans) => Some(spans[m.lists.len() - 1 - live_count(m.window)]),
        }
    }
}

/// Every read has been made.
pub open spec fn is_complete(m: RunModel) -> bool {
    m.missing_spans matches Some(spans) && m.lists.len() == 1 + live_count(m.window) + spans.len()
}

/// The statement that reads the summaries of the window.
pub open spec fn stored_command(w: ReportWindow) -> sql::Command {
    window::span_command(
        window::HOURLY_DETAIL_STORED_SQL@,
        hourly::signed(w.stored_from),
        hourly::signed(w.current_hour),
    )
}

/// One more read has been made.
pub open spec fn with_read(before: RunModel, after: RunModel, list: Seq<HourlyDetailGroupAgg>) -> bool {
    &&& after.window == before.window
    &&& after.lists == before.lists.push(list)
    &&& before.missing_spans is Some ==> after.missing_spans == before.missing_spans
}

impl ReportRun {
    /// The reads are in order, and the figures are those of the reads.
    pub closed spec fn wf(self) -> bool {
        &&& in_progress(self@)
        &&& report::figures_in(self.table@) == completeness::figures_of_lists(self.lists@)
        &&& self.stored_done == (self.lists@.len() > 0)
        &&& !self.stored_done ==> !self.in_missing
        &&& self.stored_done && !self.in_missing ==> self.spans@ == completeness::live_spans(
            self.window,
        ) && self.scanned == self.lists@.len() - 1
        &&& self.in_missing ==> self.scanned == self.lists@.len() - 1 - live_count(self.window)
        &&& self.scanned <= self.spans@.len()
        &&& !self.stored_done ==> self.window.stored_from < self.window.current_hour
    }

    /// Begins a report; `table_exists` tells whether there is a table of summaries.
    pub fn start(window: ReportWindow, table_exists: bool) -> (r: Self)
        requires
            window::spans_in_range(window),
        ensures
            r.wf(),
            in_progress(r@),
            r@.window == window,
            r@.lists == if table_exists && window.stored_from < window.current_hour {
                Seq::<Seq<HourlyDetailGroupAgg>>::empty()
            } else {
                seq![Seq::<HourlyDetailGroupAgg>::empty()]
            },
    {
        let mut run = ReportRun {
            window,
            table: HashMap::new(),
            stored_done: false,
            spans: Vec::new(),
            scanned: 0,
            in_missing: false,
            lists: Ghost(Seq::empty()),
        };
        assert(report::figures_in(run.table@) =~= Map::empty());
        if !(table_exists && window.stored_from < window.current_hour) {
            let ghost none = seq![Seq::<HourlyDetailGroupAgg>::empty()];
            run.lists = Ghost(none);
            proof {
                lemma_one_empty_list();
            }
            run.begin_scans();
            assert(run.lists@ =~= seq![Seq::<HourlyDetailGroupAgg>::empty()]);
        }
        run
    }

    /// Turns to the spans that are always scanned.
    fn begin_scans(&mut self)
        requires
            window::spans_in_range(old(self).window),
            report::figures_in(old(self).table@) == completeness::figures_of_lists(old(self).lists@),
            old(self).lists@.len() == 1,
            !old(self).in_missing,
        ensures
            final(self).wf(),
            final(self).window == old(self).window,
            final(self).lists@ == old(self).lists@,
    {
        self.stored_done = true;
        self.spans = self.window.live_spans();
        self.scanned = 0;
        if self.spans.len() == 0 {
            self.begin_missing();
        }
    }

    /// Turns to the spans of the missing hours.
    fn begin_missing(&mut self)
        requires
            window::spans_in_range(old(self).window),
            report::figures_in(old(self).table@) == completeness::figures_of_lists(old(self).lists@),
            old(self).lists@.len() == 1 + live_count(old(self).window),
            old(self).stored_done,
            !old(self).in_missing,
        ensures
            final(self).wf(),
            final(self).window == old(self).window,
            final(self).lists@ == old(self).lists@,
    {
        self.spans = self.window.missing_spans(&self.table);
        self.scanned = 0;
        self.in_missing = true;
        assert(self.lists@.take(self.lists@.len() as int) =~= self.lists@);
    }

    /// What is to be read next.
    pub fn next(&self) -> (r: ReportAction)
        requires
            self.wf(),
        ensures
            match r {
                ReportAction::ReadStored(s) => self@.lists.len() == 0 && s@ == stored_command(
                    self@.window,
                ),
                ReportAction::Scan(start, end) => !is_complete(self@) && next_span(self@) == Some(
                    (start, end),
                ),
                ReportAction::Finish => is_complete(self@),
            },
    {
        if !self.stored_done {
            if let Some(s) = self.window.stored_query(true) {
                return ReportAction::ReadStored(s);
            }
        }
        if self.scanned < self.spans.len() {
            let span = self.spans[self.scanned];
            ReportAction::Scan(span.0, span.1)
        } else {
            ReportAction::Finish
        }
    }

    /// The summaries were read.
    pub fn stored(&mut self, rows: Vec<StoredRow>)
        requires
            old(self).wf(),
            old(self)@.lists.len() == 0,
        ensures
            final(self).wf(),
            in_progress(final(self)@),
            with_read(
                old(self)@,
                final(self)@,
                Seq::new(rows@.len(), |i: int| window::row_figures(rows@[i])),
            ),
    {
        let aggs = window::stored_aggs(rows);
        self.add(aggs);
        self.begin_scans();
    }

    fn add(&mut self, aggs: Vec<HourlyDetailGroupAgg>)
        requires
            report::figures_in(old(self).table@) == completeness::figures_of_lists(old(self).lists@),
        ensures
            report::figures_in(final(self).table@) == completeness::figures_of_lists(final(self).lists@),
            final(self).lists@ == old(self).lists@.push(aggs@),
            final(self).window == old(self).window,
            final(self).stored_done == old(self).stored_done,
            final(self).spans == old(self).spans,
            final(self).scanned == old(self).scanned,
            final(self).in_missing == old(self).in_missing,
    {
        let ghost before = self.lists@;
        let ghost list = aggs@;
        report::push_hourly_detail_aggs(&mut self.table, aggs);
        self.lists = Ghost(before.push(list));
        assert(before.push(list).drop_last() =~= before);
    }

    /// A span was scanned.
    pub fn scanned(&mut self, aggs: Vec<HourlyDetailGroupAgg>)
        requires
            old(self).wf(),
            old(self)@.lists.len() > 0,
            !is_complete(old(self)@),
        ensures
            final(self).wf(),
            in_progress(final(self)@),
            with_read(old(self)@, final(self)@, aggs@),
    {
        let ghost before = *self;
        let all: usize = self.spans.len();
        assert(self.scanned < all);
        self.add(aggs);
        self.scanned = self.scanned + 1;
        if self.in_missing {
            proof {
                let n = 1 + live_count(self.window) as int;
                assert(self.lists@.take(n) =~= before.lists@.take(n));
            }
        } else if self.scanned == all {
            self.begin_missing();
        }
    }

    /// The figures of the report.
    pub fn finish(self) -> (r: HashMap<u64, Vec<HourlyDetailGroupAgg>>)
        requires
            self.wf(),
            is_complete(self@),
        ensures
            report::figures_in(r@) == completeness::figures_of_lists(self@.lists),
    {
        self.table
    }
}

proof fn lemma_one_empty_list()
    ensures
        completeness::figures_of_lists(seq![Seq::<HourlyDetailGroupAgg>::empty()]) == Map::<
            u64,
            Seq<HourlyDetailGroupAgg>,
        >::empty(),
{
    let lists = seq![Seq::<HourlyDetailGroupAgg>::empty()];
    assert(lists.drop_last() =~= Seq::<Seq<HourlyDetailGroupAgg>>::empty());
    assert(completeness::figures_of_lists(lists.drop_last()) == Map::<
        u64,
        Seq<HourlyDetailGroupAgg>,
    >::empty());
}

/// A complete report, seen as the sources of its figures.
pub open spec fn sources_of_run(m: RunModel, kept: Set<u64>) -> completeness::Sources {
    let n = 1 + live_count(m.window) as int;
    completeness::Sources {
        kept,
        stored: m.lists[0],
        live: m.lists.subrange(1, n),
        missing_spans: m.missing_spans->0,
        missing: m.lists.skip(n),
    }
}

/// Each read of a complete report gave what the log holds: the summaries are up
/// to date for the hours that the table holds, which are finished hours of the
/// window, and each scan summed up its span.
pub open spec fn is_faithful(
    m: RunModel,
    kept: Set<u64>,
    log: Seq<ScanRow>,
    local_offset_secs: i64,
    total: spec_fn(Seq<u64>) -> u64,
) -> bool {
    &&& in_progress(m)
    &&& is_complete(m)
    &&& forall|h: u64| #[trigger]
        kept.contains(h) ==> hourly::on_grid(m.window.stored_from, h as int) && h
            < m.window.current_hour
    &&& completeness::summary_of(
        m.lists[0],
        log.filter(completeness::in_hours(kept, local_offset_secs)),
        local_offset_secs,
        total,
    )
    &&& completeness::scans_of(
        sources_of_run(m, kept).live,
        completeness::live_spans(m.window),
        log,
        local_offset_secs,
        total,
    )
    &&& completeness::scans_of(
        sources_of_run(m, kept).missing,
        m.missing_spans->0,
        log,
        local_offset_secs,
        total,
    )
}

/// The span of a read that is a scan.
pub open spec fn span_of_read(m: RunModel, i: int) -> (u64, u64) {
    let live = completeness::live_spans(m.window);
    if i - 1 < live.len() {
        live[i - 1]
    } else {
        m.missing_spans->0[i - 1 - live.len()]
    }
}

/// Each read so far gave what the log holds.
pub open spec fn is_faithful_so_far(
    m: RunModel,
    kept: Set<u64>,
    log: Seq<ScanRow>,
    local_offset_secs: i64,
    total: spec_fn(Seq<u64>) -> u64,
) -> bool {
    &&& m.lists.len() > 0 ==> completeness::summary_of(
        m.lists[0],
        log.filter(completeness::in_hours(kept, local_offset_secs)),
        local_offset_secs,
        total,
    )
    &&& forall|i: int|
        1 <= i < m.lists.len() ==> completeness::summary_of(
            #[trigger] m.lists[i],
            log.filter(completeness::in_span(span_of_read(m, i))),
            local_offset_secs,
            total,
        )
}

/// Carrying out the read that is asked for keeps a report faithful: where the
/// summaries that were read are those of the log, and a scan that was asked for
/// summed up the rows of its span, so is the report with that read.
pub proof fn law_reads_are_those_that_are_asked_for(
    before: RunModel,
    after: RunModel,
    list: Seq<HourlyDetailGroupAgg>,
    kept: Set<u64>,
    log: Seq<ScanRow>,
    local_offset_secs: i64,
    total: spec_fn(Seq<u64>) -> u64,
)
    requires
        in_progress(before),
        in_progress(after),
        !is_complete(before),
        with_read(before, after, list),
        is_faithful_so_far(before, kept, log, local_offset_secs, total),
        completeness::summary_of(
            list,
            match next_span(before) {
                None => log.filter(completeness::in_hours(kept, local_offset_secs)),
                Some(span) => log.filter(completeness::in_span(span)),
            },
            local_offset_secs,
            total,
        ),
    ensures
        is_faithful_so_far(after, kept, log, local_offset_secs, total),
{
    let n = before.lists.len() as int;
    assert forall|i: int| 1 <= i < after.lists.len() implies completeness::summary_of(
        #[trigger] after.lists[i],
        log.filter(completeness::in_span(span_of_read(after, i))),
        local_offset_secs,
        total,
    ) by {
        if i < n {
            assert(after.lists[i] == before.lists[i]);
            assert(span_of_read(after, i) == span_of_read(before, i));
        } else {
            assert(after.lists[i] == list);
            assert(Some(span_of_read(after, i)) == next_span(before));
        }
    }
    if n > 0 {
        assert(after.lists[0] == before.lists[0]);
    }
}

/// A report whose reads were all made and were faithful is faithful as a whole.
pub proof fn law_faithful_reads_make_a_faithful_report(
    m: RunModel,
    kept: Set<u64>,
    log: Seq<ScanRow>,
    local_offset_secs: i64,
    total: spec_fn(Seq<u64>) -> u64,
)
    requires
        in_progress(m),
        is_complete(m),
        is_faithful_so_far(m, kept, log, local_offset_secs, total),
        forall|h: u64| #[trigger]
            kept.contains(h) ==> hourly::on_grid(m.window.stored_from, h as int) && h
                < m.window.current_hour,
    ensures
        is_faithful(m, kept, log, local_offset_secs, total),
{
    let n = 1 + live_count(m.window) as int;
    let live = sources_of_run(m, kept).live;
    let missing = sources_of_run(m, kept).missing;
    let spans = completeness::live_spans(m.window);
    assert forall|i: int| 0 <= i < live.len() implies completeness::summary_of(
        #[trigger] live[i],
        log.filter(completeness::in_span(spans[i])),
        local_offset_secs,
        total,
    ) by {
        assert(live[i] == m.lists[i + 1]);
        assert(span_of_read(m, i + 1) == spans[i]);
    }
    assert forall|i: int| 0 <= i < missing.len() implies completeness::summary_of(
        #[trigger] missing[i],
        log.filter(completeness::in_span(m.missing_spans->0[i])),
        local_offset_secs,
        total,
    ) by {
        assert(missing[i] == m.lists[n + i]);
        assert(span_of_read(m, n + i) == m.missing_spans->0[i]);
    }
}

/// Without a table of summaries a report begins as if the table held no hour.
pub proof fn law_report_without_a_table_is_faithful(
    m: RunModel,
    log: Seq<ScanRow>,
    local_offset_secs: i64,
    total: spec_fn(Seq<u64>) -> u64,
)
    requires
        m.lists == seq![Seq::<HourlyDetailGroupAgg>::empty()],
    ensures
        is_faithful_so_far(m, Set::empty(), log, local_offset_secs, total),
{
    log.lemma_all_neg_filter_empty(completeness::in_hours(Set::empty(), local_offset_secs));
}

/// The rows of the log in the window, as far as they fall into an hour.
pub open spec fn window_rows(
    log: Seq<ScanRow>,
    start: u64,
    hour: u64,
    local_offset_secs: i64,
) -> Seq<ScanRow> {
    log.filter(completeness::in_span((start, u64::MAX))).filter(
        completeness::in_hour(hour, local_offset_secs),
    )
}

/// A report that was carried out to its end has, for every hour, what one scan
/// of the whole window would give.
pub proof fn law_finished_report_equals_one_scan(
    m: RunModel,
    now_ms: u64,
    local_offset_secs: i64,
    kept: Set<u64>,
    log: Seq<ScanRow>,
    total: spec_fn(Seq<u64>) -> u64,
    hour: u64,
)
    requires
        is_faithful(m, kept, log, local_offset_secs, total),
        m.window == window::window_from(now_ms, local_offset_secs, m.window.window_start),
        completeness::times_in_range(now_ms, local_offset_secs, m.window.window_start),
    ensures
        ({
            let figures = completeness::figures_of_lists(m.lists);
            let rows = window_rows(log, m.window.window_start, hour, local_offset_secs);
            &&& completeness::summary_of(
                completeness::figures_at(figures, hour),
                rows,
                local_offset_secs,
                total,
            )
            &&& figures.dom().contains(hour) <==> rows.len() > 0
        }),
{
    let src = sources_of_run(m, kept);
    let n = 1 + live_count(m.window) as int;
    assert(seq![src.stored] + src.live =~= m.lists.take(n));
    assert(seq![src.stored] + src.live + src.missing =~= m.lists);
    completeness::law_report_equals_one_scan(
        now_ms,
        local_offset_secs,
        m.window.window_start,
        src,
        log,
        total,
        hour,
    );
}

} // verus!
