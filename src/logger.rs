//! Outputs, their builder, and the logger that fans records out to them.

use vstd::prelude::*;
use crate::level::{Level, LevelFilter, lemma_ord_injective};
use crate::format::{Record, format_line, spec_format_line, lacks};

verus! {

#[verifier::external_type_specification]
#[verifier::external_body]
#[verifier::reject_recursive_types(T)]
pub struct ExMutex<T: ?Sized>(std::sync::Mutex<T>);

pub assume_specification<T>[ std::sync::Mutex::<T>::new ](t: T) -> std::sync::Mutex<T>;

/// How each record is stamped with the local time: ISO 8601 with milliseconds and
/// the offset from UTC.
pub const TIMESTAMP_FORMAT: &'static str = "%Y-%m-%dT%H:%M:%S%.3f%:z";

/// Relies on chrono's `Local::now` and `DateTime::format`: the current local time
/// written after `pattern`, which is always `TIMESTAMP_FORMAT` (a pattern that chrono
/// cannot read would make the formatting fail). The time depends on the clock; of the
/// text, that pattern yields only digits and the separators `-`, `T`, `:`, `.`, `+`,
/// so it holds no escape character.
#[verifier::external_body]
fn local_timestamp(pattern: &str) -> (r: String)
    requires
        pattern@ == TIMESTAMP_FORMAT@,
    ensures
        lacks(r@, '\u{1b}'),
{
    chrono::Local::now().format(pattern).to_string()
}

/// What to do with one record at one output.
pub struct Delivery {
    /// The line to write, if the output takes the record.
    pub line: Option<String>,
    /// Whether to flush the output afterwards.
    pub flush: bool,
}

/// An output that will be logged to: a lock around the endpoint, the most verbose
/// severity that it takes, whether it is styled for a terminal, and whether it is
/// flushed after each record.
#[verifier::reject_recursive_types(E)]
pub struct Output<E> {
    endpoint: std::sync::Mutex<E>,
    flush_on_newline: bool,
    filter: LevelFilter,
    ansi: bool,
}

/// A builder of an [`Output`]; what is left unset takes its default at `build`.
pub struct OutputBuilder<E> {
    endpoint: E,
    flush_on_newline: Option<bool>,
    filter: Option<LevelFilter>,
    ansi: Option<bool>,
}

impl<E> OutputBuilder<E> {
    pub closed spec fn spec_endpoint(&self) -> E {
        self.endpoint
    }

    pub closed spec fn spec_flush_on_newline(&self) -> Option<bool> {
        self.flush_on_newline
    }

    pub closed spec fn spec_filter(&self) -> Option<LevelFilter> {
        self.filter
    }

    pub closed spec fn spec_ansi(&self) -> Option<bool> {
        self.ansi
    }

    /// A builder over `endpoint` with nothing else set.
    pub fn with_endpoint(endpoint: E) -> (r: Self)
        ensures
            r.spec_endpoint() == endpoint,
            r.spec_flush_on_newline() is None,
            r.spec_filter() is None,
            r.spec_ansi() is None,
    {
        Self::with_dyn_endpoint(endpoint)
    }

    /// A builder over an endpoint that is already boxed, with nothing else set.
    pub fn with_dyn_endpoint(endpoint: E) -> (r: Self)
        ensures
            r.spec_endpoint() == endpoint,
            r.spec_flush_on_newline() is None,
            r.spec_filter() is None,
            r.spec_ansi() is None,
    {
        OutputBuilder { endpoint, flush_on_newline: None, filter: None, ansi: None }
    }

    pub fn flush_on_newline(self, flush: bool) -> (r: Self)
        ensures
            r.spec_endpoint() == self.spec_endpoint(),
            r.spec_flush_on_newline() == Some(flush),
            r.spec_filter() == self.spec_filter(),
            r.spec_ansi() == self.spec_ansi(),
    {
        OutputBuilder { flush_on_newline: Some(flush), ..self }
    }

    pub fn with_filter(self, filter: LevelFilter) -> (r: Self)
        ensures
            r.spec_endpoint() == self.spec_endpoint(),
            r.spec_flush_on_newline() == self.spec_flush_on_newline(),
            r.spec_filter() == Some(filter),
            r.spec_ansi() == self.spec_ansi(),
    {
        OutputBuilder { filter: Some(filter), ..self }
    }

    pub fn with_ansi_escape_codes(self) -> (r: Self)
        ensures
            r.spec_endpoint() == self.spec_endpoint(),
            r.spec_flush_on_newline() == self.spec_flush_on_newline(),
            r.spec_filter() == self.spec_filter(),
            r.spec_ansi() == Some(true),
    {
        OutputBuilder { ansi: Some(true), ..self }
    }

    /// The output, with the filter `Info`, flushing on, and styling off where unset.
    pub fn build(self) -> (r: Output<E>)
        ensures
            r.spec_filter() == match self.spec_filter() {
                Some(f) => f,
                None => LevelFilter::Info,
            },
            r.spec_flush_on_newline() == match self.spec_flush_on_newline() {
                Some(b) => b,
                None => true,
            },
            r.spec_ansi() == match self.spec_ansi() {
                Some(b) => b,
                None => false,
            },
    {
        let filter = match self.filter {
            Some(f) => f,
            None => LevelFilter::Info,
        };
        let flush_on_newline = match self.flush_on_newline {
            Some(b) => b,
            None => true,
        };
        let ansi = match self.ansi {
            Some(b) => b,
            None => false,
        };
        Output { endpoint: std::sync::Mutex::new(self.endpoint), flush_on_newline, filter, ansi }
    }
}

impl<E> Output<E> {
    pub closed spec fn spec_filter(&self) -> LevelFilter {
        self.filter
    }

    pub closed spec fn spec_flush_on_newline(&self) -> bool {
        self.flush_on_newline
    }

    pub closed spec fn spec_ansi(&self) -> bool {
        self.ansi
    }

    /// The lock around the endpoint.
    pub closed spec fn spec_endpoint(&self) -> std::sync::Mutex<E> {
        self.endpoint
    }

    /// The same output with its filter replaced.
    pub closed spec fn refiltered(self, f: LevelFilter) -> Self {
        Output { filter: f, ..self }
    }

    pub fn filter(&self) -> (r: LevelFilter)
        ensures
            r == self.spec_filter(),
    {
        self.filter
    }

    pub fn flushes_on_newline(&self) -> (r: bool)
        ensures
            r == self.spec_flush_on_newline(),
    {
        self.flush_on_newline
    }

    pub fn ansi(&self) -> (r: bool)
        ensures
            r == self.spec_ansi(),
    {
        self.ansi
    }

    /// The lock around the endpoint.
    pub fn endpoint(&self) -> (r: &std::sync::Mutex<E>)
        ensures
            *r == self.spec_endpoint(),
    {
        &self.endpoint
    }

    /// Whether this output writes a record of severity `level`.
    pub fn accepts(&self, level: Level) -> (r: bool)
        ensures
            r == self.spec_filter().admits_spec(level),
    {
        self.filter.admits(level)
    }

    /// What this output does with `record` when the time reads `time`: it writes the
    /// record's line, in its own style, exactly when its filter takes the severity,
    /// and flushes whenever its policy says so.
    pub open spec fn renders(&self, time: Seq<char>, record: &Record, d: &Delivery) -> bool {
        &&& d.flush == self.spec_flush_on_newline()
        &&& match d.line {
            Some(l) => self.spec_filter().admits_spec(record.level)
                && l@ == spec_format_line(self.spec_ansi(), time, record.spec_origin(),
                    record.line, record.level, record.message@),
            None => !self.spec_filter().admits_spec(record.level),
        }
    }

    /// Renders `record` for this output at `time`.
    pub fn render(&self, time: &str, record: &Record) -> (d: Delivery)
        ensures
            self.renders(time@, record, &d),
    {
        let line = if self.accepts(record.level) {
            Some(format_line(self.ansi, time, record.origin(), record.line, record.level, record.message.as_str()))
        } else {
            None
        };
        Delivery { line, flush: self.flush_on_newline }
    }
}

/// The most verbose filter in `s`, if `s` is not empty.
pub open spec fn ceiling_of(s: Seq<LevelFilter>) -> Option<LevelFilter>
    decreases s.len(),
{
    if s.len() == 0 {
        None
    } else {
        match ceiling_of(s.drop_last()) {
            Some(c) => Some(c.spec_max(s.last())),
            None => Some(s.last()),
        }
    }
}

/// The least verbose filter in `s`, if `s` is not empty.
pub open spec fn floor_of(s: Seq<LevelFilter>) -> Option<LevelFilter>
    decreases s.len(),
{
    if s.len() == 0 {
        None
    } else {
        match floor_of(s.drop_last()) {
            Some(c) => Some(c.spec_min(s.last())),
            None => Some(s.last()),
        }
    }
}

/// A filter after the overrides: no more verbose than `max`, then no less verbose
/// than `min`.
pub open spec fn clamp(f: LevelFilter, min: Option<LevelFilter>, max: Option<LevelFilter>) -> LevelFilter {
    let capped = match max {
        Some(m) => f.spec_min(m),
        None => f,
    };
    match min {
        Some(m) => capped.spec_max(m),
        None => capped,
    }
}

/// Neither override lies above the other, where both are set.
pub open spec fn consistent(min: Option<LevelFilter>, max: Option<LevelFilter>) -> bool {
    (min matches Some(m) && max matches Some(x)) ==> min.unwrap().ord() <= max.unwrap().ord()
}

/// Clamping twice by the same overrides is clamping once.
pub proof fn lemma_clamp_idempotent(f: LevelFilter, min: Option<LevelFilter>, max: Option<LevelFilter>)
    ensures
        clamp(clamp(f, min, max), min, max) == clamp(f, min, max),
{
    let c = clamp(f, min, max);
    if let Some(m) = min {
        lemma_ord_injective(c, m);
    }
    if let Some(x) = max {
        lemma_ord_injective(c, x);
        lemma_ord_injective(f, x);
    }
}

/// A filter already clamped by consistent overrides, then clamped with a new least
/// verbose filter, is raised to that filter.
proof fn lemma_min_override_exact(f: LevelFilter, min0: Option<LevelFilter>, max: Option<LevelFilter>, min: LevelFilter)
    requires
        f == clamp(f, min0, max),
        consistent(min0, max),
    ensures
        clamp(f, Some(min), max) == f.spec_max(min),
{
    lemma_ord_injective(f, min);
    if let Some(x) = max {
        lemma_ord_injective(f, x);
        lemma_ord_injective(x, min);
    }
    if let Some(m) = min0 {
        lemma_ord_injective(f, m);
    }
}

/// A filter already clamped, then clamped with a new most verbose filter that lies at
/// or above the least verbose one, is lowered to it.
proof fn lemma_max_override_exact(f: LevelFilter, min0: Option<LevelFilter>, max0: Option<LevelFilter>, max: LevelFilter)
    requires
        f == clamp(f, min0, max0),
        consistent(min0, Some(max)),
    ensures
        clamp(f, min0, Some(max)) == f.spec_min(max),
{
    lemma_ord_injective(f, max);
    if let Some(m) = min0 {
        lemma_ord_injective(f, m);
        lemma_ord_injective(m, max);
    }
    if let Some(x) = max0 {
        lemma_ord_injective(f, x);
    }
}

/// The ceiling bounds every filter of `s` and is one of them.
pub proof fn lemma_ceiling_is_max(s: Seq<LevelFilter>)
    ensures
        ceiling_of(s) is None <==> s.len() == 0,
        ceiling_of(s) matches Some(c) ==> {
            &&& forall|i: int| 0 <= i < s.len() ==> #[trigger] s[i].ord() <= c.ord()
            &&& exists|i: int| 0 <= i < s.len() && s[i] == c
        },
    decreases s.len(),
{
    if s.len() > 0 {
        let t = s.drop_last();
        lemma_ceiling_is_max(t);
        assert forall|i: int| 0 <= i < t.len() implies t[i] == s[i] by {}
        match ceiling_of(t) {
            Some(c) => {
                let i0 = choose|i: int| 0 <= i < t.len() && t[i] == c;
                assert(s[i0] == c);
                assert(s[s.len() - 1] == s.last());
            },
            None => {
                assert(s[s.len() - 1] == s.last());
            },
        }
    }
}

/// The logger: its outputs in the order they were added, the overrides, and the
/// most and least verbose filters among the outputs.
#[verifier::reject_recursive_types(E)]
pub struct RedoxLogger<E> {
    outputs: Vec<Output<E>>,
    min_filter: Option<LevelFilter>,
    max_filter: Option<LevelFilter>,
    max_level_in_use: Option<LevelFilter>,
    min_level_in_use: Option<LevelFilter>,
}

impl<E> RedoxLogger<E> {
    pub closed spec fn spec_outputs(&self) -> Seq<Output<E>> {
        self.outputs@
    }

    /// The filters of the outputs, in order.
    pub open spec fn filters(&self) -> Seq<LevelFilter> {
        self.spec_outputs().map_values(|o: Output<E>| o.spec_filter())
    }

    pub closed spec fn spec_min_override(&self) -> Option<LevelFilter> {
        self.min_filter
    }

    pub closed spec fn spec_max_override(&self) -> Option<LevelFilter> {
        self.max_filter
    }

    /// The most verbose filter in use.
    pub closed spec fn spec_max_level_in_use(&self) -> Option<LevelFilter> {
        self.max_level_in_use
    }

    /// The least verbose filter in use.
    pub closed spec fn spec_min_level_in_use(&self) -> Option<LevelFilter> {
        self.min_level_in_use
    }

    /// The levels in use are those of the current outputs.
    pub open spec fn levels_current(&self) -> bool {
        &&& self.spec_max_level_in_use() == ceiling_of(self.filters())
        &&& self.spec_min_level_in_use() == floor_of(self.filters())
    }

    /// Every output's filter is already as the overrides leave it.
    pub open spec fn filters_clamped(&self) -> bool {
        forall|i: int| 0 <= i < self.filters().len() ==> #[trigger] self.filters()[i] == self.effective(self.filters()[i])
    }

    pub open spec fn wf(&self) -> bool {
        &&& self.levels_current()
        &&& self.filters_clamped()
    }

    /// Output `i` of `r` is output `i` of `self` with only its filter changed.
    pub open spec fn same_but_filter(self, r: Self, i: int) -> bool {
        &&& r.spec_outputs()[i].spec_ansi() == self.spec_outputs()[i].spec_ansi()
        &&& r.spec_outputs()[i].spec_flush_on_newline() == self.spec_outputs()[i].spec_flush_on_newline()
        &&& r.spec_outputs()[i].spec_endpoint() == self.spec_outputs()[i].spec_endpoint()
    }

    /// A filter as the overrides leave it.
    pub open spec fn effective(&self, f: LevelFilter) -> LevelFilter {
        clamp(f, self.spec_min_override(), self.spec_max_override())
    }

    /// A logger with no outputs and no overrides.
    pub fn new() -> (r: Self)
        ensures
            r.wf(),
            r.spec_outputs().len() == 0,
            r.spec_min_override() is None,
            r.spec_max_override() is None,
    {
        let r = RedoxLogger {
            outputs: Vec::new(),
            min_filter: None,
            max_filter: None,
            max_level_in_use: None,
            min_level_in_use: None,
        };
        assert(r.filters() =~= Seq::<LevelFilter>::empty());
        r
    }

    /// Applies the overrides to the filter of `output`.
    fn adjust_output_level(max_filter: Option<LevelFilter>, min_filter: Option<LevelFilter>, output: &mut Output<E>)
        ensures
            *final(output) == old(output).refiltered(clamp(old(output).spec_filter(), min_filter, max_filter)),
    {
        if let Some(max) = max_filter {
            output.filter = output.filter.less_verbose(max);
        }
        if let Some(min) = min_filter {
            output.filter = output.filter.more_verbose(min);
        }
        proof {
            let c = clamp(old(output).spec_filter(), min_filter, max_filter);
            assert(output.filter == c);
        }
    }

    /// The filters of the outputs and the most and least verbose of them.
    fn levels_in_use(outputs: &Vec<Output<E>>) -> (r: (Option<LevelFilter>, Option<LevelFilter>))
        ensures
            r.0 == ceiling_of(outputs@.map_values(|o: Output<E>| o.spec_filter())),
            r.1 == floor_of(outputs@.map_values(|o: Output<E>| o.spec_filter())),
    {
        let ghost fs = outputs@.map_values(|o: Output<E>| o.spec_filter());
        let mut hi: Option<LevelFilter> = None;
        let mut lo: Option<LevelFilter> = None;
        let mut i: usize = 0;
        while i < outputs.len()
            invariant
                0 <= i <= outputs.len(),
                fs == outputs@.map_values(|o: Output<E>| o.spec_filter()),
                hi == ceiling_of(fs.take(i as int)),
                lo == floor_of(fs.take(i as int)),
            decreases outputs.len() - i,
        {
            let f = outputs[i].filter();
            proof {
                assert(fs.take(i + 1).drop_last() =~= fs.take(i as int));
                assert(fs.take(i + 1).last() == f);
            }
            hi = match hi {
                Some(c) => Some(c.more_verbose(f)),
                None => Some(f),
            };
            lo = match lo {
                Some(c) => Some(c.less_verbose(f)),
                None => Some(f),
            };
            i = i + 1;
        }
        assert(fs.take(i as int) =~= fs);
        (hi, lo)
    }

    /// Recomputes the levels in use from the current outputs.
    fn refresh_levels_in_use(&mut self)
        ensures
            final(self).spec_outputs() == old(self).spec_outputs(),
            final(self).spec_min_override() == old(self).spec_min_override(),
            final(self).spec_max_override() == old(self).spec_max_override(),
            final(self).levels_current(),
    {
        let (hi, lo) = Self::levels_in_use(&self.outputs);
        self.max_level_in_use = hi;
        self.min_level_in_use = lo;
    }

    /// Applies the overrides to the filter of every output, in place.
    fn adjust_all(&mut self)
        ensures
            final(self).spec_outputs().len() == old(self).spec_outputs().len(),
            forall|i: int| 0 <= i < old(self).spec_outputs().len() ==> #[trigger] final(self).spec_outputs()[i]
                == old(self).spec_outputs()[i].refiltered(old(self).effective(old(self).spec_outputs()[i].spec_filter())),
            final(self).spec_min_override() == old(self).spec_min_override(),
            final(self).spec_max_override() == old(self).spec_max_override(),
            final(self).wf(),
    {
        let ghost before = self.outputs@;
        let mut i: usize = 0;
        while i < self.outputs.len()
            invariant
                0 <= i <= self.outputs.len(),
                self.outputs@.len() == before.len(),
                self.min_filter == old(self).min_filter,
                self.max_filter == old(self).max_filter,
                forall|j: int| 0 <= j < i ==> #[trigger] self.outputs@[j]
                    == before[j].refiltered(clamp(before[j].spec_filter(), self.min_filter, self.max_filter)),
                forall|j: int| i <= j < before.len() ==> #[trigger] self.outputs@[j] == before[j],
            decreases self.outputs.len() - i,
        {
            Self::adjust_output_level(self.max_filter, self.min_filter, &mut self.outputs[i]);
            i = i + 1;
        }
        self.refresh_levels_in_use();
        proof {
            assert forall|i: int| 0 <= i < self.filters().len() implies #[trigger] self.filters()[i] == self.effective(self.filters()[i]) by {
                lemma_clamp_idempotent(before[i].spec_filter(), self.min_filter, self.max_filter);
            }
        }
    }

    /// Adds an output after the others, its filter clamped by the overrides.
    pub fn with_output(self, output: Output<E>) -> (r: Self)
        requires
            self.wf(),
        ensures
            r.wf(),
            r.spec_outputs() == self.spec_outputs().push(output.refiltered(self.effective(output.spec_filter()))),
            r.filters() == self.filters().push(self.effective(output.spec_filter())),
            r.spec_outputs().last().spec_ansi() == output.spec_ansi(),
            r.spec_outputs().last().spec_flush_on_newline() == output.spec_flush_on_newline(),
            r.spec_outputs().last().spec_endpoint() == output.spec_endpoint(),
            r.spec_min_override() == self.spec_min_override(),
            r.spec_max_override() == self.spec_max_override(),
    {
        let ghost s0 = self;
        let ghost o0 = output;
        let mut logger = self;
        let mut output = output;
        Self::adjust_output_level(logger.max_filter, logger.min_filter, &mut output);
        logger.outputs.push(output);
        logger.refresh_levels_in_use();
        assert(logger.filters() =~= s0.filters().push(s0.effective(o0.spec_filter())));
        proof {
            lemma_clamp_idempotent(o0.spec_filter(), s0.min_filter, s0.max_filter);
            assert forall|i: int| 0 <= i < logger.filters().len() implies #[trigger] logger.filters()[i] == logger.effective(logger.filters()[i]) by {
                if i < s0.filters().len() {
                    assert(logger.filters()[i] == s0.filters()[i]);
                }
            }
        }
        logger
    }

    /// Sets the least verbose filter that any output may have, and raises every
    /// output's filter to it where it is below.
    pub fn with_min_level_override(self, min: LevelFilter) -> (r: Self)
        requires
            self.wf(),
        ensures
            r.wf(),
            r.spec_min_override() == Some(min),
            r.spec_max_override() == self.spec_max_override(),
            r.spec_outputs().len() == self.spec_outputs().len(),
            forall|i: int| 0 <= i < self.spec_outputs().len() ==> #[trigger] self.same_but_filter(r, i),
            forall|i: int| 0 <= i < self.filters().len() ==> #[trigger] r.filters()[i] == r.effective(self.filters()[i]),
            forall|i: int| 0 <= i < r.filters().len() ==> min.ord() <= #[trigger] r.filters()[i].ord(),
            consistent(self.spec_min_override(), self.spec_max_override())
                ==> forall|i: int| 0 <= i < self.filters().len() ==> #[trigger] r.filters()[i] == self.filters()[i].spec_max(min),
    {
        let ghost s0 = self;
        let mut logger = self;
        logger.min_filter = Some(min);
        logger.adjust_all();
        proof {
            assert forall|i: int| 0 <= i < s0.spec_outputs().len() implies #[trigger] s0.same_but_filter(logger, i) by {}
            assert forall|i: int| 0 <= i < s0.filters().len() implies #[trigger] logger.filters()[i] == logger.effective(s0.filters()[i]) by {
                assert(logger.filters()[i] == logger.spec_outputs()[i].spec_filter());
                assert(s0.filters()[i] == s0.spec_outputs()[i].spec_filter());
            }
            assert forall|i: int| 0 <= i < logger.filters().len() implies min.ord() <= #[trigger] logger.filters()[i].ord() by {
                assert(logger.filters()[i] == logger.spec_outputs()[i].spec_filter());
            }
            if consistent(s0.min_filter, s0.max_filter) {
                assert forall|i: int| 0 <= i < s0.filters().len() implies #[trigger] logger.filters()[i] == s0.filters()[i].spec_max(min) by {
                    let f = s0.filters()[i];
                    assert(f == s0.effective(f));
                    assert(logger.filters()[i] == logger.effective(f));
                    lemma_min_override_exact(f, s0.min_filter, s0.max_filter, min);
                }
            }
        }
        logger
    }

    /// Sets the most verbose filter that any output may have, and lowers every
    /// output's filter to it where it is above (unless a least verbose filter set
    /// before lies higher still: that one wins).
    pub fn with_max_level_override(self, max: LevelFilter) -> (r: Self)
        requires
            self.wf(),
        ensures
            r.wf(),
            r.spec_max_override() == Some(max),
            r.spec_min_override() == self.spec_min_override(),
            r.spec_outputs().len() == self.spec_outputs().len(),
            forall|i: int| 0 <= i < self.spec_outputs().len() ==> #[trigger] self.same_but_filter(r, i),
            forall|i: int| 0 <= i < self.filters().len() ==> #[trigger] r.filters()[i] == r.effective(self.filters()[i]),
            consistent(self.spec_min_override(), Some(max))
                ==> forall|i: int| 0 <= i < r.filters().len() ==> #[trigger] r.filters()[i].ord() <= max.ord(),
            consistent(self.spec_min_override(), Some(max))
                ==> forall|i: int| 0 <= i < self.filters().len() ==> #[trigger] r.filters()[i] == self.filters()[i].spec_min(max),
    {
        let ghost s0 = self;
        let mut logger = self;
        logger.max_filter = Some(max);
        logger.adjust_all();
        proof {
            assert forall|i: int| 0 <= i < s0.spec_outputs().len() implies #[trigger] s0.same_but_filter(logger, i) by {}
            assert forall|i: int| 0 <= i < s0.filters().len() implies #[trigger] logger.filters()[i] == logger.effective(s0.filters()[i]) by {
                assert(logger.filters()[i] == logger.spec_outputs()[i].spec_filter());
                assert(s0.filters()[i] == s0.spec_outputs()[i].spec_filter());
            }
            if consistent(s0.min_filter, Some(max)) {
                assert forall|i: int| 0 <= i < s0.filters().len() implies #[trigger] logger.filters()[i] == s0.filters()[i].spec_min(max) by {
                    let f = s0.filters()[i];
                    assert(f == s0.effective(f));
                    assert(logger.filters()[i] == logger.effective(f));
                    lemma_max_override_exact(f, s0.min_filter, s0.max_filter, max);
                }
                assert forall|i: int| 0 <= i < logger.filters().len() implies #[trigger] logger.filters()[i].ord() <= max.ord() by {
                    assert(logger.filters()[i] == s0.filters()[i].spec_min(max));
                }
            }
        }
        logger
    }

    /// Whether any output takes a record of severity `level`; never for a logger
    /// without outputs.
    pub fn enabled(&self, level: Level) -> (r: bool)
        requires
            self.wf(),
        ensures
            r == exists|i: int| 0 <= i < self.filters().len() && #[trigger] self.filters()[i].admits_spec(level),
    {
        proof {
            lemma_ceiling_is_max(self.filters());
        }
        match self.max_level_in_use {
            Some(c) => c.admits(level),
            None => false,
        }
    }

    /// The most verbose filter in use, or `Off` for a logger without outputs: the
    /// global threshold to install the logger with.
    pub fn max_level(&self) -> (r: LevelFilter)
        requires
            self.wf(),
        ensures
            r == match ceiling_of(self.filters()) {
                Some(c) => c,
                None => LevelFilter::Off,
            },
    {
        match self.max_level_in_use {
            Some(c) => c,
            None => LevelFilter::Off,
        }
    }

    /// The most verbose filter in use, if there are outputs.
    pub fn max_level_in_use(&self) -> (r: Option<LevelFilter>)
        requires
            self.wf(),
        ensures
            r == ceiling_of(self.filters()),
    {
        self.max_level_in_use
    }

    /// The least verbose filter in use, if there are outputs.
    pub fn min_level_in_use(&self) -> (r: Option<LevelFilter>)
        requires
            self.wf(),
        ensures
            r == floor_of(self.filters()),
    {
        self.min_level_in_use
    }

    /// The outputs, in the order they were added.
    pub fn outputs(&self) -> (r: &Vec<Output<E>>)
        ensures
            r@ == self.spec_outputs(),
    {
        &self.outputs
    }

    /// One delivery for each output, in order, each as that output alone renders
    /// `record` at `time`.
    pub open spec fn renders_all(&self, time: Seq<char>, record: &Record, ds: Seq<Delivery>) -> bool {
        &&& ds.len() == self.spec_outputs().len()
        &&& forall|i: int| 0 <= i < ds.len() ==> self.spec_outputs()[i].renders(time, record, &#[trigger] ds[i])
    }

    /// What each output does with `record` when the time reads `time`, in the order
    /// of the outputs; each output's part depends on that output alone.
    pub fn render_all(&self, time: &str, record: &Record) -> (r: Vec<Delivery>)
        ensures
            self.renders_all(time@, record, r@),
    {
        let mut r: Vec<Delivery> = Vec::new();
        let mut i: usize = 0;
        while i < self.outputs.len()
            invariant
                0 <= i <= self.outputs.len(),
                r@.len() == i,
                forall|j: int| 0 <= j < i ==> self.outputs@[j].renders(time@, record, &#[trigger] r@[j]),
            decreases self.outputs.len() - i,
        {
            let d = self.outputs[i].render(time, record);
            r.push(d);
            i = i + 1;
        }
        r
    }

    /// What each output does with `record` now, at one reading of the clock, which
    /// holds no escape character.
    pub fn plan(&self, record: &Record) -> (r: Vec<Delivery>)
        ensures
            exists|t: Seq<char>| lacks(t, '\u{1b}') && #[trigger] self.renders_all(t, record, r@),
    {
        let time = local_timestamp(TIMESTAMP_FORMAT);
        let r = self.render_all(time.as_str(), record);
        assert(self.renders_all(time@, record, r@));
        r
    }
}

proof fn lemma_push_aggregates(s: Seq<LevelFilter>, x: LevelFilter)
    ensures
        ceiling_of(s.push(x)) == Some(match ceiling_of(s) {
            Some(c) => c.spec_max(x),
            None => x,
        }),
        floor_of(s.push(x)) == Some(match floor_of(s) {
            Some(c) => c.spec_min(x),
            None => x,
        }),
{
    assert(s.push(x).drop_last() =~= s);
    assert(s.push(x).last() == x);
}

proof fn lemma_max_min_swap(c: LevelFilter, x: LevelFilter, y: LevelFilter)
    ensures
        c.spec_max(x).spec_max(y) == c.spec_max(y).spec_max(x),
        x.spec_max(y) == y.spec_max(x),
        c.spec_min(x).spec_min(y) == c.spec_min(y).spec_min(x),
        x.spec_min(y) == y.spec_min(x),
{
    lemma_ord_injective(x, y);
    lemma_ord_injective(c, x);
    lemma_ord_injective(c, y);
}

impl<E> Default for RedoxLogger<E> {
    /// A logger with no outputs and no overrides.
    fn default() -> (r: Self)
        ensures
            r.wf(),
            r.spec_outputs().len() == 0,
            r.spec_min_override() is None,
            r.spec_max_override() is None,
    {
        Self::new()
    }
}

/// The order in which outputs are added does not change the most and least
/// verbose filters in use.
pub proof fn law_output_order_irrelevant<E>(l: RedoxLogger<E>, a: Output<E>, b: Output<E>)
    ensures
        ceiling_of(l.filters().push(l.effective(a.spec_filter())).push(l.effective(b.spec_filter())))
            == ceiling_of(l.filters().push(l.effective(b.spec_filter())).push(l.effective(a.spec_filter()))),
        floor_of(l.filters().push(l.effective(a.spec_filter())).push(l.effective(b.spec_filter())))
            == floor_of(l.filters().push(l.effective(b.spec_filter())).push(l.effective(a.spec_filter()))),
{
    let s = l.filters();
    let x = l.effective(a.spec_filter());
    let y = l.effective(b.spec_filter());
    lemma_push_aggregates(s, x);
    lemma_push_aggregates(s, y);
    lemma_push_aggregates(s.push(x), y);
    lemma_push_aggregates(s.push(y), x);
    match ceiling_of(s) {
        Some(c) => lemma_max_min_swap(c, x, y),
        None => lemma_max_min_swap(x, x, y),
    }
    match floor_of(s) {
        Some(c) => lemma_max_min_swap(c, x, y),
        None => lemma_max_min_swap(x, x, y),
    }
}

} // verus!
