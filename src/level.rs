//! Severities of records and the filters that outputs apply to them.

use vstd::prelude::*;

verus! {

/// The severity of a single record, from most severe to most verbose.
#[derive(Clone, Copy, Debug, PartialEq, Eq, Structural)]
pub enum Level {
    Error,
    Warn,
    Info,
    Debug,
    Trace,
}

/// The most verbose severity that an output lets through; `Off` lets nothing through.
#[derive(Clone, Copy, Debug, PartialEq, Eq, Structural)]
pub enum LevelFilter {
    Off,
    Error,
    Warn,
    Info,
    Debug,
    Trace,
}

impl Level {
    /// Position in the verbosity order: a lower rank is more severe.
    pub open spec fn ord(self) -> nat {
        match self {
            Level::Error => 1,
            Level::Warn => 2,
            Level::Info => 3,
            Level::Debug => 4,
            Level::Trace => 5,
        }
    }

    /// The name under which the severity is printed.
    pub open spec fn spec_name(self) -> Seq<char> {
        match self {
            Level::Error => seq!['E', 'r', 'r', 'o', 'r'],
            Level::Warn => seq!['W', 'a', 'r', 'n'],
            Level::Info => seq!['I', 'n', 'f', 'o'],
            Level::Debug => seq!['D', 'e', 'b', 'u', 'g'],
            Level::Trace => seq!['T', 'r', 'a', 'c', 'e'],
        }
    }

    pub fn rank(&self) -> (r: u8)
        ensures
            r as nat == self.ord(),
    {
        match self {
            Level::Error => 1,
            Level::Warn => 2,
            Level::Info => 3,
            Level::Debug => 4,
            Level::Trace => 5,
        }
    }

    pub fn name(&self) -> (r: &'static str)
        ensures
            r@ == self.spec_name(),
    {
        let r = match self {
            Level::Error => "Error",
            Level::Warn => "Warn",
            Level::Info => "Info",
            Level::Debug => "Debug",
            Level::Trace => "Trace",
        };
        proof {
            reveal_strlit("Error");
            reveal_strlit("Warn");
            reveal_strlit("Info");
            reveal_strlit("Debug");
            reveal_strlit("Trace");
            assert(r@ =~= self.spec_name());
        }
        r
    }

    /// The severity seen as the filter that lets exactly it and the more severe ones through.
    pub fn to_level_filter(&self) -> (r: LevelFilter)
        ensures
            r.ord() == self.ord(),
    {
        match self {
            Level::Error => LevelFilter::Error,
            Level::Warn => LevelFilter::Warn,
            Level::Info => LevelFilter::Info,
            Level::Debug => LevelFilter::Debug,
            Level::Trace => LevelFilter::Trace,
        }
    }
}

impl LevelFilter {
    /// Position in the verbosity order: `Off` is 0, `Trace` is 5.
    pub open spec fn ord(self) -> nat {
        match self {
            LevelFilter::Off => 0,
            LevelFilter::Error => 1,
            LevelFilter::Warn => 2,
            LevelFilter::Info => 3,
            LevelFilter::Debug => 4,
            LevelFilter::Trace => 5,
        }
    }

    /// Whether a record of severity `l` passes this filter.
    pub open spec fn admits_spec(self, l: Level) -> bool {
        l.ord() <= self.ord()
    }

    /// The more verbose of two filters.
    pub open spec fn spec_max(self, o: LevelFilter) -> LevelFilter {
        if self.ord() >= o.ord() { self } else { o }
    }

    /// The less verbose of two filters.
    pub open spec fn spec_min(self, o: LevelFilter) -> LevelFilter {
        if self.ord() <= o.ord() { self } else { o }
    }

    pub fn rank(&self) -> (r: u8)
        ensures
            r as nat == self.ord(),
    {
        match self {
            LevelFilter::Off => 0,
            LevelFilter::Error => 1,
            LevelFilter::Warn => 2,
            LevelFilter::Info => 3,
            LevelFilter::Debug => 4,
            LevelFilter::Trace => 5,
        }
    }

    /// Whether a record of severity `l` passes this filter.
    pub fn admits(&self, l: Level) -> (r: bool)
        ensures
            r == self.admits_spec(l),
    {
        l.rank() <= self.rank()
    }

    pub fn more_verbose(self, o: LevelFilter) -> (r: LevelFilter)
        ensures
            r == self.spec_max(o),
    {
        if self.rank() >= o.rank() { self } else { o }
    }

    pub fn less_verbose(self, o: LevelFilter) -> (r: LevelFilter)
        ensures
            r == self.spec_min(o),
    {
        if self.rank() <= o.rank() { self } else { o }
    }
}

/// Filters are determined by their rank.
pub proof fn lemma_ord_injective(a: LevelFilter, b: LevelFilter)
    ensures
        a.ord() == b.ord() ==> a == b,
{
}

} // verus!
