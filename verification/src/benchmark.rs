//! The benchmark sink: per-module aggregates of execution time and fuel,
//! guarded against counter overflow, and the plain-text report written at
//! shutdown.

use vstd::prelude::*;

use crate::kvlist::{kv_put, kv_get, spec_find, unique_keys};

verus! {

/// The decimal digit character for `d`.
pub open spec fn spec_digit(d: nat) -> char {
    if d == 0 {
        '0'
    } else if d == 1 {
        '1'
    } else if d == 2 {
        '2'
    } else if d == 3 {
        '3'
    } else if d == 4 {
        '4'
    } else if d == 5 {
        '5'
    } else if d == 6 {
        '6'
    } else if d == 7 {
        '7'
    } else if d == 8 {
        '8'
    } else {
        '9'
    }
}

/// The decimal rendering of `n`, most significant digit first, with no
/// leading zero except for `n == 0` itself.
pub open spec fn spec_dec(n: nat) -> Seq<char>
    decreases n,
{
    if n < 10 {
        seq![spec_digit(n)]
    } else {
        spec_dec(n / 10) + seq![spec_digit(n % 10)]
    }
}

/// The one-character string for a decimal digit.
fn digit_str(d: u128) -> (r: &'static str)
    requires
        d < 10,
    ensures
        r@ =~= seq![spec_digit(d as nat)],
{
    proof {
        reveal_strlit("0");
        reveal_strlit("1");
        reveal_strlit("2");
        reveal_strlit("3");
        reveal_strlit("4");
        reveal_strlit("5");
        reveal_strlit("6");
        reveal_strlit("7");
        reveal_strlit("8");
        reveal_strlit("9");
    }
    if d == 0 {
        "0"
    } else if d == 1 {
        "1"
    } else if d == 2 {
        "2"
    } else if d == 3 {
        "3"
    } else if d == 4 {
        "4"
    } else if d == 5 {
        "5"
    } else if d == 6 {
        "6"
    } else if d == 7 {
        "7"
    } else if d == 8 {
        "8"
    } else {
        "9"
    }
}

/// Renders `n` in decimal.
pub fn u128_to_string(n: u128) -> (r: String)
    ensures
        r@ == spec_dec(n as nat),
    decreases n,
{
    if n < 10 {
        digit_str(n).to_owned()
    } else {
        proof {
            assert(n / 10 < n) by (nonlinear_arith)
                requires
                    n >= 10,
            ;
        }
        let high = u128_to_string(n / 10);
        high.concat(digit_str(n % 10))
    }
}

/// Renders `n` in decimal.
pub fn u64_to_string(n: u64) -> (r: String)
    ensures
        r@ == spec_dec(n as nat),
{
    u128_to_string(n as u128)
}

/// Metadata about a rule's execution, pushed by the executor after each
/// invocation.
pub struct ModulePerformanceMetadata {
    /// The name of the module.
    pub module: String,
    /// Time (in microseconds) for execution to complete.
    pub execution_time: u128,
    /// The amount of computation used by the rule.
    pub computation_used: u64,
}

/// A module's aggregate performance.
#[derive(Debug, Clone, Copy, PartialEq, Eq, Structural)]
pub struct AggregatePerformanceData {
    /// The number of times the module has been executed.
    pub runs: u64,
    /// The total time (in microseconds) the module has spent executing.
    pub total_execution_time: u128,
    /// The total computation used by the module.
    pub total_computation_used: u64,
    /// Set when a further update would overflow a counter; the record is
    /// then frozen.
    pub maxed_out: bool,
}

impl AggregatePerformanceData {
    /// The aggregate after a module's first recorded run.
    pub open spec fn spec_new(execution_time: u128, computation_used: u64) -> Self {
        AggregatePerformanceData {
            runs: 1,
            total_execution_time: execution_time,
            total_computation_used: computation_used,
            maxed_out: false,
        }
    }

    /// Creates a new aggregate with initial execution time and computation
    /// used.
    pub fn new(execution_time: u128, computation_used: u64) -> (r: Self)
        ensures
            r == Self::spec_new(execution_time, computation_used),
    {
        Self {
            runs: 1,
            total_execution_time: execution_time,
            total_computation_used: computation_used,
            maxed_out: false,
        }
    }

    /// Whether adding this sample would overflow one of the counters.
    pub open spec fn spec_would_overflow(self, execution_time: u128, computation_used: u64) -> bool {
        self.total_execution_time + execution_time > u128::MAX
            || self.total_computation_used + computation_used > u64::MAX || self.runs + 1
            > u64::MAX
    }

    /// Folds one sample into the aggregate.  A frozen record is left alone.
    /// When any addition would overflow, no field changes and the record is
    /// frozen instead; otherwise all three counters advance together.
    pub fn update(&mut self, message: &ModulePerformanceMetadata)
        ensures
            old(self).maxed_out ==> *final(self) == *old(self),
            !old(self).maxed_out && old(self).spec_would_overflow(
                message.execution_time,
                message.computation_used,
            ) ==> *final(self) == (AggregatePerformanceData { maxed_out: true, ..*old(self) }),
            !old(self).maxed_out && !old(self).spec_would_overflow(
                message.execution_time,
                message.computation_used,
            ) ==> *final(self) == (AggregatePerformanceData {
                runs: (old(self).runs + 1) as u64,
                total_execution_time: (old(self).total_execution_time
                    + message.execution_time) as u128,
                total_computation_used: (old(self).total_computation_used
                    + message.computation_used) as u64,
                maxed_out: false,
            }),
    {
        if self.maxed_out {
            return ;
        }
        if message.execution_time <= u128::MAX - self.total_execution_time
            && message.computation_used <= u64::MAX - self.total_computation_used && self.runs
            < u64::MAX {
            self.runs = self.runs + 1;
            self.total_execution_time = self.total_execution_time + message.execution_time;
            self.total_computation_used = self.total_computation_used + message.computation_used;
        } else {
            self.maxed_out = true;
        }
    }
}

/// The per-module aggregates the benchmark sink drains samples into.
pub struct PerformanceAggregates {
    pub entries: Vec<(String, AggregatePerformanceData)>,
}

impl PerformanceAggregates {
    /// One aggregate per module, each with at least one recorded run.
    pub open spec fn wf(self) -> bool {
        &&& unique_keys(self.entries@)
        &&& forall|i: int| 0 <= i < self.entries@.len() ==> (#[trigger] self.entries@[i]).1.runs
            >= 1
    }

    /// The aggregate recorded for a module, if any.
    pub open spec fn spec_get(self, module: Seq<char>) -> Option<AggregatePerformanceData> {
        spec_find(self.entries@, module)
    }

    /// The recorded modules, in first-seen order, with their aggregates.
    pub open spec fn spec_entries(self) -> Seq<(String, AggregatePerformanceData)> {
        self.entries@
    }

    pub fn new() -> (r: Self)
        ensures
            r.wf(),
            r.spec_entries() == Seq::<(String, AggregatePerformanceData)>::empty(),
    {
        PerformanceAggregates { entries: Vec::new() }
    }

    /// Folds one sample into its module's aggregate, creating the aggregate
    /// on the module's first sample.  No other module's record changes.
    pub fn record(&mut self, message: &ModulePerformanceMetadata)
        requires
            old(self).wf(),
        ensures
            final(self).wf(),
            final(self).spec_get(message.module@) == Some(
                match old(self).spec_get(message.module@) {
                    Some(a) => {
                        if a.maxed_out {
                            a
                        } else if a.spec_would_overflow(
                            message.execution_time,
                            message.computation_used,
                        ) {
                            AggregatePerformanceData { maxed_out: true, ..a }
                        } else {
                            AggregatePerformanceData {
                                runs: (a.runs + 1) as u64,
                                total_execution_time: (a.total_execution_time
                                    + message.execution_time) as u128,
                                total_computation_used: (a.total_computation_used
                                    + message.computation_used) as u64,
                                maxed_out: false,
                            }
                        }
                    },
                    None => AggregatePerformanceData::spec_new(
                        message.execution_time,
                        message.computation_used,
                    ),
                },
            ),
            forall|k: Seq<char>| k != message.module@ ==> final(self).spec_get(k) == old(
                self,
            ).spec_get(k),
    {
        let found = match kv_get(&self.entries, &message.module) {
            Some(a) => Some(*a),
            None => None,
        };
        proof {
            crate::kvlist::lemma_key_index(self.entries@, message.module@);
        }
        let value = match found {
            Some(mut aggregate) => {
                proof {
                    let os = self.entries@;
                    let ki = crate::kvlist::key_index(os, message.module@);
                    assert(os[ki].1.runs >= 1);
                }
                aggregate.update(message);
                aggregate
            },
            None => AggregatePerformanceData::new(
                message.execution_time,
                message.computation_used,
            ),
        };
        assert(value.runs >= 1);
        kv_put(&mut self.entries, message.module.clone(), value);
        proof {
            assert forall|i: int| 0 <= i < self.entries@.len() implies (
            #[trigger] self.entries@[i]).1.runs >= 1 by {
                let s = self.entries@;
                let k = s[i].0@;
                crate::kvlist::lemma_key_index(s, k);
                let ki = crate::kvlist::key_index(s, k);
                if ki < i {
                    assert((s[ki].0)@ != (s[i].0)@);
                }
                if ki > i {
                    assert((s[i].0)@ != (s[ki].0)@);
                }
                assert(spec_find(s, k) == Some(s[i].1));
                if k != message.module@ {
                    let os = old(self).entries@;
                    crate::kvlist::lemma_key_index(os, k);
                    assert(spec_find(os, k) == Some(s[i].1));
                    let kio = crate::kvlist::key_index(os, k);
                    assert(os[kio].1.runs >= 1);
                }
            }
        }
    }
}

/// One module's block in the benchmark report: its name, its run count,
/// and the per-run averages of fuel and execution time.
pub open spec fn spec_report_block(name: Seq<char>, d: AggregatePerformanceData) -> Seq<char> {
    "Module: "@ + name + "\n"@ + "\tRuns: "@ + spec_dec(d.runs as nat) + "\n"@
        + "\tAverage Computation Used: "@ + spec_dec(
        (d.total_computation_used as nat) / (d.runs as nat),
    ) + "\n"@ + "\tAverage Execution Time (microseconds): "@ + spec_dec(
        (d.total_execution_time as nat) / (d.runs as nat),
    ) + "\n"@ + "\n"@
}

/// The whole report: a header, then one block per module in order.
pub open spec fn spec_report(entries: Seq<(String, AggregatePerformanceData)>) -> Seq<char>
    decreases entries.len(),
{
    if entries.len() == 0 {
        "Performance Report:\n"@
    } else {
        spec_report(entries.drop_last()) + spec_report_block(
            entries.last().0@,
            entries.last().1,
        )
    }
}

impl PerformanceAggregates {
    /// Renders the report written at shutdown.
    pub fn render_report(&self) -> (r: String)
        requires
            self.wf(),
        ensures
            r@ == spec_report(self.spec_entries()),
    {
        let mut out: String = "Performance Report:\n".to_owned();
        let mut i: usize = 0;
        while i < self.entries.len()
            invariant
                self.wf(),
                i <= self.entries@.len(),
                out@ == spec_report(self.entries@.subrange(0, i as int)),
            decreases self.entries@.len() - i,
        {
            let name = &self.entries[i].0;
            let d = self.entries[i].1;
            out.append("Module: ");
            out.append(name.as_str());
            out.append("\n");
            out.append("\tRuns: ");
            let runs_s = u64_to_string(d.runs);
            out.append(runs_s.as_str());
            out.append("\n");
            out.append("\tAverage Computation Used: ");
            let avg_fuel = u64_to_string(d.total_computation_used / d.runs);
            out.append(avg_fuel.as_str());
            out.append("\n");
            out.append("\tAverage Execution Time (microseconds): ");
            let avg_time = u128_to_string(d.total_execution_time / (d.runs as u128));
            out.append(avg_time.as_str());
            out.append("\n");
            out.append("\n");
            proof {
                assert(self.entries@.subrange(0, i + 1 as int).drop_last() =~= self.entries@
                    .subrange(0, i as int));
                assert(out@ =~= spec_report(self.entries@.subrange(0, i + 1 as int)));
            }
            i += 1;
        }
        proof {
            assert(self.entries@.subrange(0, self.entries@.len() as int) =~= self.entries@);
        }
        out
    }
}

/// Default file path for benchmarking results if none is provided in the
/// configuration.
pub fn default_results_file_path() -> (r: String)
    ensures
        r@ == "./benchmark_results/metrics.txt"@,
{
    "./benchmark_results/metrics.txt".to_owned()
}

/// Where the benchmark sink writes its report on shutdown.
#[derive(Debug, Clone)]
pub struct Benchmarking {
    /// The full path to the output file for benchmarking metrics.
    pub output_file_path: String,
}

impl Benchmarking {
    /// Builds the sink configuration, falling back to the default results
    /// path when none is given.
    pub fn new(output_file_path: Option<String>) -> (r: Self)
        ensures
            (match output_file_path {
                Some(p) => r.output_file_path@ == p@,
                None => r.output_file_path@ == "./benchmark_results/metrics.txt"@,
            }),
    {
        match output_file_path {
            Some(p) => Benchmarking { output_file_path: p },
            None => Benchmarking { output_file_path: default_results_file_path() },
        }
    }
}

} // verus!
