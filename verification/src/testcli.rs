//! Command-line options of the batch test runner.
use vstd::prelude::*;
use crate::text::{contains_str, contains_seq, parse_u64, parse_u64_spec, str_eq, views};

verus! {

/// How much of a finished test run to print.
#[derive(Debug, Clone, Copy, PartialEq, Eq, Structural)]
pub enum TestReportMode {
    Summary,
    All,
    Failures,
    FailureDetails,
}

/// Options of the test runner.
#[derive(Debug, Clone)]
pub struct TestCli {
    pub report: TestReportMode,
    pub trace_patterns: Vec<String>,
    pub trace_failing: bool,
    pub trace_every: u64,
    pub help: bool,
}

/// Mathematical form of the options.
pub struct CliModel {
    pub report: TestReportMode,
    pub trace_patterns: Seq<Seq<char>>,
    pub trace_failing: bool,
    pub trace_every: u64,
    pub help: bool,
}

impl View for TestCli {
    type V = CliModel;

    open spec fn view(&self) -> CliModel {
        CliModel {
            report: self.report,
            trace_patterns: views(self.trace_patterns@),
            trace_failing: self.trace_failing,
            trace_every: self.trace_every,
            help: self.help,
        }
    }
}

/// The options before any argument: summary report, no tracing, every tenth
/// frame when tracing.
pub open spec fn default_cli_model() -> CliModel {
    CliModel {
        report: TestReportMode::Summary,
        trace_patterns: Seq::empty(),
        trace_failing: false,
        trace_every: 10,
        help: false,
    }
}

/// The options after reading `args` from state `m`, or the error message of
/// the first bad argument.
pub open spec fn cli_parse_from(m: CliModel, args: Seq<Seq<char>>) -> Result<CliModel, Seq<char>>
    decreases args.len(),
{
    if args.len() == 0 {
        Ok(m)
    } else {
        let a = args[0];
        let rest = args.drop_first();
        if a == "-h"@ || a == "--help"@ {
            cli_parse_from(CliModel { help: true, ..m }, rest)
        } else if a == "--summary"@ {
            cli_parse_from(CliModel { report: TestReportMode::Summary, ..m }, rest)
        } else if a == "--list"@ || a == "--all"@ {
            cli_parse_from(CliModel { report: TestReportMode::All, ..m }, rest)
        } else if a == "--failures"@ {
            cli_parse_from(CliModel { report: TestReportMode::Failures, ..m }, rest)
        } else if a == "--failure-details"@ {
            cli_parse_from(CliModel { report: TestReportMode::FailureDetails, ..m }, rest)
        } else if a == "--trace"@ {
            if rest.len() == 0 {
                Err("--trace requires a test name pattern"@)
            } else {
                cli_parse_from(
                    CliModel { trace_patterns: m.trace_patterns.push(rest[0]), ..m },
                    rest.drop_first(),
                )
            }
        } else if a == "--trace-failing"@ {
            cli_parse_from(CliModel { trace_failing: true, ..m }, rest)
        } else if a == "--trace-every"@ {
            if rest.len() == 0 {
                Err("--trace-every requires a positive integer"@)
            } else {
                match parse_u64_spec(rest[0]) {
                    Some(v) => cli_parse_from(
                        CliModel {
                            trace_every: if v >= 1 {
                                v
                            } else {
                                1
                            },
                            ..m
                        },
                        rest.drop_first(),
                    ),
                    None => Err("invalid --trace-every value: "@ + rest[0]),
                }
            }
        } else if a == "--trace-full"@ {
            cli_parse_from(CliModel { trace_every: 1, ..m }, rest)
        } else {
            Err("unknown argument: "@ + a + "\nrun with --help for available test diagnostics"@)
        }
    }
}

impl TestCli {
    /// The default options.
    pub fn defaults() -> (res: TestCli)
        ensures
            res@ == default_cli_model(),
    {
        let res = TestCli {
            report: TestReportMode::Summary,
            trace_patterns: Vec::new(),
            trace_failing: false,
            trace_every: 10,
            help: false,
        };
        assert(res@.trace_patterns =~= Seq::<Seq<char>>::empty());
        res
    }

    /// Reads the options from `args` (program name excluded).
    pub fn parse(args: Vec<String>) -> (res: Result<TestCli, String>)
        ensures
            match cli_parse_from(default_cli_model(), views(args@)) {
                Ok(m) => res is Ok && res->Ok_0@ == m,
                Err(e) => res is Err && res->Err_0@ == e,
            },
    {
        let mut cli = TestCli::defaults();
        let n = args.len();
        let mut i: usize = 0;
        proof {
            assert(views(args@).subrange(0, n as int) =~= views(args@));
        }
        while i < n
            invariant
                i <= n,
                n == args@.len(),
                cli_parse_from(cli@, views(args@).subrange(i as int, n as int)) == cli_parse_from(
                    default_cli_model(),
                    views(args@),
                ),
            decreases n - i,
        {
            let ghost rest = views(args@).subrange(i as int, n as int);
            let ghost m = cli@;
            proof {
                assert(rest[0] == args@[i as int]@);
                assert(rest.drop_first() =~= views(args@).subrange(i + 1, n as int));
            }
            let arg = args[i].as_str();
            if str_eq(arg, "-h") || str_eq(arg, "--help") {
                cli.help = true;
            } else if str_eq(arg, "--summary") {
                cli.report = TestReportMode::Summary;
            } else if str_eq(arg, "--list") || str_eq(arg, "--all") {
                cli.report = TestReportMode::All;
            } else if str_eq(arg, "--failures") {
                cli.report = TestReportMode::Failures;
            } else if str_eq(arg, "--failure-details") {
                cli.report = TestReportMode::FailureDetails;
            } else if str_eq(arg, "--trace") {
                if i + 1 >= n {
                    return Err(String::from_str("--trace requires a test name pattern"));
                }
                let ghost before = cli.trace_patterns@;
                cli.trace_patterns.push(args[i + 1].clone());
                proof {
                    assert(rest.drop_first()[0] == args@[i + 1]@);
                    assert(views(cli.trace_patterns@) =~= views(before).push(args@[i + 1]@));
                    assert(rest.drop_first().drop_first() =~= views(args@).subrange(i + 2, n as int));
                }
                i = i + 1;
            } else if str_eq(arg, "--trace-failing") {
                cli.trace_failing = true;
            } else if str_eq(arg, "--trace-every") {
                if i + 1 >= n {
                    return Err(String::from_str("--trace-every requires a positive integer"));
                }
                let value = args[i + 1].as_str();
                proof {
                    assert(rest.drop_first()[0] == args@[i + 1]@);
                    assert(rest.drop_first().drop_first() =~= views(args@).subrange(i + 2, n as int));
                }
                match parse_u64(value) {
                    Some(v) => {
                        cli.trace_every = if v >= 1 {
                            v
                        } else {
                            1
                        };
                    },
                    None => {
                        let mut msg = String::from_str("invalid --trace-every value: ");
                        msg.append(value);
                        return Err(msg);
                    },
                }
                i = i + 1;
            } else if str_eq(arg, "--trace-full") {
                cli.trace_every = 1;
            } else {
                let mut msg = String::from_str("unknown argument: ");
                msg.append(arg);
                msg.append("\nrun with --help for available test diagnostics");
                return Err(msg);
            }
            i = i + 1;
        }
        proof {
            assert(views(args@).subrange(i as int, n as int) =~= Seq::<Seq<char>>::empty());
        }
        Ok(cli)
    }
}

/// Whether `name` contains some pattern (any name does when there are no
/// patterns) and, when a list of failed names is given, is one of them.
pub open spec fn should_trace_spec(
    name: Seq<char>,
    patterns: Seq<Seq<char>>,
    failed_names: Option<Seq<Seq<char>>>,
) -> bool {
    &&& (patterns.len() == 0 || exists|p: int|
        0 <= p < patterns.len() && #[trigger] contains_seq(name, patterns[p]))
    &&& match failed_names {
        None => true,
        Some(names) => names.contains(name),
    }
}

/// Whether the test named `name` is rerun and traced.
pub fn should_trace(name: &str, patterns: &Vec<String>, failed_names: Option<&Vec<String>>) -> (res: bool)
    ensures
        res == should_trace_spec(
            name@,
            views(patterns@),
            match failed_names {
                Some(v) => Some(views(v@)),
                None => None,
            },
        ),
{
    let mut pattern_match = patterns.len() == 0;
    let mut p: usize = 0;
    while p < patterns.len() && !pattern_match
        invariant
            p <= patterns@.len(),
            pattern_match ==> (patterns@.len() == 0 || exists|q: int|
                0 <= q < patterns@.len() && #[trigger] contains_seq(name@, views(patterns@)[q])),
            !pattern_match ==> patterns@.len() > 0 && forall|q: int|
                0 <= q < p ==> !#[trigger] contains_seq(name@, views(patterns@)[q]),
        decreases patterns.len() - p,
    {
        if contains_str(name, patterns[p].as_str()) {
            pattern_match = true;
            proof {
                assert(views(patterns@)[p as int] == patterns@[p as int]@);
            }
        } else {
            proof {
                assert(views(patterns@)[p as int] == patterns@[p as int]@);
            }
        }
        p = p + 1;
    }
    let failed_match = match failed_names {
        None => true,
        Some(names) => {
            let mut found = false;
            let mut k: usize = 0;
            while k < names.len() && !found
                invariant
                    k <= names@.len(),
                    found ==> views(names@).contains(name@),
                    !found ==> forall|j: int| 0 <= j < k ==> views(names@)[j] != name@,
                decreases names.len() - k,
            {
                proof {
                    assert(views(names@)[k as int] == names@[k as int]@);
                }
                if str_eq(names[k].as_str(), name) {
                    found = true;
                }
                k = k + 1;
            }
            proof {
                if !found {
                    assert(!views(names@).contains(name@));
                }
            }
            found
        },
    };
    pattern_match && failed_match
}

} // verus!
