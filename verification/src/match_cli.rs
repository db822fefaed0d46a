//! Command-line options of the match runner (`match-sim`).
use vstd::prelude::*;
use crate::controller::{TeamKind, TeamKindSpec, team_kind_parse_spec};
use crate::text::{
    decimal_digits, parse_u64, parse_u64_spec, parse_usize, parse_usize_spec, push_decimal, push_str,
    replace_all, replace_all_spec, str_eq, views,
};

verus! {

/// Options of one `match-sim` run. The match length is kept as the text
/// given with `--seconds`, which is known to read as a number.
#[derive(Debug, Clone)]
pub struct MatchArgs {
    pub blue: TeamKind,
    pub yellow: TeamKind,
    pub seconds: Option<String>,
    pub div: char,
    pub seed: u64,
    pub matches: usize,
    pub log: Option<String>,
    pub summary: Option<String>,
    pub log_every: u64,
    pub print_commands: bool,
    pub print_commands_every: u64,
    pub validate_pickup: bool,
    pub viewer: bool,
    pub realtime: bool,
    pub quiet: bool,
    /// Help was asked for; the arguments after it were not read.
    pub help: bool,
}

/// Mathematical form of [`MatchArgs`].
pub struct MatchArgsModel {
    pub blue: TeamKindSpec,
    pub yellow: TeamKindSpec,
    pub seconds: Option<Seq<char>>,
    pub div: char,
    pub seed: u64,
    pub matches: usize,
    pub log: Option<Seq<char>>,
    pub summary: Option<Seq<char>>,
    pub log_every: u64,
    pub print_commands: bool,
    pub print_commands_every: u64,
    pub validate_pickup: bool,
    pub viewer: bool,
    pub realtime: bool,
    pub quiet: bool,
    pub help: bool,
}

/// The view of an optional string.
pub open spec fn opt_text(o: Option<String>) -> Option<Seq<char>> {
    match o {
        Some(s) => Some(s@),
        None => None,
    }
}

impl View for MatchArgs {
    type V = MatchArgsModel;

    open spec fn view(&self) -> MatchArgsModel {
        MatchArgsModel {
            blue: self.blue@,
            yellow: self.yellow@,
            seconds: opt_text(self.seconds),
            div: self.div,
            seed: self.seed,
            matches: self.matches,
            log: opt_text(self.log),
            summary: opt_text(self.summary),
            log_every: self.log_every,
            print_commands: self.print_commands,
            print_commands_every: self.print_commands_every,
            validate_pickup: self.validate_pickup,
            viewer: self.viewer,
            realtime: self.realtime,
            quiet: self.quiet,
            help: self.help,
        }
    }
}

/// The options before any argument: Bangka against Bangka in division B,
/// default length, seed 1, one match, no log, every second frame logged,
/// commands printed every 60 frames when asked for.
pub open spec fn default_match_args() -> MatchArgsModel {
    MatchArgsModel {
        blue: TeamKindSpec::Bangka,
        yellow: TeamKindSpec::Bangka,
        seconds: None,
        div: 'b',
        seed: 1,
        matches: 1,
        log: None,
        summary: None,
        log_every: 2,
        print_commands: false,
        print_commands_every: 60,
        validate_pickup: false,
        viewer: false,
        realtime: false,
        quiet: false,
        help: false,
    }
}

/// Whether an option takes a value.
pub open spec fn takes_value(a: Seq<char>) -> bool {
    a == "--blue"@ || a == "--yellow"@ || a == "--seconds"@ || a == "--div"@ || a == "--seed"@ || a
        == "--matches"@ || a == "--log"@ || a == "--summary"@ || a == "--log-every"@ || a
        == "--print-commands-every"@
}

/// The options after option `a` with value `v` (whose number reading is
/// `v_is_number`), or the error it gives.
pub open spec fn apply_valued(m: MatchArgsModel, a: Seq<char>, v: Seq<char>, v_is_number: bool) -> Result<
    MatchArgsModel,
    Seq<char>,
> {
    if a == "--blue"@ {
        match team_kind_parse_spec(v) {
            Ok(k) => Ok(MatchArgsModel { blue: k, ..m }),
            Err(e) => Err(e),
        }
    } else if a == "--yellow"@ {
        match team_kind_parse_spec(v) {
            Ok(k) => Ok(MatchArgsModel { yellow: k, ..m }),
            Err(e) => Err(e),
        }
    } else if a == "--seconds"@ {
        if v_is_number {
            Ok(MatchArgsModel { seconds: Some(v), ..m })
        } else {
            Err("bad --seconds"@)
        }
    } else if a == "--div"@ {
        Ok(MatchArgsModel { div: if v.len() > 0 { v[0] } else { 'b' }, ..m })
    } else if a == "--seed"@ {
        match parse_u64_spec(v) {
            Some(n) => Ok(MatchArgsModel { seed: n, ..m }),
            None => Err("bad --seed"@),
        }
    } else if a == "--matches"@ {
        match parse_usize_spec(v) {
            Some(n) => Ok(MatchArgsModel { matches: n, ..m }),
            None => Err("bad --matches"@),
        }
    } else if a == "--log"@ {
        Ok(MatchArgsModel { log: Some(v), ..m })
    } else if a == "--summary"@ {
        Ok(MatchArgsModel { summary: Some(v), ..m })
    } else if a == "--log-every"@ {
        match parse_u64_spec(v) {
            Some(n) => Ok(MatchArgsModel { log_every: n, ..m }),
            None => Err("bad --log-every"@),
        }
    } else {
        match parse_u64_spec(v) {
            Some(n) => Ok(MatchArgsModel { print_commands_every: n, ..m }),
            None => Err("bad --print-commands-every"@),
        }
    }
}

/// The options after reading `args` from `m`, or the error of the first bad
/// argument. `numbers[i]` says whether `args[i]` reads as a number. `-h` or
/// `--help` stops reading.
pub open spec fn match_args_from(m: MatchArgsModel, args: Seq<Seq<char>>, numbers: Seq<bool>) -> Result<
    MatchArgsModel,
    Seq<char>,
>
    decreases args.len(),
{
    if args.len() == 0 {
        Ok(m)
    } else {
        let a = args[0];
        let rest = args.drop_first();
        if takes_value(a) {
            if rest.len() == 0 {
                Err("missing value for "@ + a)
            } else {
                match apply_valued(m, a, rest[0], numbers[1]) {
                    Ok(m2) => match_args_from(m2, rest.drop_first(), numbers.drop_first().drop_first()),
                    Err(e) => Err(e),
                }
            }
        } else if a == "--print-commands"@ {
            match_args_from(MatchArgsModel { print_commands: true, ..m }, rest, numbers.drop_first())
        } else if a == "--validate-pickup"@ {
            match_args_from(MatchArgsModel { validate_pickup: true, ..m }, rest, numbers.drop_first())
        } else if a == "--viewer"@ {
            match_args_from(MatchArgsModel { viewer: true, ..m }, rest, numbers.drop_first())
        } else if a == "--realtime"@ {
            match_args_from(MatchArgsModel { realtime: true, ..m }, rest, numbers.drop_first())
        } else if a == "--quiet"@ {
            match_args_from(MatchArgsModel { quiet: true, ..m }, rest, numbers.drop_first())
        } else if a == "-h"@ || a == "--help"@ {
            Ok(MatchArgsModel { help: true, ..m })
        } else {
            Err("unknown argument: "@ + a)
        }
    }
}

fn text(s: &str) -> (res: String)
    ensures
        res@ == s@,
{
    let mut out = String::new();
    push_str(&mut out, s);
    out
}

fn is_valued(a: &str) -> (res: bool)
    ensures
        res == takes_value(a@),
{
    str_eq(a, "--blue") || str_eq(a, "--yellow") || str_eq(a, "--seconds") || str_eq(a, "--div")
        || str_eq(a, "--seed") || str_eq(a, "--matches") || str_eq(a, "--log") || str_eq(a, "--summary")
        || str_eq(a, "--log-every") || str_eq(a, "--print-commands-every")
}

impl MatchArgs {
    /// The default options.
    pub fn defaults() -> (res: MatchArgs)
        ensures
            res@ == default_match_args(),
    {
        MatchArgs {
            blue: TeamKind::Bangka,
            yellow: TeamKind::Bangka,
            seconds: None,
            div: 'b',
            seed: 1,
            matches: 1,
            log: None,
            summary: None,
            log_every: 2,
            print_commands: false,
            print_commands_every: 60,
            validate_pickup: false,
            viewer: false,
            realtime: false,
            quiet: false,
            help: false,
        }
    }

    fn apply(&mut self, a: &str, v: &str, v_is_number: bool) -> (res: Result<(), String>)
        requires
            takes_value(a@),
        ensures
            match apply_valued(old(self)@, a@, v@, v_is_number) {
                Ok(m) => res is Ok && final(self)@ == m,
                Err(e) => res is Err && res->Err_0@ == e,
            },
    {
        if str_eq(a, "--blue") {
            match TeamKind::parse(v) {
                Ok(k) => {
                    self.blue = k;
                },
                Err(e) => {
                    return Err(e);
                },
            }
        } else if str_eq(a, "--yellow") {
            match TeamKind::parse(v) {
                Ok(k) => {
                    self.yellow = k;
                },
                Err(e) => {
                    return Err(e);
                },
            }
        } else if str_eq(a, "--seconds") {
            if !v_is_number {
                return Err(text("bad --seconds"));
            }
            self.seconds = Some(text(v));
        } else if str_eq(a, "--div") {
            self.div = if v.unicode_len() > 0 {
                v.get_char(0)
            } else {
                'b'
            };
        } else if str_eq(a, "--seed") {
            match parse_u64(v) {
                Some(n) => {
                    self.seed = n;
                },
                None => {
                    return Err(text("bad --seed"));
                },
            }
        } else if str_eq(a, "--matches") {
            match parse_usize(v) {
                Some(n) => {
                    self.matches = n;
                },
                None => {
                    return Err(text("bad --matches"));
                },
            }
        } else if str_eq(a, "--log") {
            self.log = Some(text(v));
        } else if str_eq(a, "--summary") {
            self.summary = Some(text(v));
        } else if str_eq(a, "--log-every") {
            match parse_u64(v) {
                Some(n) => {
                    self.log_every = n;
                },
                None => {
                    return Err(text("bad --log-every"));
                },
            }
        } else {
            match parse_u64(v) {
                Some(n) => {
                    self.print_commands_every = n;
                },
                None => {
                    return Err(text("bad --print-commands-every"));
                },
            }
        }
        Ok(())
    }

    /// Reads the options from `args` (program name excluded); `numbers[i]`
    /// says whether `args[i]` reads as a floating-point number.
    pub fn parse(args: &Vec<String>, numbers: &Vec<bool>) -> (res: Result<MatchArgs, String>)
        requires
            numbers@.len() == args@.len(),
        ensures
            match match_args_from(default_match_args(), views(args@), numbers@) {
                Ok(m) => res is Ok && res->Ok_0@ == m,
                Err(e) => res is Err && res->Err_0@ == e,
            },
    {
        let mut out = MatchArgs::defaults();
        let n = args.len();
        let mut i: usize = 0;
        proof {
            assert(views(args@).subrange(0, n as int) =~= views(args@));
            assert(numbers@.subrange(0, n as int) =~= numbers@);
        }
        while i < n
            invariant
                i <= n,
                n == args@.len(),
                n == numbers@.len(),
                match_args_from(
                    out@,
                    views(args@).subrange(i as int, n as int),
                    numbers@.subrange(i as int, n as int),
                ) == match_args_from(default_match_args(), views(args@), numbers@),
            decreases n - i,
        {
            let ghost rest = views(args@).subrange(i as int, n as int);
            let ghost nums = numbers@.subrange(i as int, n as int);
            proof {
                assert(rest[0] == args@[i as int]@);
                assert(rest.drop_first() =~= views(args@).subrange(i + 1, n as int));
                assert(nums.drop_first() =~= numbers@.subrange(i + 1, n as int));
            }
            let a = args[i].as_str();
            if is_valued(a) {
                if i + 1 >= n {
                    let mut m = String::new();
                    push_str(&mut m, "missing value for ");
                    push_str(&mut m, a);
                    return Err(m);
                }
                proof {
                    assert(rest.drop_first()[0] == args@[i + 1]@);
                    assert(nums[1] == numbers@[i + 1]);
                    assert(rest.drop_first().drop_first() =~= views(args@).subrange(i + 2, n as int));
                    assert(nums.drop_first().drop_first() =~= numbers@.subrange(i + 2, n as int));
                }
                match out.apply(a, args[i + 1].as_str(), numbers[i + 1]) {
                    Ok(()) => {},
                    Err(e) => {
                        return Err(e);
                    },
                }
                i = i + 2;
            } else if str_eq(a, "--print-commands") {
                out.print_commands = true;
                i = i + 1;
            } else if str_eq(a, "--validate-pickup") {
                out.validate_pickup = true;
                i = i + 1;
            } else if str_eq(a, "--viewer") {
                out.viewer = true;
                i = i + 1;
            } else if str_eq(a, "--realtime") {
                out.realtime = true;
                i = i + 1;
            } else if str_eq(a, "--quiet") {
                out.quiet = true;
                i = i + 1;
            } else if str_eq(a, "-h") || str_eq(a, "--help") {
                out.help = true;
                return Ok(out);
            } else {
                let mut m = String::new();
                push_str(&mut m, "unknown argument: ");
                push_str(&mut m, a);
                return Err(m);
            }
        }
        proof {
            assert(views(args@).subrange(i as int, n as int) =~= Seq::<Seq<char>>::empty());
        }
        Ok(out)
    }
}

/// The path options take any value as it stands: `--summary v` sets the
/// summary path to `v` and `--log v` the log path to `v`, each leaving every
/// other option as it was.
pub proof fn path_options_set_own_field(m: MatchArgsModel, v: Seq<char>, v_is_number: bool)
    ensures
        apply_valued(m, "--summary"@, v, v_is_number) == Ok::<MatchArgsModel, Seq<char>>(
            (MatchArgsModel { summary: Some(v), ..m }),
        ),
        apply_valued(m, "--log"@, v, v_is_number) == Ok::<MatchArgsModel, Seq<char>>(
            (MatchArgsModel { log: Some(v), ..m }),
        ),
{
    lemma_path_options_distinct();
}

proof fn lemma_path_options_distinct()
    ensures
        "--summary"@ != "--blue"@,
        "--summary"@ != "--yellow"@,
        "--summary"@ != "--seconds"@,
        "--summary"@ != "--div"@,
        "--summary"@ != "--seed"@,
        "--summary"@ != "--matches"@,
        "--summary"@ != "--log"@,
        "--log"@ != "--blue"@,
        "--log"@ != "--yellow"@,
        "--log"@ != "--seconds"@,
        "--log"@ != "--div"@,
        "--log"@ != "--seed"@,
        "--log"@ != "--matches"@,
        takes_value("--summary"@),
        takes_value("--log"@),
{
    lemma_valued_options_distinct();
}

proof fn lemma_valued_options_distinct()
    ensures
        valued_options().no_duplicates(),
        forall|a: Seq<char>| takes_value(a) <==> valued_options().contains(a),
{
    reveal_strlit("--blue");
    reveal_strlit("--yellow");
    reveal_strlit("--seconds");
    reveal_strlit("--div");
    reveal_strlit("--seed");
    reveal_strlit("--matches");
    reveal_strlit("--log");
    reveal_strlit("--summary");
    reveal_strlit("--log-every");
    reveal_strlit("--print-commands-every");
    assert("--blue"@[2] != "--seed"@[2]);
    assert("--seconds"@[2] != "--matches"@[2]);
    assert("--summary"@[2] != "--matches"@[2]);
    assert("--summary"@[3] != "--seconds"@[3]);
    assert("--log"@[2] != "--div"@[2]);
    let o = valued_options();
    assert forall|i: int, j: int| 0 <= i < o.len() && 0 <= j < o.len() && i != j implies o[i]
        != o[j] by {
        if o[i] == o[j] {
            assert(o[i].len() == o[j].len());
            assert(o[i][2] == o[j][2]);
            assert(o[i][3] == o[j][3]);
        }
    }
    assert forall|a: Seq<char>| takes_value(a) <==> o.contains(a) by {
        if takes_value(a) {
            if a == "--blue"@ { assert(o[0] == a); }
            else if a == "--yellow"@ { assert(o[1] == a); }
            else if a == "--seconds"@ { assert(o[2] == a); }
            else if a == "--div"@ { assert(o[3] == a); }
            else if a == "--seed"@ { assert(o[4] == a); }
            else if a == "--matches"@ { assert(o[5] == a); }
            else if a == "--log"@ { assert(o[6] == a); }
            else if a == "--summary"@ { assert(o[7] == a); }
            else if a == "--log-every"@ { assert(o[8] == a); }
            else { assert(o[9] == a); }
        }
    }
}

/// The options that take a value.
pub open spec fn valued_options() -> Seq<Seq<char>> {
    seq![
        "--blue"@,
        "--yellow"@,
        "--seconds"@,
        "--div"@,
        "--seed"@,
        "--matches"@,
        "--log"@,
        "--summary"@,
        "--log-every"@,
        "--print-commands-every"@,
    ]
}

/// Whether `m2` agrees with `m` on every option except the one that the
/// valued option `a` sets.
pub open spec fn agrees_except(m: MatchArgsModel, m2: MatchArgsModel, a: Seq<char>) -> bool {
    &&& a != "--blue"@ ==> m2.blue == m.blue
    &&& a != "--yellow"@ ==> m2.yellow == m.yellow
    &&& a != "--seconds"@ ==> m2.seconds == m.seconds
    &&& a != "--div"@ ==> m2.div == m.div
    &&& a != "--seed"@ ==> m2.seed == m.seed
    &&& a != "--matches"@ ==> m2.matches == m.matches
    &&& a != "--log"@ ==> m2.log == m.log
    &&& a != "--summary"@ ==> m2.summary == m.summary
    &&& a != "--log-every"@ ==> m2.log_every == m.log_every
    &&& a != "--print-commands-every"@ ==> m2.print_commands_every == m.print_commands_every
    &&& m2.print_commands == m.print_commands
    &&& m2.validate_pickup == m.validate_pickup
    &&& m2.viewer == m.viewer
    &&& m2.realtime == m.realtime
    &&& m2.quiet == m.quiet
    &&& m2.help == m.help
}

/// Each option that takes a value sets its own field and no other: a
/// team kind for `--blue` and `--yellow` (refused when the kind is
/// unknown), the text for `--seconds` when it reads as a number and for
/// `--log` and `--summary` always, the first character for `--div` (`b`
/// for an empty value), and the decimal number for `--seed`, `--matches`,
/// `--log-every` and `--print-commands-every` (refused when it is not one).
pub proof fn valued_option_sets_own_field(m: MatchArgsModel, a: Seq<char>, v: Seq<char>, v_is_number: bool)
    requires
        takes_value(a),
    ensures
        apply_valued(m, a, v, v_is_number) is Ok ==> agrees_except(
            m,
            apply_valued(m, a, v, v_is_number)->Ok_0,
            a,
        ),
        a == "--blue"@ ==> (apply_valued(m, a, v, v_is_number) is Ok <==> team_kind_parse_spec(v) is Ok)
            && (team_kind_parse_spec(v) is Ok ==> apply_valued(m, a, v, v_is_number)->Ok_0.blue
            == team_kind_parse_spec(v)->Ok_0),
        a == "--yellow"@ ==> (apply_valued(m, a, v, v_is_number) is Ok <==> team_kind_parse_spec(v) is Ok)
            && (team_kind_parse_spec(v) is Ok ==> apply_valued(m, a, v, v_is_number)->Ok_0.yellow
            == team_kind_parse_spec(v)->Ok_0),
        a == "--seconds"@ ==> (apply_valued(m, a, v, v_is_number) is Ok <==> v_is_number) && (
        v_is_number ==> apply_valued(m, a, v, v_is_number)->Ok_0.seconds == Some(v)),
        a == "--div"@ ==> apply_valued(m, a, v, v_is_number) is Ok && apply_valued(
            m,
            a,
            v,
            v_is_number,
        )->Ok_0.div == if v.len() > 0 {
            v[0]
        } else {
            'b'
        },
        a == "--seed"@ ==> (apply_valued(m, a, v, v_is_number) is Ok <==> parse_u64_spec(v) is Some) && (
        parse_u64_spec(v) is Some ==> apply_valued(m, a, v, v_is_number)->Ok_0.seed == parse_u64_spec(
            v,
        )->0),
        a == "--matches"@ ==> (apply_valued(m, a, v, v_is_number) is Ok <==> parse_usize_spec(v) is Some)
            && (parse_usize_spec(v) is Some ==> apply_valued(m, a, v, v_is_number)->Ok_0.matches
            == parse_usize_spec(v)->0),
        a == "--log"@ ==> apply_valued(m, a, v, v_is_number) is Ok && apply_valued(
            m,
            a,
            v,
            v_is_number,
        )->Ok_0.log == Some(v),
        a == "--summary"@ ==> apply_valued(m, a, v, v_is_number) is Ok && apply_valued(
            m,
            a,
            v,
            v_is_number,
        )->Ok_0.summary == Some(v),
        a == "--log-every"@ ==> (apply_valued(m, a, v, v_is_number) is Ok <==> parse_u64_spec(v) is Some)
            && (parse_u64_spec(v) is Some ==> apply_valued(m, a, v, v_is_number)->Ok_0.log_every
            == parse_u64_spec(v)->0),
        a == "--print-commands-every"@ ==> (apply_valued(m, a, v, v_is_number) is Ok <==> parse_u64_spec(v)
            is Some) && (parse_u64_spec(v) is Some ==> apply_valued(
            m,
            a,
            v,
            v_is_number,
        )->Ok_0.print_commands_every == parse_u64_spec(v)->0),
{
    lemma_valued_options_distinct();
    let o = valued_options();
    assert(o.contains(a));
    let k = choose|k: int| 0 <= k < o.len() && o[k] == a;
    assert forall|j: int| 0 <= j < o.len() && j != k implies o[j] != a by {}
    assert(o[0] == "--blue"@);
    assert(o[1] == "--yellow"@);
    assert(o[2] == "--seconds"@);
    assert(o[3] == "--div"@);
    assert(o[4] == "--seed"@);
    assert(o[5] == "--matches"@);
    assert(o[6] == "--log"@);
    assert(o[7] == "--summary"@);
    assert(o[8] == "--log-every"@);
    assert(o[9] == "--print-commands-every"@);
}

/// On the command line, `--summary v` (for any `v`) followed by more
/// arguments reads as the rest read from options whose summary path is `v`;
/// `--log v` likewise for the log path. In particular `--summary v` alone
/// gives the default options with summary path `v` and no log.
pub proof fn path_options_parse(
    m: MatchArgsModel,
    v: Seq<char>,
    rest: Seq<Seq<char>>,
    numbers: Seq<bool>,
)
    requires
        numbers.len() == rest.len() + 2,
    ensures
        match_args_from(m, seq!["--summary"@, v] + rest, numbers) == match_args_from(
            (MatchArgsModel { summary: Some(v), ..m }),
            rest,
            numbers.subrange(2, numbers.len() as int),
        ),
        match_args_from(m, seq!["--log"@, v] + rest, numbers) == match_args_from(
            (MatchArgsModel { log: Some(v), ..m }),
            rest,
            numbers.subrange(2, numbers.len() as int),
        ),
        match_args_from(default_match_args(), seq!["--summary"@, v], numbers.subrange(0, 2)) == Ok::<
            MatchArgsModel,
            Seq<char>,
        >((MatchArgsModel { summary: Some(v), ..default_match_args() })),
        match_args_from(default_match_args(), seq!["--summary"@, v], numbers.subrange(0, 2))->Ok_0.log
            is None,
{
    lemma_path_options_distinct();
    path_options_set_own_field(m, v, numbers[1]);
    path_options_set_own_field(default_match_args(), v, numbers[1]);
    let args_s = seq!["--summary"@, v] + rest;
    let args_l = seq!["--log"@, v] + rest;
    assert(args_s[0] == "--summary"@);
    assert(args_s.drop_first()[0] == v);
    assert(args_s.drop_first().drop_first() =~= rest);
    assert(args_l[0] == "--log"@);
    assert(args_l.drop_first()[0] == v);
    assert(args_l.drop_first().drop_first() =~= rest);
    assert(numbers.drop_first().drop_first() =~= numbers.subrange(2, numbers.len() as int));
    let two = seq!["--summary"@, v];
    let nums2 = numbers.subrange(0, 2);
    assert(two.drop_first()[0] == v);
    assert(two.drop_first().drop_first() =~= Seq::<Seq<char>>::empty());
    assert(nums2[1] == numbers[1]);
    let m2 = MatchArgsModel { summary: Some(v), ..default_match_args() };
    assert(match_args_from(m2, two.drop_first().drop_first(), nums2.drop_first().drop_first()) == Ok::<
        MatchArgsModel,
        Seq<char>,
    >(m2));
    assert(takes_value(two[0]));
    assert(apply_valued(default_match_args(), two[0], two.drop_first()[0], nums2[1]) == Ok::<
        MatchArgsModel,
        Seq<char>,
    >(m2));
}

/// The seed of match `index` of a series: the base seed plus the index,
/// wrapping.
pub fn series_seed(seed: u64, index: u64) -> (res: u64)
    ensures
        res == ((seed + index) % 0x1_0000_0000_0000_0000) as u64,
{
    seed.wrapping_add(index)
}

/// The log file of match `index`: in a series of several matches every
/// `.log` in the base name becomes `_<index>.log`; a single match logs to
/// the base name.
pub open spec fn series_log_path_spec(base: Seq<char>, index: usize, matches: usize) -> Seq<char> {
    if matches > 1 {
        replace_all_spec(base, ".log"@, "_"@ + decimal_digits(index as nat) + ".log"@)
    } else {
        base
    }
}

/// See [`series_log_path_spec`].
pub fn series_log_path(base: &str, index: usize, matches: usize) -> (res: String)
    ensures
        res@ == series_log_path_spec(base@, index, matches),
{
    if matches > 1 {
        let mut rep = String::new();
        push_str(&mut rep, "_");
        push_decimal(&mut rep, index as u64);
        push_str(&mut rep, ".log");
        proof {
            reveal_strlit(".log");
        }
        replace_all(base, ".log", rep.as_str())
    } else {
        text(base)
    }
}

/// The headline printed after a match, e.g.
/// `=== Final: blue:bangka 2 - 1 yellow:sumatra  | winner: blue:bangka ===`.
pub fn final_line(blue_name: &str, blue_goals: u32, yellow_goals: u32, yellow_name: &str, winner: &str) -> (res:
    String)
    ensures
        res@ == "=== Final: "@ + blue_name@ + " "@ + decimal_digits(blue_goals as nat) + " - "@
            + decimal_digits(yellow_goals as nat) + " "@ + yellow_name@ + "  | winner: "@ + winner@
            + " ==="@,
{
    let mut out = String::new();
    push_str(&mut out, "=== Final: ");
    push_str(&mut out, blue_name);
    push_str(&mut out, " ");
    push_decimal(&mut out, blue_goals as u64);
    push_str(&mut out, " - ");
    push_decimal(&mut out, yellow_goals as u64);
    push_str(&mut out, " ");
    push_str(&mut out, yellow_name);
    push_str(&mut out, "  | winner: ");
    push_str(&mut out, winner);
    push_str(&mut out, " ===");
    out
}

/// `--- match <n>/<total> ---`, printed before each match of a series.
pub fn series_header(index: usize, matches: usize) -> (res: String)
    requires
        index < usize::MAX,
    ensures
        res@ == "--- match "@ + decimal_digits((index + 1) as nat) + "/"@ + decimal_digits(matches as nat)
            + " ---"@,
{
    let mut out = String::new();
    push_str(&mut out, "--- match ");
    push_decimal(&mut out, (index + 1) as u64);
    push_str(&mut out, "/");
    push_decimal(&mut out, matches as u64);
    push_str(&mut out, " ---");
    out
}

} // verus!
