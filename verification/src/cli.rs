//! The command line: flags and positional roots parsed into a `Cli`
//! value, against a precise model of the argument grammar.

use vstd::prelude::*;
use crate::text::{is_digit, chars_of, is_digit_char, str_eq};
use crate::size::{digits_val, spec_parse_size, parse_size, lemma_digits_val_prefix_le};

verus! {

/// The parsed command line.
#[derive(Debug)]
pub struct Cli {
    /// Roots to scan: directories, or list files naming directories.
    pub paths: Vec<String>,
    /// Glob pattern selecting files; every file matches when absent.
    pub glob: Option<String>,
    /// Glob pattern excluding files.
    pub exclude: Option<String>,
    /// Size floor in bytes.
    pub min_size: u64,
    /// Move files to the host trash instead of removing them.
    pub trash: bool,
    /// Preview only: no filesystem mutation.
    pub dry_run: bool,
    /// Skip the confirmation prompt.
    pub yes: bool,
    /// Worker bound for both phases; zero stands for the runner's default.
    pub parallelism: usize,
    /// Report each processed path during the sweep.
    pub verbose: bool,
}

/// The command line at the level of views.
#[verifier::ext_equal]
pub struct CliModel {
    pub paths: Seq<Seq<char>>,
    pub glob: Option<Seq<char>>,
    pub exclude: Option<Seq<char>>,
    pub min_size: u64,
    pub trash: bool,
    pub dry_run: bool,
    pub yes: bool,
    pub parallelism: int,
    pub verbose: bool,
}

/// Why the command line was rejected.
pub enum CliProblem {
    /// The flag (carried here) was the last argument but takes a value.
    MissingValue(Seq<char>),
    /// An argument starting with `-` that is no known flag.
    UnknownFlag(Seq<char>),
    /// The `--min-size` value was rejected; carries the size error.
    BadSize(Seq<char>),
    /// The `--parallelism` value is not an unsigned number in range.
    BadParallelism(Seq<char>),
    /// No root path was given.
    NoPaths,
}

/// The defaults before any argument is read.
pub open spec fn spec_cli_default() -> CliModel {
    CliModel {
        paths: Seq::empty(),
        glob: None,
        exclude: None,
        min_size: 0,
        trash: false,
        dry_run: false,
        yes: false,
        parallelism: 0,
        verbose: false,
    }
}

/// Whether `s` is a plain decimal number that fits in `usize`.
pub open spec fn spec_usize_ok(s: Seq<char>) -> bool {
    s.len() > 0 && (forall|i: int| 0 <= i < s.len() ==> is_digit(#[trigger] s[i]))
        && digits_val(s) <= usize::MAX
}

/// The argument grammar, one or two arguments at a time: value flags take
/// the next argument, switches stand alone, anything else starting with a
/// dash is unknown, and everything else is a root path.  At the end there
/// must be at least one root.
pub open spec fn spec_parse_args(args: Seq<Seq<char>>, acc: CliModel) -> Result<
    CliModel,
    CliProblem,
>
    decreases args.len(),
{
    if args.len() == 0 {
        if acc.paths.len() == 0 {
            Err(CliProblem::NoPaths)
        } else {
            Ok(acc)
        }
    } else {
        let a = args[0];
        if a == "--glob"@ || a == "-g"@ {
            if args.len() == 1 {
                Err(CliProblem::MissingValue(a))
            } else {
                spec_parse_args(args.skip(2), CliModel { glob: Some(args[1]), ..acc })
            }
        } else if a == "--exclude"@ {
            if args.len() == 1 {
                Err(CliProblem::MissingValue(a))
            } else {
                spec_parse_args(args.skip(2), CliModel { exclude: Some(args[1]), ..acc })
            }
        } else if a == "--min-size"@ {
            if args.len() == 1 {
                Err(CliProblem::MissingValue(a))
            } else {
                match spec_parse_size(args[1]) {
                    Ok(v) => spec_parse_args(args.skip(2), CliModel { min_size: v, ..acc }),
                    Err(m) => Err(CliProblem::BadSize(m)),
                }
            }
        } else if a == "--parallelism"@ || a == "-p"@ {
            if args.len() == 1 {
                Err(CliProblem::MissingValue(a))
            } else if spec_usize_ok(args[1]) {
                spec_parse_args(
                    args.skip(2),
                    CliModel { parallelism: digits_val(args[1]), ..acc },
                )
            } else {
                Err(CliProblem::BadParallelism(args[1]))
            }
        } else if a == "--trash"@ {
            spec_parse_args(args.skip(1), CliModel { trash: true, ..acc })
        } else if a == "--dry-run"@ {
            spec_parse_args(args.skip(1), CliModel { dry_run: true, ..acc })
        } else if a == "--yes"@ || a == "-y"@ {
            spec_parse_args(args.skip(1), CliModel { yes: true, ..acc })
        } else if a == "--verbose"@ || a == "-v"@ {
            spec_parse_args(args.skip(1), CliModel { verbose: true, ..acc })
        } else if a.len() > 1 && a[0] == '-' {
            Err(CliProblem::UnknownFlag(a))
        } else {
            spec_parse_args(args.skip(1), CliModel { paths: acc.paths.push(a), ..acc })
        }
    }
}

/// The model of a parsed `Cli` value.
pub open spec fn cli_model(c: Cli) -> CliModel {
    CliModel {
        paths: c.paths@.map_values(|p: String| p@),
        glob: match c.glob {
            Some(g) => Some(g@),
            None => None,
        },
        exclude: match c.exclude {
            Some(e) => Some(e@),
            None => None,
        },
        min_size: c.min_size,
        trash: c.trash,
        dry_run: c.dry_run,
        yes: c.yes,
        parallelism: c.parallelism as int,
        verbose: c.verbose,
    }
}

/// The views of the arguments after the program name.
pub open spec fn spec_args_view(args: Seq<&str>) -> Seq<Seq<char>> {
    if args.len() == 0 {
        Seq::empty()
    } else {
        args.skip(1).map_values(|a: &str| a@)
    }
}

/// Parses `s` as a plain decimal `usize`.
fn parse_usize(s: &str) -> (r: Option<usize>)
    ensures
        r is Some <==> spec_usize_ok(s@),
        r is Some ==> r->0 == digits_val(s@),
{
    let v = chars_of(s);
    let n = v.len();
    if n == 0 {
        return None;
    }
    let mut val: usize = 0;
    let mut i: usize = 0;
    while i < n
        invariant
            v@ == s@,
            i <= n == v@.len(),
            forall|j: int| 0 <= j < i ==> is_digit(#[trigger] v@[j]),
            val == digits_val(v@.take(i as int)),
        decreases n - i,
    {
        let c = v[i];
        if !is_digit_char(c) {
            return None;
        }
        let d = (c as u32 - 48) as usize;
        let wide: u128 = val as u128 * 10 + d as u128;
        proof {
            assert(v@.take(i + 1).drop_last() =~= v@.take(i as int));
            assert(digits_val(v@.take(i + 1)) == val * 10 + (c as u32 - 48));
        }
        if wide > usize::MAX as u128 {
            proof {
                assert(forall|j: int| 0 <= j <= i ==> is_digit(#[trigger] v@[j]));
                if spec_usize_ok(s@) {
                    assert(s@.take(i + 1) =~= v@.take(i + 1));
                    lemma_digits_val_prefix_le(s@, i + 1);
                }
            }
            return None;
        }
        val = wide as usize;
        i = i + 1;
    }
    proof {
        assert(v@.take(n as int) =~= s@);
    }
    Some(val)
}

impl Cli {
    /// Parses the command line, the program name first.
    ///
    /// `--glob`/`-g`, `--exclude`, `--min-size` and `--parallelism`/`-p`
    /// take the following argument as their value; `--trash`,
    /// `--dry-run`, `--yes`/`-y` and `--verbose`/`-v` stand alone; any
    /// other argument beginning with a dash is rejected; everything else
    /// is a root path, of which at least one is required.
    pub fn parse_from(args: &[&str]) -> (r: Result<Cli, String>)
        ensures
            r is Ok <==> spec_parse_args(spec_args_view(args@), spec_cli_default()) is Ok,
            r is Ok ==> cli_model(r->Ok_0) == spec_parse_args(
                spec_args_view(args@),
                spec_cli_default(),
            )->Ok_0,
            r is Err ==> match spec_parse_args(spec_args_view(args@), spec_cli_default()) {
                Ok(_) => false,
                Err(CliProblem::MissingValue(f)) => r->Err_0@ == "missing value for "@ + f,
                Err(CliProblem::UnknownFlag(a)) => r->Err_0@ == "unexpected argument: "@ + a,
                Err(CliProblem::BadSize(m)) => r->Err_0@ == m,
                Err(CliProblem::BadParallelism(a)) => r->Err_0@ == "invalid parallelism: "@
                    + a,
                Err(CliProblem::NoPaths) => r->Err_0@ == "no paths given"@,
            },
    {
        let ghost sargs = spec_args_view(args@);
        let mut cli = Cli {
            paths: Vec::new(),
            glob: None,
            exclude: None,
            min_size: 0,
            trash: false,
            dry_run: false,
            yes: false,
            parallelism: 0,
            verbose: false,
        };
        let mut i: usize = 1;
        proof {
            assert(sargs.skip(0) =~= sargs);
            assert(cli_model(cli) =~= spec_cli_default());
        }
        while i < args.len()
            invariant
                sargs == spec_args_view(args@),
                args@.len() == 0 ==> i == 1 && cli_model(cli) == spec_cli_default(),
                args@.len() > 0 ==> 1 <= i <= args@.len(),
                args@.len() > 0 ==> sargs.len() == args@.len() - 1,
                args@.len() > 0 ==> spec_parse_args(sargs.skip(i - 1), cli_model(cli))
                    == spec_parse_args(sargs, spec_cli_default()),
            decreases args@.len() - i,
        {
            let a: &str = args[i];
            let ghost rest = sargs.skip(i - 1);
            proof {
                assert(rest[0] == sargs[i - 1]);
                assert(sargs[i - 1] == args@[i as int]@);
                assert(rest.drop_first() =~= sargs.skip(i as int));
            }
            if str_eq(a, "--glob") || str_eq(a, "-g") {
                if i + 1 >= args.len() {
                    proof {
                        assert(rest.len() == 1);
                    }
                    let mut m = String::from_str("missing value for ");
                    m.append(a);
                    return Err(m);
                }
                proof {
                    assert(rest[1] == sargs[i as int]);
                    assert(rest.skip(2) =~= sargs.skip(i + 1));
                }
                cli.glob = Some(String::from_str(args[i + 1]));
                i = i + 2;
            } else if str_eq(a, "--exclude") {
                if i + 1 >= args.len() {
                    proof {
                        assert(rest.len() == 1);
                    }
                    let mut m = String::from_str("missing value for ");
                    m.append(a);
                    return Err(m);
                }
                proof {
                    assert(rest[1] == sargs[i as int]);
                    assert(rest.skip(2) =~= sargs.skip(i + 1));
                }
                cli.exclude = Some(String::from_str(args[i + 1]));
                i = i + 2;
            } else if str_eq(a, "--min-size") {
                if i + 1 >= args.len() {
                    proof {
                        assert(rest.len() == 1);
                    }
                    let mut m = String::from_str("missing value for ");
                    m.append(a);
                    return Err(m);
                }
                proof {
                    assert(rest[1] == sargs[i as int]);
                    assert(rest.skip(2) =~= sargs.skip(i + 1));
                }
                match parse_size(args[i + 1]) {
                    Ok(v) => {
                        cli.min_size = v;
                    },
                    Err(m) => {
                        return Err(m);
                    },
                }
                i = i + 2;
            } else if str_eq(a, "--parallelism") || str_eq(a, "-p") {
                if i + 1 >= args.len() {
                    proof {
                        assert(rest.len() == 1);
                    }
                    let mut m = String::from_str("missing value for ");
                    m.append(a);
                    return Err(m);
                }
                proof {
                    assert(rest[1] == sargs[i as int]);
                    assert(rest.skip(2) =~= sargs.skip(i + 1));
                }
                match parse_usize(args[i + 1]) {
                    Some(v) => {
                        cli.parallelism = v;
                    },
                    None => {
                        let mut m = String::from_str("invalid parallelism: ");
                        m.append(args[i + 1]);
                        return Err(m);
                    },
                }
                i = i + 2;
            } else if str_eq(a, "--trash") {
                cli.trash = true;
                i = i + 1;
            } else if str_eq(a, "--dry-run") {
                cli.dry_run = true;
                i = i + 1;
            } else if str_eq(a, "--yes") || str_eq(a, "-y") {
                cli.yes = true;
                i = i + 1;
            } else if str_eq(a, "--verbose") || str_eq(a, "-v") {
                cli.verbose = true;
                i = i + 1;
            } else {
                let dash = if a.unicode_len() > 1 {
                    a.get_char(0) == '-'
                } else {
                    false
                };
                if dash {
                    let mut m = String::from_str("unexpected argument: ");
                    m.append(a);
                    return Err(m);
                }
                let ghost oldpaths = cli.paths@.map_values(|p: String| p@);
                cli.paths.push(String::from_str(a));
                proof {
                    assert(cli.paths@.map_values(|p: String| p@) =~= oldpaths.push(a@));
                }
                i = i + 1;
            }
        }
        proof {
            if args@.len() > 0 {
                assert(i == args@.len());
                assert(sargs.skip(i - 1) =~= Seq::<Seq<char>>::empty());
            }
        }
        if cli.paths.len() == 0 {
            proof {
                assert(cli_model(cli).paths.len() == 0);
            }
            return Err(String::from_str("no paths given"));
        }
        Ok(cli)
    }
}

} // verus!
