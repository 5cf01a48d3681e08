//! The command line: options, and which arguments name files.
//!
//! `-h`/`--help` and `-v`/`--version` end parsing; `--` makes every later
//! argument a file name; a lone `-` drops the files named so far and ends
//! parsing (the document then comes from standard input).

use vstd::prelude::*;

verus! {

/// What the command line asks for.
#[derive(Debug, Clone, PartialEq, Eq)]
pub enum CommandLine {
    Help,
    Version,
    /// Open the files named by the arguments at these positions.
    Open { paths: Vec<usize> },
}

/// "--"
pub open spec fn lit_end_of_options() -> Seq<u8> {
    seq![0x2Du8, 0x2Du8]
}

/// "-"
pub open spec fn lit_stdin() -> Seq<u8> {
    seq![0x2Du8]
}

/// "-h", "--help"
pub open spec fn is_help(a: Seq<u8>) -> bool {
    a == seq![0x2Du8, 0x68u8] || a == seq![0x2Du8, 0x2Du8, 0x68u8, 0x65u8, 0x6Cu8, 0x70u8]
}

/// "-v", "--version"
pub open spec fn is_version(a: Seq<u8>) -> bool {
    a == seq![0x2Du8, 0x76u8] || a == seq![
        0x2Du8,
        0x2Du8,
        0x76u8,
        0x65u8,
        0x72u8,
        0x73u8,
        0x69u8,
        0x6Fu8,
        0x6Eu8,
    ]
}

/// The outcome of reading `args[i..]` with options still recognized when
/// `options` holds and the files `paths` named so far: 0 to open files, 1
/// for help, 2 for the version; and the files' positions.
pub open spec fn outcome(args: Seq<Seq<u8>>, i: int, options: bool, paths: Seq<usize>) -> (
    u8,
    Seq<usize>,
)
    decreases args.len() - i,
{
    if i >= args.len() || i < 0 {
        (0, paths)
    } else if options && args[i] == lit_end_of_options() {
        outcome(args, i + 1, false, paths)
    } else if options && args[i] == lit_stdin() {
        (0, Seq::empty())
    } else if options && is_help(args[i]) {
        (1, Seq::empty())
    } else if options && is_version(args[i]) {
        (2, Seq::empty())
    } else {
        outcome(args, i + 1, options, paths.push(i as usize))
    }
}

fn equals(a: &Vec<u8>, lit: &[u8]) -> (r: bool)
    ensures
        r == (a@ == lit@),
{
    if a.len() != lit.len() {
        return false;
    }
    let mut i: usize = 0;
    while i < a.len()
        invariant
            i <= a@.len() == lit@.len(),
            forall|k: int| 0 <= k < i ==> a@[k] == lit@[k],
        decreases a@.len() - i,
    {
        if a[i] != lit[i] {
            return false;
        }
        i = i + 1;
    }
    assert(a@ =~= lit@);
    true
}

/// Reads the command line (without the program name).
pub fn parse_args(args: &Vec<Vec<u8>>) -> (r: CommandLine)
    ensures
        ({
            let o = outcome(args@.map_values(|a: Vec<u8>| a@), 0, true, Seq::empty());
            match r {
                CommandLine::Help => o.0 == 1,
                CommandLine::Version => o.0 == 2,
                CommandLine::Open { paths } => o.0 == 0 && paths@ == o.1,
            }
        }),
{
    let ghost views = args@.map_values(|a: Vec<u8>| a@);
    let dashes: [u8; 2] = [0x2D, 0x2D];
    let dash: [u8; 1] = [0x2D];
    let short_help: [u8; 2] = [0x2D, 0x68];
    let long_help: [u8; 6] = [0x2D, 0x2D, 0x68, 0x65, 0x6C, 0x70];
    let short_version: [u8; 2] = [0x2D, 0x76];
    let long_version: [u8; 9] = [0x2D, 0x2D, 0x76, 0x65, 0x72, 0x73, 0x69, 0x6F, 0x6E];
    proof {
        assert(dashes@ =~= lit_end_of_options());
        assert(dash@ =~= lit_stdin());
        assert(short_help@ =~= seq![0x2Du8, 0x68u8]);
        assert(long_help@ =~= seq![0x2Du8, 0x2Du8, 0x68u8, 0x65u8, 0x6Cu8, 0x70u8]);
        assert(short_version@ =~= seq![0x2Du8, 0x76u8]);
        assert(long_version@ =~= seq![
            0x2Du8,
            0x2Du8,
            0x76u8,
            0x65u8,
            0x72u8,
            0x73u8,
            0x69u8,
            0x6Fu8,
            0x6Eu8,
        ]);
    }
    let mut paths: Vec<usize> = Vec::new();
    let mut options = true;
    let mut i: usize = 0;
    while i < args.len()
        invariant
            i <= args@.len(),
            views == args@.map_values(|a: Vec<u8>| a@),
            outcome(views, 0, true, Seq::empty()) == outcome(views, i as int, options, paths@),
            dashes@ == lit_end_of_options(),
            dash@ == lit_stdin(),
            short_help@ == seq![0x2Du8, 0x68u8],
            long_help@ == seq![0x2Du8, 0x2Du8, 0x68u8, 0x65u8, 0x6Cu8, 0x70u8],
            short_version@ == seq![0x2Du8, 0x76u8],
            long_version@ == seq![
                0x2Du8,
                0x2Du8,
                0x76u8,
                0x65u8,
                0x72u8,
                0x73u8,
                0x69u8,
                0x6Fu8,
                0x6Eu8,
            ],
        decreases args@.len() - i,
    {
        let a = &args[i];
        assert(views[i as int] == a@);
        if options && equals(a, &dashes) {
            options = false;
        } else if options && equals(a, &dash) {
            return CommandLine::Open { paths: Vec::new() };
        } else if options && (equals(a, &short_help) || equals(a, &long_help)) {
            return CommandLine::Help;
        } else if options && (equals(a, &short_version) || equals(a, &long_version)) {
            return CommandLine::Version;
        } else {
            paths.push(i);
        }
        i = i + 1;
    }
    CommandLine::Open { paths }
}

} // verus!
