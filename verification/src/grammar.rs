//! The command grammar: the top-level `--dry-run` flag, the closed set
//! of subcommands with their flag fragments, and the parser that turns
//! the process arguments into a structured match result.
//!
//! Grammar of one invocation, after the program name: any number of
//! leading `--dry-run` tokens, then optionally a subcommand name
//! followed by that subcommand's own arguments.  A leading token that
//! starts with `--` and is not the dry-run flag is an unknown flag; a
//! leading token that is no registered subcommand name is an unknown
//! subcommand; an argument of a matched subcommand that starts with
//! `--` and is not among the flags its fragment declares is an unknown
//! flag.  All three are usage errors, raised before any configuration
//! work.

use vstd::prelude::*;

verus! {

use crate::text::seq_views;
use vstd::string::StrSliceExecFns;

/// The closed set of subcommands this tool dispatches to.
#[derive(Clone, Copy, PartialEq, Eq, Structural, Debug)]
pub enum Subcommand {
    Topic,
    Changes,
    Config,
    GerritApi,
}

/// One subcommand's fragment of the grammar: its name and the long
/// flags its own schema accepts.  The rest of a subcommand's argument
/// schema is owned by its handler and opaque to this layer.
pub struct SubGrammar {
    pub name: String,
    pub flags: Vec<String>,
}

/// The composed grammar: the top-level dry-run flag and the registered
/// subcommand fragments.
pub struct Grammar {
    pub dry_run_flag: String,
    pub subs: Vec<SubGrammar>,
}

/// A malformed invocation, reported before any configuration work.
#[derive(Debug)]
pub enum UsageError {
    UnknownFlag { token: String },
    UnknownSubcommand { token: String },
}

/// The result of matching the process arguments against an arbitrary
/// grammar: the dry-run state, the index of the matched subcommand in
/// the grammar (if one was named), and that subcommand's raw arguments.
pub struct Parsed {
    pub dry_run: bool,
    pub sub: Option<usize>,
    pub sub_args: Vec<String>,
}

/// The result of matching the process arguments against the standard
/// grammar of this tool.
pub struct ParsedArguments {
    pub dry_run: bool,
    pub subcommand: Option<Subcommand>,
    pub sub_args: Vec<String>,
}

/// A token that syntactically is a long flag.
pub open spec fn is_long_flag(t: Seq<char>) -> bool {
    t.len() >= 2 && t[0] == '-' && t[1] == '-'
}

/// The names of a grammar's subcommands, in registration order.
pub open spec fn grammar_names(subs: Seq<SubGrammar>) -> Seq<Seq<char>> {
    subs.map_values(|sg: SubGrammar| sg.name@)
}

/// The declared flag sets of a grammar's subcommands, in registration
/// order.
pub open spec fn grammar_flagsets(subs: Seq<SubGrammar>) -> Seq<Seq<Seq<char>>> {
    subs.map_values(|sg: SubGrammar| seq_views(sg.flags@))
}

/// How many leading tokens are the dry-run flag.
pub open spec fn leading_dry(flag: Seq<char>, args: Seq<Seq<char>>) -> int
    decreases args.len(),
{
    if args.len() == 0 || args[0] != flag {
        0
    } else {
        1 + leading_dry(flag, args.drop_first())
    }
}

/// The index of the first name equal to `t`, or -1 when there is none.
pub open spec fn name_index(names: Seq<Seq<char>>, t: Seq<char>) -> int
    decreases names.len(),
{
    if names.len() == 0 {
        -1
    } else if names[0] == t {
        0
    } else {
        let r = name_index(names.drop_first(), t);
        if r < 0 {
            -1
        } else {
            1 + r
        }
    }
}

/// Whether `t` is one of the declared flags.
pub open spec fn flag_known(flags: Seq<Seq<char>>, t: Seq<char>) -> bool {
    exists|j: int| 0 <= j < flags.len() && flags[j] == t
}

/// The index of the first token that is a long flag outside the
/// declared flag set, or -1 when there is none.
pub open spec fn first_bad_flag(flags: Seq<Seq<char>>, rest: Seq<Seq<char>>) -> int
    decreases rest.len(),
{
    if rest.len() == 0 {
        -1
    } else if is_long_flag(rest[0]) && !flag_known(flags, rest[0]) {
        0
    } else {
        let r = first_bad_flag(flags, rest.drop_first());
        if r < 0 {
            -1
        } else {
            1 + r
        }
    }
}

/// What parsing decides, stated over plain sequences.
pub enum ParseModel {
    Accepted { dry_run: bool, sub: Option<int>, sub_args: Seq<Seq<char>> },
    BadFlag { token: Seq<char> },
    BadSubcommand { token: Seq<char> },
}

/// The full parsing contract: the leading dry-run run, then either the
/// end of the arguments (no subcommand), an unknown long flag, an
/// unknown subcommand name, or a matched subcommand whose remaining
/// long flags must all be declared by its fragment.
pub open spec fn parse_model(
    flag: Seq<char>,
    names: Seq<Seq<char>>,
    flagsets: Seq<Seq<Seq<char>>>,
    args: Seq<Seq<char>>,
) -> ParseModel {
    let k = leading_dry(flag, args);
    if k == args.len() {
        ParseModel::Accepted { dry_run: k > 0, sub: None, sub_args: Seq::empty() }
    } else {
        let t = args[k];
        if is_long_flag(t) {
            ParseModel::BadFlag { token: t }
        } else {
            let i = name_index(names, t);
            if i < 0 {
                ParseModel::BadSubcommand { token: t }
            } else {
                let rest = args.skip(k + 1);
                let b = first_bad_flag(flagsets[i], rest);
                if b >= 0 {
                    ParseModel::BadFlag { token: rest[b] }
                } else {
                    ParseModel::Accepted { dry_run: k > 0, sub: Some(i), sub_args: rest }
                }
            }
        }
    }
}

/// How far the leading run of dry-run flags reaches.
fn scan_leading_dry(flag: &String, args: &Vec<String>) -> (k: usize)
    ensures
        k <= args@.len(),
        k == leading_dry(flag@, seq_views(args@)),
        k < args@.len() ==> args@[k as int]@ != flag@,
{
    let ghost va = seq_views(args@);
    assert(va.skip(0) =~= va);
    let mut i: usize = 0;
    loop
        invariant
            i <= args@.len(),
            va == seq_views(args@),
            va.len() == args@.len(),
            leading_dry(flag@, va) == i + leading_dry(flag@, va.skip(i as int)),
        decreases args@.len() - i,
    {
        if i == args.len() {
            assert(va.skip(i as int).len() == 0);
            return i;
        }
        let hit = flag.eq(&args[i]);
        assert(va.skip(i as int)[0] == args@[i as int]@);
        if !hit {
            return i;
        }
        assert(va.skip(i as int).drop_first() =~= va.skip(i as int + 1));
        i = i + 1;
    }
}

/// Whether the token syntactically is a long flag.
fn is_long_flag_exec(t: &String) -> (r: bool)
    ensures
        r == is_long_flag(t@),
{
    let s = t.as_str();
    let n = s.unicode_len();
    if n < 2 {
        false
    } else {
        s.get_char(0) == '-' && s.get_char(1) == '-'
    }
}

/// The first registered subcommand whose name equals `t`.
fn find_sub(subs: &Vec<SubGrammar>, t: &String) -> (r: Option<usize>)
    ensures
        match r {
            Some(i) => i < subs@.len() && name_index(grammar_names(subs@), t@) == i,
            None => name_index(grammar_names(subs@), t@) == -1,
        },
{
    let ghost names = grammar_names(subs@);
    assert(names.skip(0) =~= names);
    let mut i: usize = 0;
    loop
        invariant
            i <= subs@.len(),
            names == grammar_names(subs@),
            names.len() == subs@.len(),
            name_index(names, t@) == (if name_index(names.skip(i as int), t@) < 0 {
                -1int
            } else {
                i + name_index(names.skip(i as int), t@)
            }),
        decreases subs@.len() - i,
    {
        if i == subs.len() {
            assert(names.skip(i as int).len() == 0);
            return None;
        }
        let hit = t.eq(&subs[i].name);
        assert(names.skip(i as int)[0] == subs@[i as int].name@);
        if hit {
            assert(name_index(names.skip(i as int), t@) == 0);
            return Some(i);
        }
        assert(names.skip(i as int).drop_first() =~= names.skip(i as int + 1));
        i = i + 1;
    }
}

/// Whether `t` is among the declared flags.
fn flag_in_set(flags: &Vec<String>, t: &String) -> (r: bool)
    ensures
        r == flag_known(seq_views(flags@), t@),
{
    let ghost fs = seq_views(flags@);
    let mut i: usize = 0;
    while i < flags.len()
        invariant
            i <= flags@.len(),
            fs == seq_views(flags@),
            fs.len() == flags@.len(),
            forall|j: int| 0 <= j < i ==> fs[j] != t@,
        decreases flags@.len() - i,
    {
        if t.eq(&flags[i]) {
            assert(fs[i as int] == flags@[i as int]@);
            return true;
        }
        assert(fs[i as int] == flags@[i as int]@);
        i = i + 1;
    }
    false
}

/// The first argument from position `from` on that is an undeclared
/// long flag.
fn scan_sub_args(flags: &Vec<String>, args: &Vec<String>, from: usize) -> (r: Option<usize>)
    requires
        from <= args@.len(),
    ensures
        ({
            let rest = seq_views(args@).skip(from as int);
            let fs = seq_views(flags@);
            match r {
                Some(j) => from <= j < args@.len() && first_bad_flag(fs, rest) == j - from,
                None => first_bad_flag(fs, rest) == -1,
            }
        }),
{
    let ghost va = seq_views(args@);
    let ghost fs = seq_views(flags@);
    let ghost rest = va.skip(from as int);
    let mut i: usize = from;
    loop
        invariant
            from <= i <= args@.len(),
            va == seq_views(args@),
            fs == seq_views(flags@),
            rest == va.skip(from as int),
            va.len() == args@.len(),
            first_bad_flag(fs, rest) == (if first_bad_flag(fs, va.skip(i as int)) < 0 {
                -1int
            } else {
                i - from + first_bad_flag(fs, va.skip(i as int))
            }),
        decreases args@.len() - i,
    {
        if i == args.len() {
            assert(va.skip(i as int).len() == 0);
            return None;
        }
        let bad = is_long_flag_exec(&args[i]) && !flag_in_set(flags, &args[i]);
        assert(va.skip(i as int)[0] == args@[i as int]@);
        if bad {
            assert(first_bad_flag(fs, va.skip(i as int)) == 0);
            return Some(i);
        }
        assert(va.skip(i as int).drop_first() =~= va.skip(i as int + 1));
        i = i + 1;
    }
}

/// The arguments from position `from` on, as an owned vector.
fn tail_args(args: &Vec<String>, from: usize) -> (r: Vec<String>)
    requires
        from <= args@.len(),
    ensures
        r@ == args@.skip(from as int),
{
    let mut r: Vec<String> = Vec::new();
    let mut i: usize = from;
    while i < args.len()
        invariant
            from <= i <= args@.len(),
            r@ =~= args@.subrange(from as int, i as int),
        decreases args@.len() - i,
    {
        r.push(args[i].clone());
        i = i + 1;
    }
    assert(r@ =~= args@.skip(from as int));
    r
}

/// Parses the process arguments against an arbitrary grammar.
pub fn parse_with(g: &Grammar, args: &Vec<String>) -> (r: Result<Parsed, UsageError>)
    ensures
        ({
            let m = parse_model(
                g.dry_run_flag@,
                grammar_names(g.subs@),
                grammar_flagsets(g.subs@),
                seq_views(args@),
            );
            match r {
                Ok(p) => m matches ParseModel::Accepted { dry_run, sub, sub_args }
                    && p.dry_run == dry_run && (match (p.sub, sub) {
                    (Some(i), Some(si)) => i as int == si && i < g.subs@.len(),
                    (None, None) => true,
                    _ => false,
                }) && seq_views(p.sub_args@) == sub_args,
                Err(UsageError::UnknownFlag { token }) => m matches ParseModel::BadFlag {
                    token: tk,
                } && token@ == tk,
                Err(UsageError::UnknownSubcommand { token }) => m matches ParseModel::BadSubcommand {
                    token: tk,
                } && token@ == tk,
            }
        }),
{
    let ghost va = seq_views(args@);
    let k = scan_leading_dry(&g.dry_run_flag, args);
    let dry = k > 0;
    if k == args.len() {
        let p = Parsed { dry_run: dry, sub: None, sub_args: Vec::new() };
        assert(seq_views(p.sub_args@) =~= Seq::<Seq<char>>::empty());
        return Ok(p);
    }
    let t = &args[k];
    if is_long_flag_exec(t) {
        return Err(UsageError::UnknownFlag { token: t.clone() });
    }
    match find_sub(&g.subs, t) {
        None => Err(UsageError::UnknownSubcommand { token: t.clone() }),
        Some(i) => {
            assert(grammar_flagsets(g.subs@)[i as int] == seq_views(g.subs@[i as int].flags@));
            match scan_sub_args(&g.subs[i].flags, args, k + 1) {
                Some(j) => {
                    assert(va.skip(k + 1)[j - (k + 1)] == args@[j as int]@);
                    Err(UsageError::UnknownFlag { token: args[j].clone() })
                },
                None => {
                    let p = Parsed { dry_run: dry, sub: Some(i), sub_args: tail_args(args, k + 1) };
                    assert(seq_views(p.sub_args@) =~= va.skip(k + 1));
                    Ok(p)
                },
            }
        },
    }
}

/// The names of the standard grammar's subcommands, in registration
/// order.
pub open spec fn standard_names() -> Seq<Seq<char>> {
    seq!["topic"@, "changes"@, "config"@, "gerritapi"@]
}

/// The declared flag sets of the standard grammar.  Each subcommand's
/// own schema is owned by its handler; this layer registers the
/// fragments with no long flags of their own.
pub open spec fn standard_flagsets() -> Seq<Seq<Seq<char>>> {
    seq![
        Seq::<Seq<char>>::empty(),
        Seq::<Seq<char>>::empty(),
        Seq::<Seq<char>>::empty(),
        Seq::<Seq<char>>::empty(),
    ]
}

/// What parsing the standard grammar decides.
pub open spec fn standard_parse(args: Seq<Seq<char>>) -> ParseModel {
    parse_model("--dry-run"@, standard_names(), standard_flagsets(), args)
}

/// The subcommand at a registration index of the standard grammar.
pub open spec fn subcommand_at(i: int) -> Option<Subcommand> {
    if i == 0 {
        Some(Subcommand::Topic)
    } else if i == 1 {
        Some(Subcommand::Changes)
    } else if i == 2 {
        Some(Subcommand::Config)
    } else if i == 3 {
        Some(Subcommand::GerritApi)
    } else {
        None
    }
}

/// Assembles the standard grammar: the top-level dry-run flag and the
/// four registered subcommand fragments.  Deterministic: every call
/// yields the same grammar.
pub fn compose() -> (g: Grammar)
    ensures
        g.dry_run_flag@ == "--dry-run"@,
        grammar_names(g.subs@) == standard_names(),
        grammar_flagsets(g.subs@) == standard_flagsets(),
        g.subs@.len() == 4,
{
    let mut subs: Vec<SubGrammar> = Vec::new();
    subs.push(SubGrammar { name: "topic".to_owned(), flags: Vec::new() });
    subs.push(SubGrammar { name: "changes".to_owned(), flags: Vec::new() });
    subs.push(SubGrammar { name: "config".to_owned(), flags: Vec::new() });
    subs.push(SubGrammar { name: "gerritapi".to_owned(), flags: Vec::new() });
    let g = Grammar { dry_run_flag: "--dry-run".to_owned(), subs };
    assert(grammar_names(g.subs@) =~= standard_names());
    assert forall|i: int| 0 <= i < 4 implies grammar_flagsets(g.subs@)[i]
        == standard_flagsets()[i] by {
        assert(seq_views(g.subs@[i].flags@) =~= Seq::<Seq<char>>::empty());
    }
    assert(grammar_flagsets(g.subs@) =~= standard_flagsets());
    g
}

/// Parses the process arguments against the standard grammar.
pub fn parse(args: &Vec<String>) -> (r: Result<ParsedArguments, UsageError>)
    ensures
        ({
            let m = standard_parse(seq_views(args@));
            match r {
                Ok(p) => m matches ParseModel::Accepted { dry_run, sub, sub_args }
                    && p.dry_run == dry_run && (match sub {
                    None => p.subcommand is None,
                    Some(si) => 0 <= si < 4 && p.subcommand == subcommand_at(si),
                }) && seq_views(p.sub_args@) == sub_args,
                Err(UsageError::UnknownFlag { token }) => m matches ParseModel::BadFlag {
                    token: tk,
                } && token@ == tk,
                Err(UsageError::UnknownSubcommand { token }) => m matches ParseModel::BadSubcommand {
                    token: tk,
                } && token@ == tk,
            }
        }),
{
    let g = compose();
    match parse_with(&g, args) {
        Err(e) => Err(e),
        Ok(p) => {
            let subcommand = match p.sub {
                None => None,
                Some(i) => {
                    if i == 0 {
                        Some(Subcommand::Topic)
                    } else if i == 1 {
                        Some(Subcommand::Changes)
                    } else if i == 2 {
                        Some(Subcommand::Config)
                    } else {
                        Some(Subcommand::GerritApi)
                    }
                },
            };
            Ok(ParsedArguments { dry_run: p.dry_run, subcommand, sub_args: p.sub_args })
        },
    }
}

/// The help text of a grammar, one line per row: a usage line, then the
/// name of each registered subcommand in registration order.  Stable:
/// the same grammar always yields the same lines.
pub fn help_lines(g: &Grammar) -> (r: Vec<String>)
    ensures
        r@.len() == 1 + g.subs@.len(),
        r@[0]@ == "usage: gerrit-rust [--dry-run] [subcommand]"@,
        forall|i: int| 0 <= i < g.subs@.len() ==> r@[i + 1]@ == g.subs@[i].name@,
{
    let mut r: Vec<String> = Vec::new();
    r.push("usage: gerrit-rust [--dry-run] [subcommand]".to_owned());
    let mut i: usize = 0;
    while i < g.subs.len()
        invariant
            i <= g.subs@.len(),
            r@.len() == 1 + i,
            r@[0]@ == "usage: gerrit-rust [--dry-run] [subcommand]"@,
            forall|j: int| 0 <= j < i ==> r@[j + 1]@ == g.subs@[j].name@,
        decreases g.subs@.len() - i,
    {
        r.push(g.subs[i].name.clone());
        i = i + 1;
    }
    r
}

} // verus!
