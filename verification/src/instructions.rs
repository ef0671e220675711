//! The argument-to-instruction compiler: validates raw tokens against the
//! flag catalog, extracts the positional theme name, and folds the
//! recognized flags, in catalog order, into a single [`Instruction`].

use vstd::prelude::*;

use crate::Flag;
use crate::FlagV;
use crate::s;
use crate::spec_flag_names;
use crate::spec_positional;
use crate::spec_recognized;
use crate::strutil::str_eq;

verus! {

/// The command that one invocation carries out.
#[derive(Debug, PartialEq)]
pub enum Command {
    Help(String),
    ListThemes,
    SearchTheme(String),
    CurrentTheme,
    SwitchTheme(String),
    Noop,
}

/// The mathematical value of a [`Command`].
pub enum CommandV {
    Help(Seq<char>),
    ListThemes,
    SearchTheme(Seq<char>),
    CurrentTheme,
    SwitchTheme(Seq<char>),
    Noop,
}

impl View for Command {
    type V = CommandV;

    open spec fn view(&self) -> CommandV {
        match self {
            Command::Help(b) => CommandV::Help(b@),
            Command::ListThemes => CommandV::ListThemes,
            Command::SearchTheme(q) => CommandV::SearchTheme(q@),
            Command::CurrentTheme => CommandV::CurrentTheme,
            Command::SwitchTheme(t) => CommandV::SwitchTheme(t@),
            Command::Noop => CommandV::Noop,
        }
    }
}

/// A modifier that accompanies a command; valid only with a theme switch.
#[derive(Debug, PartialEq, Clone, Copy)]
pub enum CommandOption {
    SwitchWithVim,
}

/// The validated outcome of one parse: at most one command and at most one
/// option, consumed exactly once by the dispatcher.
#[derive(Debug, PartialEq)]
pub struct Instruction {
    pub command: Option<Command>,
    pub option: Option<CommandOption>,
}

/// The mathematical value of an [`Instruction`].
pub struct InstructionV {
    pub command: Option<CommandV>,
    pub option: Option<CommandOption>,
}

impl View for Instruction {
    type V = InstructionV;

    open spec fn view(&self) -> InstructionV {
        InstructionV {
            command: match &self.command {
                Some(c) => Some(c@),
                None => None,
            },
            option: self.option,
        }
    }
}

/// Does the token spell this flag, by long name or short alias?
pub open spec fn flag_matches_token(f: FlagV, t: Seq<char>) -> bool {
    f.name == t || f.short == Some(t)
}

/// Is the token one spelling of a catalog flag?
pub open spec fn spec_known(cat: Seq<FlagV>, t: Seq<char>) -> bool {
    exists|k: int| 0 <= k < cat.len() && #[trigger] flag_matches_token(cat[k], t)
}

/// A token is invalid when it is flag-shaped (starts with the marker) but
/// matches no catalog flag.
pub open spec fn spec_invalid_token(cat: Seq<FlagV>, t: Seq<char>) -> bool {
    t.len() > 0 && t[0] == '-' && !spec_known(cat, t)
}

/// The invalid token at the greatest index, if any: validation inspects
/// the tokens in order and remembers the offender seen last.
pub open spec fn spec_last_invalid(cat: Seq<FlagV>, args: Seq<Seq<char>>) -> Option<Seq<char>>
    decreases args.len(),
{
    if args.len() == 0 {
        None
    } else if spec_invalid_token(cat, args.last()) {
        Some(args.last())
    } else {
        spec_last_invalid(cat, args.drop_last())
    }
}

/// Is the token one spelling of a catalog flag?
fn flag_known(t: &str, catalog: &Vec<Flag>) -> (r: bool)
    ensures
        r == spec_known(catalog.deep_view(), t@),
{
    let n = catalog.len();
    let mut i: usize = 0;
    while i < n
        invariant
            n == catalog.len(),
            i <= n,
            forall|k: int| 0 <= k < i ==> !flag_matches_token(
                #[trigger] catalog.deep_view()[k],
                t@,
            ),
        decreases n - i,
    {
        if str_eq(catalog[i].name.as_str(), t) {
            assert(flag_matches_token(catalog.deep_view()[i as int], t@));
            return true;
        }
        let found = match &catalog[i].short {
            Some(sh) => str_eq(sh.as_str(), t),
            None => false,
        };
        if found {
            assert(flag_matches_token(catalog.deep_view()[i as int], t@));
            return true;
        }
        i += 1;
    }
    false
}

/// Is the token flag-shaped yet unknown to the catalog?
fn token_invalid(t: &str, catalog: &Vec<Flag>) -> (r: bool)
    ensures
        r == spec_invalid_token(catalog.deep_view(), t@),
{
    if t.unicode_len() == 0 {
        return false;
    }
    if t.get_char(0) != '-' {
        return false;
    }
    !flag_known(t, catalog)
}

/// Validates the raw tokens against the catalog.  Any flag-shaped token
/// that spells no catalog flag rejects the whole parse, with the offending
/// token (the last one, when several offend) named in the error; on
/// success the flags present in the tokens are returned in catalog order.
pub fn parse_flags(args: &Vec<String>, catalog: &Vec<Flag>) -> (r: Result<Vec<Flag>, String>)
    ensures
        (match r {
            Ok(fs) => spec_last_invalid(catalog.deep_view(), args.deep_view()) is None
                && fs.deep_view() == spec_recognized(catalog.deep_view(), args.deep_view()),
            Err(m) => (spec_last_invalid(catalog.deep_view(), args.deep_view()) matches Some(t)
                && m@ == "Invalid Flag: "@ + t),
        }),
{
    let n = args.len();
    let mut bad: Option<String> = None;
    let mut i: usize = 0;
    while i < n
        invariant
            n == args.len(),
            i <= n,
            (match bad {
                None => spec_last_invalid(
                    catalog.deep_view(),
                    args.deep_view().subrange(0, i as int),
                ) is None,
                Some(b) => spec_last_invalid(
                    catalog.deep_view(),
                    args.deep_view().subrange(0, i as int),
                ) == Some(b@),
            }),
        decreases n - i,
    {
        let ghost ad = args.deep_view();
        let ghost pre = ad.subrange(0, i as int);
        let ghost post = ad.subrange(0, i as int + 1);
        proof {
            assert(post.drop_last() =~= pre);
            assert(post.last() == ad[i as int]);
            assert(ad[i as int] == args@[i as int]@);
        }
        if token_invalid(args[i].as_str(), catalog) {
            bad = Some(args[i].clone());
        }
        i += 1;
    }
    proof {
        assert(args.deep_view().subrange(0, n as int) =~= args.deep_view());
    }
    match bad {
        Some(b) => Err(s("Invalid Flag: ").concat(b.as_str())),
        None => Ok(crate::parse_flags(args, catalog)),
    }
}

/// One step of the fold: how a single recognized flag updates the
/// instruction accumulated so far.  `names` holds the long names of all
/// recognized flags, for the positional extraction.
pub open spec fn spec_step(
    acc: InstructionV,
    name: Seq<char>,
    args: Seq<Seq<char>>,
    names: Seq<Seq<char>>,
    bin: Seq<char>,
) -> InstructionV {
    if name == "--list"@ {
        InstructionV { command: Some(CommandV::ListThemes), option: acc.option }
    } else if name == "--current"@ {
        InstructionV { command: Some(CommandV::CurrentTheme), option: acc.option }
    } else if name == "--help"@ {
        InstructionV { command: Some(CommandV::Help(bin)), option: acc.option }
    } else if name == "--switch"@ {
        let t = spec_positional(args, names);
        if t.len() > 0 {
            InstructionV { command: Some(CommandV::SwitchTheme(t)), option: acc.option }
        } else {
            acc
        }
    } else if name == "--search"@ {
        let t = spec_positional(args, names);
        if t.len() > 0 {
            InstructionV { command: Some(CommandV::SearchTheme(t)), option: acc.option }
        } else {
            acc
        }
    } else if name == "--with-vim"@ {
        match acc.command {
            None => InstructionV {
                command: acc.command,
                option: Some(CommandOption::SwitchWithVim),
            },
            Some(CommandV::SwitchTheme(_)) => InstructionV {
                command: acc.command,
                option: Some(CommandOption::SwitchWithVim),
            },
            Some(_) => acc,
        }
    } else {
        if acc.command is None {
            InstructionV { command: Some(CommandV::Noop), option: acc.option }
        } else {
            acc
        }
    }
}

/// The fold of the recognized flags, in catalog order, starting from the
/// empty instruction.
pub open spec fn spec_build(
    flags: Seq<FlagV>,
    args: Seq<Seq<char>>,
    names: Seq<Seq<char>>,
    bin: Seq<char>,
) -> InstructionV
    decreases flags.len(),
{
    if flags.len() == 0 {
        InstructionV { command: None, option: None }
    } else {
        spec_step(spec_build(flags.drop_last(), args, names, bin), flags.last().name, args, names, bin)
    }
}

/// Folds the recognized flags into an instruction.  Folding is total: a
/// flag whose positional parameter is missing simply leaves the command
/// unset, and a misplaced `--with-vim` is dropped, so the result is
/// always `Ok`.
pub fn build_instruction(args: &Vec<String>, bin_name: &str, flags: &Vec<Flag>) -> (r: Result<
    Instruction,
    String,
>)
    ensures
        (r matches Ok(ins) && ins@ == spec_build(
            flags.deep_view(),
            args.deep_view(),
            spec_flag_names(flags.deep_view()),
            bin_name@,
        )),
{
    let ghost fd = flags.deep_view();
    let ghost names = spec_flag_names(flags.deep_view());
    let mut command: Option<Command> = None;
    let mut option: Option<CommandOption> = None;
    let n = flags.len();
    let mut i: usize = 0;
    proof {
        assert(fd.subrange(0, 0) =~= Seq::<FlagV>::empty());
    }
    while i < n
        invariant
            n == flags.len(),
            i <= n,
            fd == flags.deep_view(),
            names == spec_flag_names(flags.deep_view()),
            (Instruction { command, option })@ == spec_build(
                fd.subrange(0, i as int),
                args.deep_view(),
                names,
                bin_name@,
            ),
        decreases n - i,
    {
        let ghost pre = fd.subrange(0, i as int);
        let ghost post = fd.subrange(0, i as int + 1);
        let ghost acc = (Instruction { command, option })@;
        proof {
            assert(post.drop_last() =~= pre);
            assert(post.last() == fd[i as int]);
            assert(fd[i as int] == flags@[i as int]@);
        }
        let f = &flags[i];
        if str_eq(f.name.as_str(), "--list") {
            command = Some(Command::ListThemes);
        } else if str_eq(f.name.as_str(), "--current") {
            command = Some(Command::CurrentTheme);
        } else if str_eq(f.name.as_str(), "--help") {
            command = Some(Command::Help(s(bin_name)));
        } else if str_eq(f.name.as_str(), "--switch") {
            let theme = crate::parse_theme(args, flags);
            if !theme.as_str().is_empty() {
                command = Some(Command::SwitchTheme(theme));
            }
        } else if str_eq(f.name.as_str(), "--search") {
            let theme = crate::parse_theme(args, flags);
            if !theme.as_str().is_empty() {
                command = Some(Command::SearchTheme(theme));
            }
        } else if str_eq(f.name.as_str(), "--with-vim") {
            match &command {
                None => {
                    option = Some(CommandOption::SwitchWithVim);
                },
                Some(Command::SwitchTheme(_)) => {
                    option = Some(CommandOption::SwitchWithVim);
                },
                Some(_) => {},
            }
        } else {
            if command.is_none() {
                command = Some(Command::Noop);
            }
        }
        proof {
            assert((Instruction { command, option })@ == spec_step(
                acc,
                fd[i as int].name,
                args.deep_view(),
                names,
                bin_name@,
            ));
        }
        i += 1;
    }
    proof {
        assert(fd.subrange(0, n as int) =~= fd);
    }
    Ok(Instruction { command, option })
}

/// What one invocation parses to: help when no arguments follow the
/// program name; otherwise the validation error naming the last invalid
/// token, or the fold of the recognized flags.
pub open spec fn spec_parse_instructions(
    cat: Seq<FlagV>,
    args: Seq<Seq<char>>,
    bin: Seq<char>,
) -> Result<InstructionV, Seq<char>> {
    if args.len() <= 1 {
        Ok(InstructionV { command: Some(CommandV::Help(bin)), option: None })
    } else {
        match spec_last_invalid(cat, args) {
            Some(t) => Err("Invalid Flag: "@ + t),
            None => Ok(
                spec_build(
                    spec_recognized(cat, args),
                    args,
                    spec_flag_names(spec_recognized(cat, args)),
                    bin,
                ),
            ),
        }
    }
}

/// Compiles the raw tokens into an instruction: a bare invocation is
/// help; an invalid flag-shaped token fails the whole parse; otherwise
/// the recognized flags are folded in catalog order.
pub fn parse_instructions(args: &Vec<String>, bin_name: &str, catalog: &Vec<Flag>) -> (r: Result<
    Instruction,
    String,
>)
    ensures
        (match (r, spec_parse_instructions(catalog.deep_view(), args.deep_view(), bin_name@)) {
            (Ok(ins), Ok(iv)) => ins@ == iv,
            (Err(m), Err(mv)) => m@ == mv,
            _ => false,
        }),
{
    if args.len() <= 1 {
        Ok(Instruction { command: Some(Command::Help(s(bin_name))), option: None })
    } else {
        match parse_flags(args, catalog) {
            Ok(fs) => build_instruction(args, bin_name, &fs),
            Err(e) => Err(e),
        }
    }
}

/// What the last-offender search finds: nothing exactly when no token is
/// invalid, and otherwise the invalid token at the greatest index.
pub proof fn lemma_last_invalid_characterized(cat: Seq<FlagV>, args: Seq<Seq<char>>)
    ensures
        (match spec_last_invalid(cat, args) {
            None => forall|j: int| 0 <= j < args.len() ==> !spec_invalid_token(
                cat,
                #[trigger] args[j],
            ),
            Some(t) => exists|j: int|
                {
                    &&& 0 <= j < args.len()
                    &&& spec_invalid_token(cat, #[trigger] args[j])
                    &&& t == args[j]
                    &&& forall|k: int| j < k < args.len() ==> !spec_invalid_token(
                        cat,
                        #[trigger] args[k],
                    )
                },
        }),
    decreases args.len(),
{
    if args.len() == 0 {
    } else if spec_invalid_token(cat, args.last()) {
        let j = args.len() - 1;
        assert(spec_invalid_token(cat, args[j]));
    } else {
        let pre = args.drop_last();
        lemma_last_invalid_characterized(cat, pre);
        assert(forall|j: int| 0 <= j < pre.len() ==> pre[j] == args[j]);
        match spec_last_invalid(cat, pre) {
            None => {},
            Some(t) => {
                let j = choose|j: int|
                    {
                        &&& 0 <= j < pre.len()
                        &&& spec_invalid_token(cat, #[trigger] pre[j])
                        &&& t == pre[j]
                        &&& forall|k: int| j < k < pre.len() ==> !spec_invalid_token(
                            cat,
                            #[trigger] pre[k],
                        )
                    };
                assert(spec_invalid_token(cat, args[j]));
            },
        }
    }
}

/// A token list holding an unrecognized flag-shaped token parses to the
/// invalid-flag error, and the error names exactly the offending token
/// (the one at the greatest index, when several offend).
pub proof fn lemma_invalid_flag_rejected(
    cat: Seq<FlagV>,
    args: Seq<Seq<char>>,
    bin: Seq<char>,
    i: int,
)
    requires
        args.len() > 1,
        0 <= i < args.len(),
        spec_invalid_token(cat, args[i]),
    ensures
        spec_parse_instructions(cat, args, bin) matches Err(m) && exists|j: int|
            {
                &&& 0 <= j < args.len()
                &&& spec_invalid_token(cat, #[trigger] args[j])
                &&& m == "Invalid Flag: "@ + args[j]
                &&& forall|k: int| j < k < args.len() ==> !spec_invalid_token(
                    cat,
                    #[trigger] args[k],
                )
            },
{
    lemma_last_invalid_characterized(cat, args);
    match spec_last_invalid(cat, args) {
        None => {
            assert(!spec_invalid_token(cat, args[i]));
        },
        Some(t) => {},
    }
}

/// A token list with no arguments beyond the program name parses to the
/// help instruction.
pub proof fn lemma_no_arguments_yields_help(cat: Seq<FlagV>, args: Seq<Seq<char>>, bin: Seq<char>)
    requires
        args.len() <= 1,
    ensures
        spec_parse_instructions(cat, args, bin) == Ok::<InstructionV, Seq<char>>(
            InstructionV { command: Some(CommandV::Help(bin)), option: None },
        ),
{
}

/// The six flag names of the catalog are pairwise distinct.
pub proof fn lemma_catalog_names_distinct()
    ensures
        "--help"@ != "--list"@,
        "--help"@ != "--current"@,
        "--help"@ != "--switch"@,
        "--help"@ != "--with-vim"@,
        "--help"@ != "--search"@,
        "--list"@ != "--current"@,
        "--list"@ != "--switch"@,
        "--list"@ != "--with-vim"@,
        "--list"@ != "--search"@,
        "--current"@ != "--switch"@,
        "--current"@ != "--with-vim"@,
        "--current"@ != "--search"@,
        "--switch"@ != "--with-vim"@,
        "--switch"@ != "--search"@,
        "--with-vim"@ != "--search"@,
{
    reveal_strlit("--help");
    reveal_strlit("--list");
    reveal_strlit("--current");
    reveal_strlit("--switch");
    reveal_strlit("--with-vim");
    reveal_strlit("--search");
    assert("--help"@.len() == 6);
    assert("--list"@.len() == 6);
    assert("--current"@.len() == 9);
    assert("--switch"@.len() == 8);
    assert("--with-vim"@.len() == 10);
    assert("--search"@.len() == 8);
    assert("--help"@[2] != "--list"@[2]);
    assert("--switch"@[3] != "--search"@[3]);
}

/// `--with-vim` combined with `--switch` sets the option: folding the
/// switch flag and then the with-vim flag, in catalog order, yields the
/// switch command with the option set, provided a positional theme name
/// is present.
pub proof fn lemma_with_vim_with_switch(
    flags: Seq<FlagV>,
    args: Seq<Seq<char>>,
    names: Seq<Seq<char>>,
    bin: Seq<char>,
)
    requires
        flags.len() == 2,
        flags[0].name == "--switch"@,
        flags[1].name == "--with-vim"@,
        spec_positional(args, names).len() > 0,
    ensures
        (spec_build(flags, args, names, bin) == InstructionV {
            command: Some(CommandV::SwitchTheme(spec_positional(args, names))),
            option: Some(CommandOption::SwitchWithVim),
        }),
{
    lemma_catalog_names_distinct();
    reveal_with_fuel(spec_build, 3);
    assert(flags.drop_last() =~= seq![flags[0]]);
    assert(seq![flags[0]].drop_last() =~= Seq::<FlagV>::empty());
}

/// `--with-vim` combined with `--list`, `--current` or `--help` drops
/// the option and leaves the command unaffected.
pub proof fn lemma_with_vim_dropped(
    flags: Seq<FlagV>,
    args: Seq<Seq<char>>,
    names: Seq<Seq<char>>,
    bin: Seq<char>,
)
    requires
        flags.len() == 2,
        flags[0].name == "--list"@ || flags[0].name == "--current"@ || flags[0].name
            == "--help"@,
        flags[1].name == "--with-vim"@,
    ensures
        spec_build(flags, args, names, bin) == spec_build(flags.subrange(0, 1), args, names, bin),
        (spec_build(flags, args, names, bin).option is None),
        flags[0].name == "--list"@ ==> spec_build(flags, args, names, bin).command == Some(
            CommandV::ListThemes,
        ),
        flags[0].name == "--current"@ ==> spec_build(flags, args, names, bin).command == Some(
            CommandV::CurrentTheme,
        ),
        flags[0].name == "--help"@ ==> spec_build(flags, args, names, bin).command == Some(
            CommandV::Help(bin),
        ),
{
    lemma_catalog_names_distinct();
    reveal_with_fuel(spec_build, 3);
    assert(flags.drop_last() =~= seq![flags[0]]);
    assert(flags.subrange(0, 1) =~= seq![flags[0]]);
    assert(seq![flags[0]].drop_last() =~= Seq::<FlagV>::empty());
}

} // verus!
