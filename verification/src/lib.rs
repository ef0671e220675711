//! A small library for a terminal theme switcher: it compiles raw
//! command-line tokens into a validated instruction, plans the switch of the
//! terminal configuration (base file plus theme fragment), and computes the
//! editor-side colorscheme substitution.

use vstd::prelude::*;

pub mod commands;
pub mod fileutils;
pub mod instructions;
pub mod strutil;
pub mod vim;

use crate::strutil::after_last;
use crate::strutil::str_eq;

verus! {

/// Convenience conversion from a string slice to an owned `String`.
pub fn s(st: &str) -> (r: String)
    ensures
        r@ == st@,
{
    String::from_str(st)
}

/// One recognized command-line flag: its long name, an optional short
/// alias, and a description for the usage text.
#[derive(Debug)]
pub struct Flag {
    pub name: String,
    pub short: Option<String>,
    pub desc: String,
}

/// The mathematical value of a [`Flag`].
pub struct FlagV {
    pub name: Seq<char>,
    pub short: Option<Seq<char>>,
    pub desc: Seq<char>,
}

impl View for Flag {
    type V = FlagV;

    open spec fn view(&self) -> FlagV {
        FlagV { name: self.name@, short: self.short.deep_view(), desc: self.desc@ }
    }
}

impl DeepView for Flag {
    type V = FlagV;

    open spec fn deep_view(&self) -> FlagV {
        self.view()
    }
}

impl Clone for Flag {
    fn clone(&self) -> (r: Self)
        ensures
            r@ == self@,
    {
        Flag {
            name: self.name.clone(),
            short: match &self.short {
                Some(sh) => Some(sh.clone()),
                None => None,
            },
            desc: self.desc.clone(),
        }
    }
}

/// The flag catalog, in its fixed declaration order.  The fold that builds
/// an instruction walks the flags in exactly this order, so `--switch`
/// is folded before `--with-vim`.
pub open spec fn spec_catalog() -> Seq<FlagV> {
    seq![
        FlagV { name: "--help"@, short: Some("-h"@), desc: "Prints the help string"@ },
        FlagV {
            name: "--list"@,
            short: Some("-l"@),
            desc: "Show the list of all available themes"@,
        },
        FlagV { name: "--current"@, short: Some("-c"@), desc: "Show the current theme"@ },
        FlagV {
            name: "--switch"@,
            short: Some("-s"@),
            desc: "Switch the theme to a new one.\nPARAMETER:\n\t<theme_name>"@,
        },
        FlagV {
            name: "--with-vim"@,
            short: None,
            desc: "Also tries to set the same colorscheme in vim"@,
        },
        FlagV {
            name: "--search"@,
            short: Some("-f"@),
            desc: "Search for a theme.\nPARAMETER:\n\t<theme_name>"@,
        },
    ]
}

/// Builds the flag catalog.  Constructed once at startup and passed by
/// reference into the parser and the dispatcher.
pub fn flags() -> (r: Vec<Flag>)
    ensures
        r.deep_view() == spec_catalog(),
{
    let mut v: Vec<Flag> = Vec::new();
    v.push(
        Flag { name: s("--help"), short: Some(s("-h")), desc: s("Prints the help string") },
    );
    v.push(
        Flag {
            name: s("--list"),
            short: Some(s("-l")),
            desc: s("Show the list of all available themes"),
        },
    );
    v.push(Flag { name: s("--current"), short: Some(s("-c")), desc: s("Show the current theme") });
    v.push(
        Flag {
            name: s("--switch"),
            short: Some(s("-s")),
            desc: s("Switch the theme to a new one.\nPARAMETER:\n\t<theme_name>"),
        },
    );
    v.push(
        Flag {
            name: s("--with-vim"),
            short: None,
            desc: s("Also tries to set the same colorscheme in vim"),
        },
    );
    v.push(
        Flag {
            name: s("--search"),
            short: Some(s("-f")),
            desc: s("Search for a theme.\nPARAMETER:\n\t<theme_name>"),
        },
    );
    proof {
        assert(v.deep_view() =~= spec_catalog());
    }
    v
}

/// A flag counts as present when its long name or its short alias occurs
/// among the raw tokens.
pub open spec fn flag_present(f: FlagV, args: Seq<Seq<char>>) -> bool {
    args.contains(f.name) || match f.short {
        Some(sh) => args.contains(sh),
        None => false,
    }
}

/// The sub-sequence of the catalog whose flags are present in `args`,
/// kept in catalog order.
pub open spec fn spec_recognized(cat: Seq<FlagV>, args: Seq<Seq<char>>) -> Seq<FlagV>
    decreases cat.len(),
{
    if cat.len() == 0 {
        Seq::empty()
    } else {
        spec_recognized(cat.drop_last(), args) + if flag_present(cat.last(), args) {
            seq![cat.last()]
        } else {
            Seq::empty()
        }
    }
}

/// Does some token equal `t`?
fn args_contain(args: &Vec<String>, t: &str) -> (r: bool)
    ensures
        r == args.deep_view().contains(t@),
{
    let n = args.len();
    let mut i: usize = 0;
    while i < n
        invariant
            n == args.len(),
            i <= n,
            forall|j: int| 0 <= j < i ==> args.deep_view()[j] != t@,
        decreases n - i,
    {
        if str_eq(args[i].as_str(), t) {
            assert(args.deep_view()[i as int] == t@);
            return true;
        }
        i += 1;
    }
    false
}

/// Is the flag present among the tokens, by long name or short alias?
fn flag_in_args(f: &Flag, args: &Vec<String>) -> (r: bool)
    ensures
        r == flag_present(f@, args.deep_view()),
{
    if args_contain(args, f.name.as_str()) {
        return true;
    }
    match &f.short {
        Some(sh) => args_contain(args, sh.as_str()),
        None => false,
    }
}

/// Filters the catalog down to the flags present among the raw tokens,
/// in catalog order.
pub fn parse_flags(args: &Vec<String>, catalog: &Vec<Flag>) -> (r: Vec<Flag>)
    ensures
        r.deep_view() == spec_recognized(catalog.deep_view(), args.deep_view()),
{
    let n = catalog.len();
    let mut r: Vec<Flag> = Vec::new();
    let mut i: usize = 0;
    while i < n
        invariant
            n == catalog.len(),
            i <= n,
            r.deep_view() == spec_recognized(
                catalog.deep_view().subrange(0, i as int),
                args.deep_view(),
            ),
        decreases n - i,
    {
        let ghost cd = catalog.deep_view();
        let ghost pre = cd.subrange(0, i as int);
        let ghost post = cd.subrange(0, i as int + 1);
        proof {
            assert(post.drop_last() =~= pre);
            assert(post.last() == cd[i as int]);
        }
        if flag_in_args(&catalog[i], args) {
            r.push(catalog[i].clone());
            proof {
                assert(r.deep_view() =~= spec_recognized(post, args.deep_view()));
            }
        } else {
            proof {
                assert(r.deep_view() =~= spec_recognized(post, args.deep_view()));
            }
        }
        i += 1;
    }
    proof {
        assert(catalog.deep_view().subrange(0, n as int) =~= catalog.deep_view());
    }
    r
}

/// The long names of a flag sequence.
pub open spec fn spec_flag_names(flags: Seq<FlagV>) -> Seq<Seq<char>> {
    flags.map_values(|f: FlagV| f.name)
}

/// The tokens that equal none of the given long names, in order.
pub open spec fn spec_nonflags(args: Seq<Seq<char>>, names: Seq<Seq<char>>) -> Seq<Seq<char>>
    decreases args.len(),
{
    if args.len() == 0 {
        Seq::empty()
    } else {
        spec_nonflags(args.drop_last(), names) + if names.contains(args.last()) {
            Seq::empty()
        } else {
            seq![args.last()]
        }
    }
}

/// The positional parameter: the last token that equals no recognized
/// flag's long name, or the empty string when nothing but the bare
/// invocation remains.
pub open spec fn spec_positional(args: Seq<Seq<char>>, names: Seq<Seq<char>>) -> Seq<char> {
    let rem = spec_nonflags(args, names);
    if rem.len() <= 1 {
        Seq::empty()
    } else {
        rem.last()
    }
}

/// Does `t` equal the long name of one of `flags`?
fn is_flag_name(t: &str, flags: &Vec<Flag>) -> (r: bool)
    ensures
        r == spec_flag_names(flags.deep_view()).contains(t@),
{
    let n = flags.len();
    let mut i: usize = 0;
    while i < n
        invariant
            n == flags.len(),
            i <= n,
            forall|j: int| 0 <= j < i ==> spec_flag_names(flags.deep_view())[j] != t@,
        decreases n - i,
    {
        if str_eq(flags[i].name.as_str(), t) {
            assert(spec_flag_names(flags.deep_view())[i as int] == t@);
            return true;
        }
        i += 1;
    }
    false
}

/// Extracts the positional theme-name parameter from the arguments:
/// every token equal to a recognized flag's long name is ignored (a short
/// alias passes through), and the last remaining token wins; when at most
/// the bare invocation remains the result is empty.
pub fn parse_theme(args: &Vec<String>, flags: &Vec<Flag>) -> (r: String)
    ensures
        r@ == spec_positional(args.deep_view(), spec_flag_names(flags.deep_view())),
{
    let ghost names = spec_flag_names(flags.deep_view());
    let n = args.len();
    let mut count: usize = 0;
    let mut last: Option<String> = None;
    let mut i: usize = 0;
    while i < n
        invariant
            n == args.len(),
            i <= n,
            count <= i,
            names == spec_flag_names(flags.deep_view()),
            count == spec_nonflags(args.deep_view().subrange(0, i as int), names).len(),
            count > 0 ==> (last matches Some(t) && t@ == spec_nonflags(
                args.deep_view().subrange(0, i as int),
                names,
            ).last()),
        decreases n - i,
    {
        let ghost ad = args.deep_view();
        let ghost pre = ad.subrange(0, i as int);
        let ghost post = ad.subrange(0, i as int + 1);
        proof {
            assert(post.drop_last() =~= pre);
            assert(post.last() == ad[i as int]);
            assert(ad[i as int] == args@[i as int]@);
        }
        if !is_flag_name(args[i].as_str(), flags) {
            proof {
                assert(!names.contains(post.last()));
                assert(spec_nonflags(post, names) =~= spec_nonflags(pre, names) + seq![
                    ad[i as int],
                ]);
            }
            count += 1;
            last = Some(args[i].clone());
        } else {
            proof {
                assert(spec_nonflags(post, names) =~= spec_nonflags(pre, names));
            }
        }
        i += 1;
    }
    proof {
        assert(args.deep_view().subrange(0, n as int) =~= args.deep_view());
    }
    if count <= 1 {
        proof {
            reveal_strlit("");
            assert(""@ =~= Seq::<char>::empty());
        }
        s("")
    } else {
        last.unwrap()
    }
}

/// Parses the binary's path and returns the trailing path component, the
/// binary's bare name.
pub fn parse_bin<'a>(bin_path: &'a str) -> (r: &'a str)
    ensures
        r@ == after_last(bin_path@, '/'),
{
    let len = bin_path.unicode_len();
    let mut i: usize = 0;
    let mut start: usize = 0;
    while i < len
        invariant
            len == bin_path@.len(),
            i <= len,
            start <= i,
            forall|j: int| start <= j < i ==> bin_path@[j] != '/',
            start > 0 ==> bin_path@[start - 1] == '/',
        decreases len - i,
    {
        if bin_path.get_char(i) == '/' {
            start = i + 1;
        }
        i += 1;
    }
    proof {
        strutil::lemma_after_last_at(bin_path@, '/', start as int);
    }
    bin_path.substring_char(start, len)
}

} // verus!
