//! The instruction dispatcher and the theme store.  The dispatcher maps a
//! completed instruction to the single action it calls for; the store
//! models the files a switch touches and performs the switch on that
//! model, so that a failed lookup provably leaves everything unchanged.

use vstd::prelude::*;

use crate::instructions::Command;
use crate::instructions::CommandOption;
use crate::instructions::CommandV;
use crate::instructions::Instruction;
use crate::instructions::InstructionV;
use crate::strutil::before_first;
use crate::strutil::prefix_of;
use crate::strutil::str_eq;
use crate::strutil::str_starts_with;
use crate::s;

verus! {

/// The one observable action an instruction calls for.
#[derive(Debug, PartialEq)]
pub enum Action {
    PrintHelp(String),
    ListThemes,
    SearchTheme(String),
    ShowCurrentTheme,
    Switch(String),
    SwitchWithVim(String),
    Nothing,
}

/// The mathematical value of an [`Action`].
pub enum ActionV {
    PrintHelp(Seq<char>),
    ListThemes,
    SearchTheme(Seq<char>),
    ShowCurrentTheme,
    Switch(Seq<char>),
    SwitchWithVim(Seq<char>),
    Nothing,
}

impl View for Action {
    type V = ActionV;

    open spec fn view(&self) -> ActionV {
        match self {
            Action::PrintHelp(b) => ActionV::PrintHelp(b@),
            Action::ListThemes => ActionV::ListThemes,
            Action::SearchTheme(q) => ActionV::SearchTheme(q@),
            Action::ShowCurrentTheme => ActionV::ShowCurrentTheme,
            Action::Switch(t) => ActionV::Switch(t@),
            Action::SwitchWithVim(t) => ActionV::SwitchWithVim(t@),
            Action::Nothing => ActionV::Nothing,
        }
    }
}

/// The action each instruction maps to: a theme switch honours the
/// `--with-vim` option; every other command ignores it; no command means
/// no action.
pub open spec fn spec_handle(i: InstructionV) -> ActionV {
    match i.command {
        Some(CommandV::Help(b)) => ActionV::PrintHelp(b),
        Some(CommandV::ListThemes) => ActionV::ListThemes,
        Some(CommandV::SearchTheme(q)) => ActionV::SearchTheme(q),
        Some(CommandV::CurrentTheme) => ActionV::ShowCurrentTheme,
        Some(CommandV::SwitchTheme(t)) => match i.option {
            Some(CommandOption::SwitchWithVim) => ActionV::SwitchWithVim(t),
            None => ActionV::Switch(t),
        },
        Some(CommandV::Noop) => ActionV::Nothing,
        None => ActionV::Nothing,
    }
}

/// Maps a completed instruction to the one action it calls for.
pub fn handle(ins: Instruction) -> (a: Action)
    ensures
        a@ == spec_handle(ins@),
{
    let Instruction { command, option } = ins;
    match command {
        Some(Command::Help(bin_name)) => Action::PrintHelp(bin_name),
        Some(Command::ListThemes) => Action::ListThemes,
        Some(Command::SearchTheme(theme_name)) => Action::SearchTheme(theme_name),
        Some(Command::CurrentTheme) => Action::ShowCurrentTheme,
        Some(Command::SwitchTheme(new_theme)) => match option {
            Some(CommandOption::SwitchWithVim) => Action::SwitchWithVim(new_theme),
            None => Action::Switch(new_theme),
        },
        Some(Command::Noop) => Action::Nothing,
        None => Action::Nothing,
    }
}

/// One usage line per flag: its name and its description, tab-indented.
pub open spec fn spec_flag_lines(flags: Seq<crate::FlagV>) -> Seq<char>
    decreases flags.len(),
{
    if flags.len() == 0 {
        Seq::empty()
    } else {
        spec_flag_lines(flags.drop_last()) + "\t"@ + flags.last().name + ": \t "@
            + flags.last().desc + "\n"@
    }
}

/// The full usage text: the invocation synopsis followed by one line per
/// catalog flag.
pub open spec fn spec_help_text(bin: Seq<char>, flags: Seq<crate::FlagV>) -> Seq<char> {
    "Usage:\n\t"@ + bin + " [options] <parameter>\n"@ + "\nOPTIONS:\n"@ + spec_flag_lines(flags)
}

/// Builds the usage text the help command prints.
pub fn help_text(bin_name: &str, flags: &Vec<crate::Flag>) -> (r: String)
    ensures
        r@ == spec_help_text(bin_name@, flags.deep_view()),
{
    let mut out = s("Usage:\n\t");
    out.append(bin_name);
    out.append(" [options] <parameter>\n");
    out.append("\nOPTIONS:\n");
    let ghost head = "Usage:\n\t"@ + bin_name@ + " [options] <parameter>\n"@ + "\nOPTIONS:\n"@;
    let n = flags.len();
    let mut i: usize = 0;
    proof {
        assert(flags.deep_view().subrange(0, 0) =~= Seq::<crate::FlagV>::empty());
        assert(out@ =~= head + spec_flag_lines(flags.deep_view().subrange(0, 0)));
    }
    while i < n
        invariant
            n == flags.len(),
            i <= n,
            head == "Usage:\n\t"@ + bin_name@ + " [options] <parameter>\n"@ + "\nOPTIONS:\n"@,
            out@ == head + spec_flag_lines(flags.deep_view().subrange(0, i as int)),
        decreases n - i,
    {
        let ghost fd = flags.deep_view();
        let ghost pre = fd.subrange(0, i as int);
        let ghost post = fd.subrange(0, i as int + 1);
        proof {
            assert(post.drop_last() =~= pre);
            assert(post.last() == fd[i as int]);
            assert(fd[i as int] == flags@[i as int]@);
        }
        out.append("\t");
        out.append(flags[i].name.as_str());
        out.append(": \t ");
        out.append(flags[i].desc.as_str());
        out.append("\n");
        proof {
            assert(out@ =~= head + spec_flag_lines(post));
        }
        i += 1;
    }
    proof {
        assert(flags.deep_view().subrange(0, n as int) =~= flags.deep_view());
    }
    out
}

/// The part of a file name before its first `.`: the theme's bare name.
pub open spec fn spec_strip_extension(name: Seq<char>) -> Seq<char> {
    before_first(name, '.')
}

/// Strips the extension from a theme fragment's file name.
pub fn strip_extension(name: &str) -> (r: String)
    ensures
        r@ == spec_strip_extension(name@),
{
    let len = name.unicode_len();
    let dot = crate::strutil::first_index_of(name, '.', 0);
    match dot {
        Some(i) => {
            proof {
                crate::strutil::lemma_first_at(name@, '.', i as int);
            }
            s(name.substring_char(0, i))
        },
        None => {
            proof {
                crate::strutil::lemma_no_occurrence(name@, '.');
            }
            s(name)
        },
    }
}

/// Turns a directory listing of fragment files into bare theme names.
pub fn list_theme_names(entries: &Vec<String>) -> (r: Vec<String>)
    ensures
        r.deep_view().len() == entries.deep_view().len(),
        forall|j: int| 0 <= j < entries.deep_view().len() ==> r.deep_view()[j]
            == spec_strip_extension(#[trigger] entries.deep_view()[j]),
{
    let n = entries.len();
    let mut r: Vec<String> = Vec::new();
    let mut i: usize = 0;
    while i < n
        invariant
            n == entries.len(),
            i <= n,
            r.deep_view().len() == i,
            forall|j: int| 0 <= j < i ==> r.deep_view()[j] == spec_strip_extension(
                #[trigger] entries.deep_view()[j],
            ),
        decreases n - i,
    {
        let name = strip_extension(entries[i].as_str());
        r.push(name);
        i += 1;
    }
    r
}

/// The bare names, in listing order, of the fragment files whose bare
/// name starts with the query.
pub open spec fn spec_search(names: Seq<Seq<char>>, q: Seq<char>) -> Seq<Seq<char>>
    decreases names.len(),
{
    if names.len() == 0 {
        Seq::empty()
    } else {
        spec_search(names.drop_last(), q) + if prefix_of(
            q,
            spec_strip_extension(names.last()),
        ) {
            seq![spec_strip_extension(names.last())]
        } else {
            Seq::empty()
        }
    }
}

/// Prefix-searches a directory listing of fragment files: every bare
/// name that starts with the query, in listing order.  An empty result
/// means no theme matched, and the caller prints the not-found line.
pub fn search_matches(entries: &Vec<String>, query: &str) -> (r: Vec<String>)
    ensures
        r.deep_view() == spec_search(entries.deep_view(), query@),
        r.deep_view().len() == 0 <==> (forall|j: int| 0 <= j < entries.deep_view().len()
            ==> !prefix_of(query@, spec_strip_extension(#[trigger] entries.deep_view()[j]))),
{
    let n = entries.len();
    let mut r: Vec<String> = Vec::new();
    let mut i: usize = 0;
    while i < n
        invariant
            n == entries.len(),
            i <= n,
            r.deep_view() == spec_search(entries.deep_view().subrange(0, i as int), query@),
            r.deep_view().len() == 0 <==> (forall|j: int| 0 <= j < i ==> !prefix_of(
                query@,
                spec_strip_extension(#[trigger] entries.deep_view()[j]),
            )),
        decreases n - i,
    {
        let ghost ed = entries.deep_view();
        let ghost pre = ed.subrange(0, i as int);
        let ghost post = ed.subrange(0, i as int + 1);
        proof {
            assert(post.drop_last() =~= pre);
            assert(post.last() == ed[i as int]);
        }
        let name = strip_extension(entries[i].as_str());
        if str_starts_with(name.as_str(), query) {
            r.push(name);
            proof {
                assert(r.deep_view() =~= spec_search(post, query@));
            }
        } else {
            proof {
                assert(r.deep_view() =~= spec_search(post, query@));
            }
        }
        i += 1;
    }
    proof {
        assert(entries.deep_view().subrange(0, n as int) =~= entries.deep_view());
    }
    r
}

/// Why a switch was refused.
#[derive(Debug, PartialEq)]
pub enum SwitchError {
    /// No fragment file for the requested theme exists under the theme
    /// root; nothing was modified.
    ThemeNotFound,
}

/// One theme fragment file: its file name and its content.
pub struct ThemeEntry {
    pub file_name: String,
    pub content: String,
}

/// The mathematical value of a [`ThemeEntry`].
pub struct ThemeEntryV {
    pub file_name: Seq<char>,
    pub content: Seq<char>,
}

impl View for ThemeEntry {
    type V = ThemeEntryV;

    open spec fn view(&self) -> ThemeEntryV {
        ThemeEntryV { file_name: self.file_name@, content: self.content@ }
    }
}

impl DeepView for ThemeEntry {
    type V = ThemeEntryV;

    open spec fn deep_view(&self) -> ThemeEntryV {
        self.view()
    }
}

/// The files a theme switch works on: the theme-independent base
/// configuration, the fragment files under the theme root, the assembled
/// final configuration, and the persisted current-theme marker.  `None`
/// stands for an absent file.
pub struct ThemeStore {
    pub base_config: String,
    pub themes: Vec<ThemeEntry>,
    pub final_config: Option<String>,
    pub current_theme: Option<String>,
}

/// The mathematical value of a [`ThemeStore`].
pub struct ThemeStoreV {
    pub base_config: Seq<char>,
    pub themes: Seq<ThemeEntryV>,
    pub final_config: Option<Seq<char>>,
    pub current_theme: Option<Seq<char>>,
}

impl View for ThemeStore {
    type V = ThemeStoreV;

    open spec fn view(&self) -> ThemeStoreV {
        ThemeStoreV {
            base_config: self.base_config@,
            themes: self.themes.deep_view(),
            final_config: self.final_config.deep_view(),
            current_theme: self.current_theme.deep_view(),
        }
    }
}

/// The fragment file name a theme resolves to.
pub open spec fn spec_fragment_file(theme: Seq<char>) -> Seq<char> {
    theme + ".yml"@
}

/// The content of the first fragment file with the given name, if any.
pub open spec fn spec_lookup(themes: Seq<ThemeEntryV>, fname: Seq<char>) -> Option<Seq<char>>
    decreases themes.len(),
{
    if themes.len() == 0 {
        None
    } else if themes[0].file_name == fname {
        Some(themes[0].content)
    } else {
        spec_lookup(themes.skip(1), fname)
    }
}

/// When `i` is the first entry with the given name, the lookup returns
/// its content.
pub proof fn lemma_lookup_at(themes: Seq<ThemeEntryV>, fname: Seq<char>, i: int)
    requires
        0 <= i < themes.len(),
        themes[i].file_name == fname,
        forall|k: int| 0 <= k < i ==> (#[trigger] themes[k]).file_name != fname,
    ensures
        spec_lookup(themes, fname) == Some(themes[i].content),
    decreases i,
{
    if i > 0 {
        let t = themes.skip(1);
        assert(forall|k: int| 0 <= k < i - 1 ==> t[k] == themes[k + 1]);
        lemma_lookup_at(t, fname, i - 1);
    }
}

/// When no entry has the given name, the lookup finds nothing.
pub proof fn lemma_lookup_none(themes: Seq<ThemeEntryV>, fname: Seq<char>)
    requires
        forall|k: int| 0 <= k < themes.len() ==> (#[trigger] themes[k]).file_name != fname,
    ensures
        spec_lookup(themes, fname) is None,
    decreases themes.len(),
{
    if themes.len() > 0 {
        let t = themes.skip(1);
        assert(forall|k: int| 0 <= k < t.len() ==> t[k] == themes[k + 1]);
        lemma_lookup_none(t, fname);
    }
}

/// What a switch does to the store: when the theme's fragment file
/// exists, the final configuration becomes the base configuration with
/// the fragment appended, and the marker becomes the theme's name;
/// otherwise the store is untouched.
pub open spec fn spec_switch(st: ThemeStoreV, theme: Seq<char>) -> ThemeStoreV {
    match spec_lookup(st.themes, spec_fragment_file(theme)) {
        None => st,
        Some(frag) => ThemeStoreV {
            base_config: st.base_config,
            themes: st.themes,
            final_config: Some(st.base_config + frag),
            current_theme: Some(theme),
        },
    }
}

impl ThemeStore {
    /// Switches to `new_theme`: resolves the theme to its fragment file;
    /// when the file is absent, reports the theme as not found and
    /// leaves the final configuration and the marker exactly as they
    /// were; when it exists, replaces the final configuration with the
    /// base configuration followed by the fragment, byte for byte with
    /// no separator, and replaces the marker with the theme's name.
    pub fn switch(&mut self, new_theme: &str) -> (r: Result<(), SwitchError>)
        ensures
            final(self)@ == spec_switch(old(self)@, new_theme@),
            r matches Ok(()) <==> spec_lookup(
                old(self)@.themes,
                spec_fragment_file(new_theme@),
            ) is Some,
            r matches Err(SwitchError::ThemeNotFound) <==> spec_lookup(
                old(self)@.themes,
                spec_fragment_file(new_theme@),
            ) is None,
    {
        let fname = s(new_theme).concat(".yml");
        let ghost fnv = spec_fragment_file(new_theme@);
        let n = self.themes.len();
        let mut i: usize = 0;
        while i < n
            invariant
                n == self.themes.len(),
                i <= n,
                fname@ == fnv,
                fnv == spec_fragment_file(new_theme@),
                forall|k: int| 0 <= k < i ==> (#[trigger] self.themes.deep_view()[k]).file_name
                    != fnv,
                *self == *old(self),
            decreases n - i,
        {
            if str_eq(self.themes[i].file_name.as_str(), fname.as_str()) {
                proof {
                    assert(self.themes.deep_view()[i as int] == self.themes@[i as int]@);
                    assert(self.themes.deep_view()[i as int].file_name == fnv);
                    lemma_lookup_at(self.themes.deep_view(), fnv, i as int);
                }
                let frag = self.themes[i].content.clone();
                proof {
                    assert(frag@ == self.themes.deep_view()[i as int].content);
                }
                let assembled = self.base_config.clone().concat(frag.as_str());
                self.final_config = Some(assembled);
                self.current_theme = Some(s(new_theme));
                return Ok(());
            }
            i += 1;
        }
        proof {
            lemma_lookup_none(self.themes.deep_view(), fnv);
        }
        Err(SwitchError::ThemeNotFound)
    }

    /// Reads the persisted current-theme name; an absent marker yields
    /// the empty string.
    pub fn read_current(&self) -> (r: String)
        ensures
            r@ == match self@.current_theme {
                Some(t) => t,
                None => Seq::<char>::empty(),
            },
    {
        match &self.current_theme {
            Some(t) => t.clone(),
            None => String::new(),
        }
    }
}

/// Switching is idempotent: switching again to the theme just switched
/// to reproduces the same store, and in particular the same final
/// configuration content.
pub proof fn lemma_switch_idempotent(st: ThemeStoreV, theme: Seq<char>)
    ensures
        spec_switch(spec_switch(st, theme), theme) == spec_switch(st, theme),
{
    match spec_lookup(st.themes, spec_fragment_file(theme)) {
        None => {},
        Some(frag) => {
            let s1 = spec_switch(st, theme);
            assert(s1.themes == st.themes);
            assert(spec_lookup(s1.themes, spec_fragment_file(theme)) == Some(frag));
        },
    }
}

} // verus!
