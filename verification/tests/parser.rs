use themer::flags;
use themer::instructions::parse_flags;
use themer::instructions::parse_instructions;
use themer::instructions::Command;
use themer::instructions::CommandOption;
use themer::parse_bin;
use themer::parse_theme;
use themer::s;

fn args_of(tokens: &[&str]) -> Vec<String> {
    tokens.iter().map(|t| s(t)).collect()
}

#[test]
fn unrecognized_long_flag_fails_the_parse() {
    let catalog = flags();
    let args = args_of(&["/usr/bin/themer", "--bogus"]);
    let r = parse_instructions(&args, "themer", &catalog);
    assert_eq!(r.unwrap_err(), s("Invalid Flag: --bogus"));
}

#[test]
fn unrecognized_short_flag_fails_the_parse() {
    let catalog = flags();
    let args = args_of(&["/usr/bin/themer", "-x", "dracula"]);
    let r = parse_instructions(&args, "themer", &catalog);
    assert_eq!(r.unwrap_err(), s("Invalid Flag: -x"));
}

#[test]
fn last_invalid_flag_is_the_one_named() {
    let catalog = flags();
    let args = args_of(&["/usr/bin/themer", "--bogus", "--worse"]);
    let r = parse_instructions(&args, "themer", &catalog);
    assert_eq!(r.unwrap_err(), s("Invalid Flag: --worse"));
}

#[test]
fn no_arguments_yields_help() {
    let catalog = flags();
    let args = args_of(&["/usr/bin/themer"]);
    let ins = parse_instructions(&args, "themer", &catalog).unwrap();
    assert_eq!(ins.command, Some(Command::Help(s("themer"))));
    assert_eq!(ins.option, None);
}

#[test]
fn help_flag_yields_help() {
    let catalog = flags();
    let args = args_of(&["/usr/bin/themer", "--help"]);
    let ins = parse_instructions(&args, "themer", &catalog).unwrap();
    assert_eq!(ins.command, Some(Command::Help(s("themer"))));
}

#[test]
fn list_flag_yields_list() {
    let catalog = flags();
    let args = args_of(&["/usr/bin/themer", "--list"]);
    let ins = parse_instructions(&args, "themer", &catalog).unwrap();
    assert_eq!(ins.command, Some(Command::ListThemes));
    assert_eq!(ins.option, None);
}

#[test]
fn current_flag_yields_current() {
    let catalog = flags();
    let args = args_of(&["/usr/bin/themer", "--current"]);
    let ins = parse_instructions(&args, "themer", &catalog).unwrap();
    assert_eq!(ins.command, Some(Command::CurrentTheme));
}

#[test]
fn switch_with_theme_yields_switch() {
    let catalog = flags();
    let args = args_of(&["/usr/bin/themer", "--switch", "dracula"]);
    let ins = parse_instructions(&args, "themer", &catalog).unwrap();
    assert_eq!(ins.command, Some(Command::SwitchTheme(s("dracula"))));
    assert_eq!(ins.option, None);
}

#[test]
fn switch_by_short_alias_yields_switch() {
    let catalog = flags();
    let args = args_of(&["/usr/bin/themer", "-s", "dracula"]);
    let ins = parse_instructions(&args, "themer", &catalog).unwrap();
    assert_eq!(ins.command, Some(Command::SwitchTheme(s("dracula"))));
}

#[test]
fn switch_without_theme_sets_no_command() {
    let catalog = flags();
    let args = args_of(&["/usr/bin/themer", "--switch"]);
    let ins = parse_instructions(&args, "themer", &catalog).unwrap();
    assert_eq!(ins.command, None);
}

#[test]
fn search_with_query_yields_search() {
    let catalog = flags();
    let args = args_of(&["/usr/bin/themer", "--search", "drac"]);
    let ins = parse_instructions(&args, "themer", &catalog).unwrap();
    assert_eq!(ins.command, Some(Command::SearchTheme(s("drac"))));
}

#[test]
fn with_vim_combined_with_switch_sets_the_option() {
    let catalog = flags();
    let args = args_of(&["/usr/bin/themer", "--switch", "--with-vim", "dracula"]);
    let ins = parse_instructions(&args, "themer", &catalog).unwrap();
    assert_eq!(ins.command, Some(Command::SwitchTheme(s("dracula"))));
    assert_eq!(ins.option, Some(CommandOption::SwitchWithVim));
}

#[test]
fn with_vim_before_switch_in_argument_order_still_sets_the_option() {
    let catalog = flags();
    let args = args_of(&["/usr/bin/themer", "--with-vim", "--switch", "dracula"]);
    let ins = parse_instructions(&args, "themer", &catalog).unwrap();
    assert_eq!(ins.command, Some(Command::SwitchTheme(s("dracula"))));
    assert_eq!(ins.option, Some(CommandOption::SwitchWithVim));
}

#[test]
fn with_vim_combined_with_list_drops_the_option() {
    let catalog = flags();
    let args = args_of(&["/usr/bin/themer", "--list", "--with-vim"]);
    let ins = parse_instructions(&args, "themer", &catalog).unwrap();
    assert_eq!(ins.command, Some(Command::ListThemes));
    assert_eq!(ins.option, None);
}

#[test]
fn with_vim_combined_with_current_drops_the_option() {
    let catalog = flags();
    let args = args_of(&["/usr/bin/themer", "--current", "--with-vim"]);
    let ins = parse_instructions(&args, "themer", &catalog).unwrap();
    assert_eq!(ins.command, Some(Command::CurrentTheme));
    assert_eq!(ins.option, None);
}

#[test]
fn with_vim_combined_with_help_drops_the_option() {
    let catalog = flags();
    let args = args_of(&["/usr/bin/themer", "--help", "--with-vim"]);
    let ins = parse_instructions(&args, "themer", &catalog).unwrap();
    assert_eq!(ins.command, Some(Command::Help(s("themer"))));
    assert_eq!(ins.option, None);
}

#[test]
fn positional_is_the_last_nonflag_token() {
    let catalog = flags();
    let args = args_of(&["/usr/bin/themer", "--switch", "alpha", "beta"]);
    let recognized = themer::parse_flags(&args, &catalog);
    let theme = parse_theme(&args, &recognized);
    assert_eq!(theme, s("beta"));
}

#[test]
fn positional_is_empty_when_only_the_invocation_remains() {
    let catalog = flags();
    let args = args_of(&["/usr/bin/themer", "--switch"]);
    let recognized = themer::parse_flags(&args, &catalog);
    let theme = parse_theme(&args, &recognized);
    assert_eq!(theme, s(""));
}

#[test]
fn short_alias_tokens_pass_through_the_positional_filter() {
    let catalog = flags();
    let args = args_of(&["/usr/bin/themer", "--switch", "-s"]);
    let recognized = themer::parse_flags(&args, &catalog);
    let theme = parse_theme(&args, &recognized);
    assert_eq!(theme, s("-s"));
}

#[test]
fn validation_failure_reports_no_flags() {
    let catalog = flags();
    let args = args_of(&["/usr/bin/themer", "--list", "--bogus"]);
    let r = parse_flags(&args, &catalog);
    assert_eq!(r.unwrap_err(), s("Invalid Flag: --bogus"));
}

#[test]
fn recognized_flags_come_in_catalog_order() {
    let catalog = flags();
    let args = args_of(&["/usr/bin/themer", "--with-vim", "--switch", "x"]);
    let recognized = parse_flags(&args, &catalog).unwrap();
    let names: Vec<String> = recognized.iter().map(|f| f.name.clone()).collect();
    assert_eq!(names, vec![s("--switch"), s("--with-vim")]);
}

#[test]
fn catalog_holds_the_six_flags() {
    let catalog = flags();
    let names: Vec<String> = catalog.iter().map(|f| f.name.clone()).collect();
    assert_eq!(
        names,
        vec![
            s("--help"),
            s("--list"),
            s("--current"),
            s("--switch"),
            s("--with-vim"),
            s("--search"),
        ]
    );
    assert_eq!(catalog[0].short, Some(s("-h")));
    assert_eq!(catalog[4].short, None);
}

#[test]
fn parse_bin_takes_the_trailing_path_component() {
    assert_eq!(parse_bin("/usr/local/bin/themer"), "themer");
    assert_eq!(parse_bin("themer"), "themer");
    assert_eq!(parse_bin("/usr/local/bin/"), "");
}
