use themer::commands::handle;
use themer::commands::help_text;
use themer::commands::Action;
use themer::flags;
use themer::instructions::Command;
use themer::instructions::CommandOption;
use themer::instructions::Instruction;
use themer::s;

fn ins(command: Option<Command>, option: Option<CommandOption>) -> Instruction {
    Instruction { command, option }
}

#[test]
fn help_dispatches_to_print_help() {
    let a = handle(ins(Some(Command::Help(s("themer"))), None));
    assert_eq!(a, Action::PrintHelp(s("themer")));
}

#[test]
fn list_dispatches_to_listing() {
    assert_eq!(handle(ins(Some(Command::ListThemes), None)), Action::ListThemes);
}

#[test]
fn search_dispatches_with_its_query() {
    let a = handle(ins(Some(Command::SearchTheme(s("drac"))), None));
    assert_eq!(a, Action::SearchTheme(s("drac")));
}

#[test]
fn current_dispatches_to_show_current() {
    assert_eq!(handle(ins(Some(Command::CurrentTheme), None)), Action::ShowCurrentTheme);
}

#[test]
fn switch_without_the_option_dispatches_to_a_plain_switch() {
    let a = handle(ins(Some(Command::SwitchTheme(s("nord"))), None));
    assert_eq!(a, Action::Switch(s("nord")));
}

#[test]
fn switch_with_the_option_dispatches_to_switch_with_vim() {
    let a = handle(
        ins(Some(Command::SwitchTheme(s("nord"))), Some(CommandOption::SwitchWithVim)),
    );
    assert_eq!(a, Action::SwitchWithVim(s("nord")));
}

#[test]
fn noop_and_absent_commands_dispatch_to_nothing() {
    assert_eq!(handle(ins(Some(Command::Noop), None)), Action::Nothing);
    assert_eq!(handle(ins(None, None)), Action::Nothing);
    assert_eq!(handle(ins(None, Some(CommandOption::SwitchWithVim))), Action::Nothing);
}

#[test]
fn a_switch_with_vim_invocation_flows_to_the_combined_action() {
    let catalog = flags();
    let args = vec![s("/usr/bin/themer"), s("--switch"), s("dracula"), s("--with-vim")];
    let ins = themer::instructions::parse_instructions(&args, "themer", &catalog).unwrap();
    assert_eq!(handle(ins), Action::SwitchWithVim(s("dracula")));
}

#[test]
fn a_search_invocation_flows_to_the_search_action() {
    let catalog = flags();
    let args = vec![s("/usr/bin/themer"), s("--search"), s("drac")];
    let ins = themer::instructions::parse_instructions(&args, "themer", &catalog).unwrap();
    assert_eq!(handle(ins), Action::SearchTheme(s("drac")));
}

#[test]
fn help_text_lists_every_flag() {
    let catalog = flags();
    let text = help_text("themer", &catalog);
    assert!(text.starts_with("Usage:\n\tthemer [options] <parameter>\n\nOPTIONS:\n"));
    assert!(text.contains("\t--help: \t Prints the help string\n"));
    assert!(text.contains("\t--switch: \t Switch the theme to a new one.\nPARAMETER:\n\t<theme_name>\n"));
    assert!(text.contains("\t--search: \t Search for a theme.\nPARAMETER:\n\t<theme_name>\n"));
}
