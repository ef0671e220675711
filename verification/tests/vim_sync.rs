use themer::fileutils::substitute;
use themer::s;
use themer::vim::extract_directive;
use themer::vim::replacement_directive;
use themer::vim::switch_colorscheme;

fn lines_of(lines: &[&str]) -> Vec<String> {
    lines.iter().map(|l| s(l)).collect()
}

#[test]
fn substitute_replaces_every_occurrence() {
    assert_eq!(substitute("abcabc", "b", "XY"), s("aXYcaXYc"));
    assert_eq!(substitute("aaa", "aa", "b"), s("ba"));
    assert_eq!(substitute("nothing here", "zzz", "x"), s("nothing here"));
    assert_eq!(substitute("", "a", "b"), s(""));
}

#[test]
fn substitute_swaps_a_whole_directive_line() {
    let content = "set nu\ncolorscheme nord\nsyntax on\n";
    let out = substitute(content, "colorscheme nord", "colorscheme dracula");
    assert_eq!(out, s("set nu\ncolorscheme dracula\nsyntax on\n"));
}

#[test]
fn extraction_takes_the_content_after_the_first_colon() {
    let lines = lines_of(&["12:colorscheme nord"]);
    assert_eq!(extract_directive(&lines), Some(s("colorscheme nord")));
}

#[test]
fn extraction_trims_leading_whitespace_from_the_content() {
    let lines = lines_of(&["12:   colorscheme nord"]);
    assert_eq!(extract_directive(&lines), Some(s("colorscheme nord")));
}

#[test]
fn extraction_filters_false_positives() {
    let lines = lines_of(&[
        "3:Plug 'dracula/vim'",
        "8:\" colorscheme nord was here",
        "9:call SetColorscheme()",
        "10:\\ colorscheme continuation",
        "14:colorscheme gruvbox",
    ]);
    assert_eq!(extract_directive(&lines), Some(s("colorscheme gruvbox")));
}

#[test]
fn extraction_takes_the_last_surviving_line() {
    let lines = lines_of(&["2:colorscheme nord", "7:colorscheme gruvbox"]);
    assert_eq!(extract_directive(&lines), Some(s("colorscheme gruvbox")));
}

#[test]
fn extraction_of_only_false_positives_finds_nothing() {
    let lines = lines_of(&["3:Plug 'dracula/vim'", "9:call Foo()"]);
    assert_eq!(extract_directive(&lines), None);
}

#[test]
fn extraction_skips_lines_without_a_colon() {
    let lines = lines_of(&["no separator here", "5:colorscheme nord"]);
    assert_eq!(extract_directive(&lines), Some(s("colorscheme nord")));
}

#[test]
fn extraction_stops_the_content_at_a_second_colon() {
    let lines = lines_of(&["5:colorscheme nord:rest"]);
    assert_eq!(extract_directive(&lines), Some(s("colorscheme nord")));
}

#[test]
fn replacement_directive_embeds_the_theme() {
    assert_eq!(replacement_directive("dracula"), s("colorscheme dracula"));
}

#[test]
fn switch_colorscheme_rewrites_the_configuration() {
    let vimrc = "set nu\ncolorscheme nord\nsyntax on\n";
    let lines = lines_of(&["2:colorscheme nord"]);
    let out = switch_colorscheme(vimrc, &lines, "dracula");
    assert_eq!(out, Some(s("set nu\ncolorscheme dracula\nsyntax on\n")));
}

#[test]
fn switch_colorscheme_without_a_match_rewrites_nothing() {
    let vimrc = "set nu\n";
    let lines = lines_of(&["3:Plug 'dracula/vim'"]);
    assert_eq!(switch_colorscheme(vimrc, &lines, "dracula"), None);
}

#[test]
fn switch_colorscheme_with_an_empty_directive_rewrites_nothing() {
    let vimrc = "set nu\n";
    let lines = lines_of(&["3:"]);
    assert_eq!(switch_colorscheme(vimrc, &lines, "dracula"), None);
}
