use themer::commands::list_theme_names;
use themer::commands::search_matches;
use themer::commands::strip_extension;
use themer::s;

fn entries_of(names: &[&str]) -> Vec<String> {
    names.iter().map(|n| s(n)).collect()
}

#[test]
fn strip_extension_takes_the_part_before_the_first_dot() {
    assert_eq!(strip_extension("dracula.yml"), s("dracula"));
    assert_eq!(strip_extension("nord.color.yml"), s("nord"));
    assert_eq!(strip_extension("noext"), s("noext"));
    assert_eq!(strip_extension(".hidden"), s(""));
    assert_eq!(strip_extension(""), s(""));
}

#[test]
fn listing_strips_every_entry() {
    let names = list_theme_names(&entries_of(&["dracula.yml", "nord.yml"]));
    assert_eq!(names, vec![s("dracula"), s("nord")]);
}

#[test]
fn prefix_search_keeps_matching_names_only() {
    let entries = entries_of(&["dracula.yml", "dracula-pro.yml", "nord.yml"]);
    let found = search_matches(&entries, "drac");
    assert_eq!(found, vec![s("dracula"), s("dracula-pro")]);
}

#[test]
fn prefix_search_without_a_match_is_empty() {
    let entries = entries_of(&["dracula.yml", "dracula-pro.yml", "nord.yml"]);
    let found = search_matches(&entries, "zzz");
    assert!(found.is_empty());
}

#[test]
fn prefix_search_is_case_sensitive() {
    let entries = entries_of(&["Dracula.yml"]);
    assert!(search_matches(&entries, "drac").is_empty());
    assert_eq!(search_matches(&entries, "Drac"), vec![s("Dracula")]);
}

#[test]
fn empty_prefix_matches_everything() {
    let entries = entries_of(&["dracula.yml", "nord.yml"]);
    let found = search_matches(&entries, "");
    assert_eq!(found, vec![s("dracula"), s("nord")]);
}
