use winseek::inventory::WindowInfo;
use winseek::rank::{rank_windows, score_title, title_matches};

fn record(handle: usize, title: &str) -> WindowInfo {
    WindowInfo { handle, title: title.to_owned(), icon: None, icon_size: None }
}

fn titles(recs: &[WindowInfo]) -> Vec<String> {
    recs.iter().map(|w| w.title.clone()).collect()
}

#[test]
fn score_matches_documented_example() {
    // The matcher's documented example: "scc" in "SoccerCartoonController".
    assert_eq!(score_title("scc", "SoccerCartoonController"), 172);
}

#[test]
fn score_agrees_with_the_matcher() {
    let expected = sublime_fuzzy::best_match("something", "some search thing")
        .expect("full pattern matches")
        .score();
    assert_eq!(score_title("something", "some search thing"), expected);
}

#[test]
fn unmatched_query_scores_zero() {
    assert_eq!(score_title("xyz", "Slack"), 0);
    assert_eq!(score_title("cod", "Google Chrome"), 0);
}

#[test]
fn empty_query_scores_zero() {
    assert_eq!(score_title("", "Visual Studio Code"), 0);
    assert_eq!(score_title("", ""), 0);
}

#[test]
fn matching_is_case_insensitive() {
    assert!(title_matches("cod", "Visual Studio Code"));
    assert!(title_matches("COD", "Visual Studio Code"));
    assert!(title_matches("cod", "VISUAL STUDIO CODE"));
    assert!(title_matches("CoD", "visual studio code"));
    assert!(!title_matches("xyz", "Visual Studio Code"));
    assert!(!title_matches("XYZ", "VISUAL STUDIO CODE"));
}

#[test]
fn query_cod_ranks_code_editor_first() {
    let inventory = vec![
        record(1, "Visual Studio Code"),
        record(2, "Google Chrome"),
        record(3, "Slack"),
    ];
    let ranked = rank_windows("cod", inventory);
    assert_eq!(ranked.len(), 3);
    assert_eq!(ranked[0].title, "Visual Studio Code");
    assert_eq!(ranked[0].handle, 1);
}

#[test]
fn empty_query_keeps_inventory_order() {
    let inventory = vec![
        record(1, "Visual Studio Code"),
        record(2, "Google Chrome"),
        record(3, "Slack"),
        record(4, "Terminal"),
    ];
    let ranked = rank_windows("", inventory);
    assert_eq!(titles(&ranked), vec!["Visual Studio Code", "Google Chrome", "Slack", "Terminal"]);
}

#[test]
fn ranking_is_deterministic() {
    let make = || {
        vec![
            record(1, "Visual Studio Code"),
            record(2, "Google Chrome"),
            record(3, "Slack"),
            record(4, "Code of Conduct - Notepad"),
        ]
    };
    let first = rank_windows("cod", make());
    let second = rank_windows("cod", make());
    assert_eq!(titles(&first), titles(&second));
}

#[test]
fn tied_scores_keep_input_order() {
    // No title matches, so every record scores zero and the order is kept.
    let inventory = vec![record(1, "Slack"), record(2, "Terminal"), record(3, "Mail")];
    let ranked = rank_windows("qqq", inventory);
    assert_eq!(titles(&ranked), vec!["Slack", "Terminal", "Mail"]);
}

#[test]
fn ranking_is_a_permutation() {
    let inventory = vec![record(1, "Alpha"), record(2, "Beta"), record(3, "Gamma")];
    let ranked = rank_windows("a", inventory);
    let mut handles: Vec<usize> = ranked.iter().map(|w| w.handle).collect();
    handles.sort();
    assert_eq!(handles, vec![1, 2, 3]);
}

#[test]
fn higher_score_moves_up() {
    // "Code" as an exact word-start run must outrank a scattered match.
    let inventory = vec![record(1, "Chrome Downloads"), record(2, "Visual Studio Code")];
    let ranked = rank_windows("code", inventory);
    assert_eq!(ranked[0].title, "Visual Studio Code");
}
