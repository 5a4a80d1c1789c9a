use ppoid::text::{
    final_score_text, leaderboard_text, parse_leaderboard, score_text, LeaderRow,
};

fn chars(s: &str) -> Vec<char> {
    s.chars().collect()
}

#[test]
fn score_line_renders() {
    assert_eq!(score_text(0), chars("Score: 0"));
    assert_eq!(score_text(1400), chars("Score: 1400"));
    assert_eq!(score_text(u64::MAX), chars("Score: 18446744073709551615"));
}

#[test]
fn final_score_line_with_and_without_name() {
    assert_eq!(final_score_text(&Vec::new(), 5), chars("Your final score: 5"));
    assert_eq!(final_score_text(&chars("Ada"), 1400), chars("Ada, your final score: 1400"));
}

#[test]
fn leaderboard_renders_one_line_per_row() {
    let rows = vec![
        LeaderRow { player: b"Ada".to_vec(), score: 1400 },
        LeaderRow { player: b"B".to_vec(), score: 7 },
    ];
    assert_eq!(leaderboard_text(&rows), b"Leaderboard: \nAda: 1400\nB: 7".to_vec());
    assert_eq!(leaderboard_text(&Vec::new()), b"Leaderboard: ".to_vec());
}

#[test]
fn parse_rows_in_either_member_order() {
    let rows = parse_leaderboard(b"[{\"player\":\"Ada\",\"score\":1400}]").expect("well formed");
    assert_eq!(rows.len(), 1);
    assert_eq!(rows[0].player, b"Ada".to_vec());
    assert_eq!(rows[0].score, 1400);
    let rows =
        parse_leaderboard(b" [ { \"score\" : 12 , \"player\" : \"Bob\" } ] ").expect("well formed");
    assert_eq!(rows[0].player, b"Bob".to_vec());
    assert_eq!(rows[0].score, 12);
}

#[test]
fn parse_several_rows_keeps_order() {
    let doc = b"[{\"player\":\"Ada\",\"score\":3},\n {\"player\":\"Bob\",\"score\":2},\n {\"player\":\"Cy\",\"score\":1}]";
    let rows = parse_leaderboard(doc).expect("well formed");
    assert_eq!(rows.len(), 3);
    assert_eq!(rows[0].player, b"Ada".to_vec());
    assert_eq!(rows[1].player, b"Bob".to_vec());
    assert_eq!(rows[2].player, b"Cy".to_vec());
}

#[test]
fn parse_empty_array() {
    let rows = parse_leaderboard(b" [ ] ").expect("well formed");
    assert!(rows.is_empty());
}

#[test]
fn parse_resolves_escapes() {
    let rows = parse_leaderboard(b"[{\"player\":\"Zo\\\"e\\n\",\"score\":0}]").expect("well formed");
    assert_eq!(rows[0].player, b"Zo\"e\n".to_vec());
}

#[test]
fn parse_score_at_the_top_of_the_range() {
    let rows =
        parse_leaderboard(b"[{\"player\":\"M\",\"score\":18446744073709551615}]").expect("well formed");
    assert_eq!(rows[0].score, u64::MAX);
}

#[test]
fn malformed_documents_are_rejected() {
    // Each of these breaks the row shape in one way.
    assert!(parse_leaderboard(b"").is_none());
    assert!(parse_leaderboard(b"{}").is_none());
    assert!(parse_leaderboard(b"[").is_none());
    assert!(parse_leaderboard(b"[{\"player\":\"Ada\"}]").is_none());
    assert!(parse_leaderboard(b"[{\"score\":1}]").is_none());
    assert!(parse_leaderboard(b"[{\"player\":\"A\",\"score\":-1}]").is_none());
    assert!(parse_leaderboard(b"[{\"player\":\"A\",\"score\":1}] x").is_none());
    assert!(parse_leaderboard(b"[{\"player\":\"A\",\"score\":18446744073709551616}]").is_none());
    assert!(parse_leaderboard(b"[{\"other\":\"A\",\"score\":1}]").is_none());
    assert!(parse_leaderboard(b"[{\"player\":\"A\",\"score\":1},]").is_none());
}

#[test]
fn posted_score_shows_in_the_next_fetch() {
    // The remote scoreboard modelled as its wire document: after the
    // submission is appended, the re-fetch parses it back.
    let before = b"[{\"player\":\"Bob\",\"score\":7}]".to_vec();
    let mut rows = parse_leaderboard(&before).expect("well formed");
    rows.push(LeaderRow { player: b"Ada".to_vec(), score: 1400 });
    let mut after = Vec::new();
    after.extend_from_slice(b"[{\"player\":\"Bob\",\"score\":7},{\"player\":\"Ada\",\"score\":1400}]");
    let fetched = parse_leaderboard(&after).expect("well formed");
    assert_eq!(fetched.len(), 2);
    assert_eq!(fetched[1].player, b"Ada".to_vec());
    assert_eq!(fetched[1].score, 1400);
    assert_eq!(fetched, rows);
}
