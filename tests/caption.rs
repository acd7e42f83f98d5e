use ipp_proxy::caption::{caption_program, page_text, CAPTION_FONT_PROGRAM};
use ipp_proxy::model::Team;

fn team(name: &str, location: &str) -> Team {
    Team {
        team_id: "t1".to_string(),
        team_name: name.to_string(),
        location: location.to_string(),
        ip_address: Some("10.0.0.7".to_string()),
        password: None,
        ipp_upstream: "printer.local:631".to_string(),
    }
}

#[test]
fn caption_of_each_page() {
    let t = team("Rustaceans", "Room B");
    assert_eq!(page_text(&t, 0, 3), "Room B - Page 1 of 3 - Team \"Rustaceans\"");
    assert_eq!(page_text(&t, 1, 3), "Room B - Page 2 of 3 - Team \"Rustaceans\"");
    assert_eq!(page_text(&t, 2, 3), "Room B - Page 3 of 3 - Team \"Rustaceans\"");
}

#[test]
fn caption_numbers_with_several_digits() {
    let t = team("X", "L");
    assert_eq!(page_text(&t, 9, 10), "L - Page 10 of 10 - Team \"X\"");
    assert_eq!(page_text(&t, 122, 1234), "L - Page 123 of 1234 - Team \"X\"");
}

#[test]
fn long_name_is_cut_with_an_ellipsis_and_parentheses_escaped() {
    let name = "The (very) long team name that goes on and on";
    let name = &name[..45];
    assert_eq!(name.chars().count(), 45);
    let t = team(name, "Hall");
    let text = page_text(&t, 0, 1);
    assert_eq!(text, "Hall - Page 1 of 1 - Team \"The \\(very\\) long team name that...\"");
}

#[test]
fn name_at_the_limit_is_kept_whole() {
    let name = "abcdefghijklmnopqrstuvwxyz0123";
    assert_eq!(name.len(), 30);
    let t = team(name, "L");
    assert_eq!(page_text(&t, 0, 2), format!("L - Page 1 of 2 - Team \"{}\"", name));
    let longer = "abcdefghijklmnopqrstuvwxyz01234";
    let t = team(longer, "L");
    assert_eq!(page_text(&t, 0, 2), format!("L - Page 1 of 2 - Team \"{}...\"", name));
}

#[test]
fn limit_counts_characters_not_bytes() {
    let name = "é".repeat(31);
    let t = team(&name, "L");
    assert_eq!(page_text(&t, 0, 1), format!("L - Page 1 of 1 - Team \"{}...\"", "é".repeat(30)));
}

#[test]
fn parentheses_in_location_are_escaped() {
    let t = team("A", "Lab (2nd floor)");
    assert_eq!(page_text(&t, 0, 1), "Lab \\(2nd floor\\) - Page 1 of 1 - Team \"A\"");
}

#[test]
fn caption_program_draws_the_caption() {
    assert_eq!(caption_program("x \\(y\\)"), "50 20 moveto (x \\(y\\)) show showpage");
    assert_eq!(CAPTION_FONT_PROGRAM, "/Courier findfont 12 scalefont setfont");
}
