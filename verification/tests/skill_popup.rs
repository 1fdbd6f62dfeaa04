use cazean_tui::frame::{DrawOp, Rect};
use cazean_tui::skill_popup::{SkillMeta, SkillPopup};

fn meta(name: &str, description: &str) -> SkillMeta {
    SkillMeta {
        name: name.to_string(),
        description: description.to_string(),
    }
}

fn sample() -> SkillPopup {
    SkillPopup::new(vec![
        meta("deploy", "Deploy the app"),
        meta("review", "Review a pull request"),
        meta("db-migrate", "Run database migrations"),
    ])
}

#[test]
fn empty_query_lists_all() {
    let mut popup = sample();
    popup.set_query("");
    assert_eq!(popup.filtered.len(), 3);
    assert_eq!(popup.selected_name(), Some("deploy"));
}

#[test]
fn prefix_match_ranks_before_substring() {
    let mut popup = sample();
    // "de" prefixes "deploy"; substring-matches "db-migrate"? no. But
    // description of nothing contains "de"... "deploy" prefix wins first slot.
    popup.set_query("re");
    assert_eq!(popup.selected_name(), Some("review"));

    popup.set_query("migrate");
    assert_eq!(popup.selected_name(), Some("db-migrate"));
}

#[test]
fn description_match_included_last() {
    let mut popup = sample();
    popup.set_query("pull");
    assert_eq!(popup.filtered.len(), 1);
    assert_eq!(popup.selected_name(), Some("review"));
}

#[test]
fn no_match_is_empty() {
    let mut popup = sample();
    popup.set_query("zzz");
    assert!(popup.is_empty());
    assert!(popup.selected_name().is_none());
}

#[test]
fn navigation_clamps_to_bounds() {
    let mut popup = sample();
    popup.move_up();
    assert_eq!(popup.selected_name(), Some("deploy"));
    popup.move_down();
    popup.move_down();
    popup.move_down();
    popup.move_down();
    // db-migrate sorts after deploy? filtered keeps skill order for equal
    // ranks: deploy, review, db-migrate (input order).
    assert_eq!(popup.selected_name(), Some("db-migrate"));
}

#[test]
fn narrowing_query_clamps_selection() {
    let mut popup = sample();
    popup.move_down();
    popup.move_down();
    popup.set_query("deploy");
    assert_eq!(popup.selected_name(), Some("deploy"));
}

fn drawn(popup: &SkillPopup, height: u16) -> Vec<String> {
    let area = Rect { x: 0, y: 0, width: 40, height };
    match &popup.render(area)[0] {
        DrawOp::Lines { lines, .. } => lines
            .iter()
            .map(|line| line.spans.iter().map(|span| span.content.as_str()).collect())
            .collect(),
        DrawOp::Cursor { .. } => panic!("expected lines"),
    }
}

#[test]
fn selected_skill_is_on_screen() {
    let mut popup = sample();
    popup.set_query("");
    let rows = drawn(&popup, 2);
    assert_eq!(rows.len(), 2);
    assert!(rows[0].contains("/deploy"), "{rows:?}");
    popup.move_down();
    popup.move_down();
    let rows = drawn(&popup, 2);
    assert!(rows[1].contains("/db-migrate"), "{rows:?}");
    assert_eq!(popup.desired_height(), 3);
}

#[test]
fn queries_ignore_case() {
    let mut popup = sample();
    popup.set_query("DEPLOY");
    assert_eq!(popup.selected_name(), Some("deploy"));
    popup.set_query("Pull Request");
    assert_eq!(popup.selected_name(), Some("review"));
}
