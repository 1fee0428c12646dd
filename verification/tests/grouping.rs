use colored::Color;
use tskmstr::config::Colors;
use tskmstr::output::{
    display_tasks_in_table, group_key_of, group_tasks_by_labels, group_tasks_by_priority_labels,
    issue_has_priority, Line, Tone,
};
use tskmstr::providers::common::model::{Issue, Label};

fn issue(id: &str, tags: &[&str]) -> Issue {
    Issue {
        title: format!("Title of {}", id),
        html_url: format!("https://example.org/{}", id),
        id: id.to_string(),
        tags: tags.iter().map(|t| Label { name: t.to_string() }).collect(),
    }
}

fn labels(items: &[&str]) -> Vec<String> {
    items.iter().map(|s| s.to_string()).collect()
}

fn ids(issues: &Vec<&Issue>) -> Vec<String> {
    issues.iter().map(|i| i.id.clone()).collect()
}

fn texts(lines: &Vec<Line>) -> Vec<String> {
    lines.iter().map(|l| l.text()).collect()
}

const DIVIDER: &str = "----------------------------------------";

#[test]
fn priority_task_is_in_the_bucket_and_in_no_group() {
    let issues = vec![issue("a", &["bug", "urgent"]), issue("b", &["bug"]), issue("c", &[])];
    let priority = labels(&["urgent"]);
    let bucket = group_tasks_by_priority_labels(&issues, &priority);
    assert_eq!(ids(&bucket), vec!["a"]);
    let groups = group_tasks_by_labels(&issues, &priority);
    assert_eq!(groups.len(), 2);
    assert_eq!(groups[0].key, "<no labels>");
    assert_eq!(ids(&groups[0].issues), vec!["c"]);
    assert_eq!(groups[1].key, "bug");
    assert_eq!(ids(&groups[1].issues), vec!["b"]);
    for group in &groups {
        assert!(!ids(&group.issues).contains(&"a".to_string()));
    }
}

#[test]
fn group_key_sorts_the_tags_and_drops_repeats() {
    let priority = labels(&["urgent"]);
    assert_eq!(group_key_of(&issue("x", &["ui", "bug"]), &priority), "bug, ui");
    assert_eq!(group_key_of(&issue("x", &["bug", "ui", "bug"]), &priority), "bug, ui");
    assert_eq!(group_key_of(&issue("x", &["bug"]), &priority), "bug");
    assert_eq!(group_key_of(&issue("x", &[]), &priority), "<no labels>");
    assert_eq!(group_key_of(&issue("x", &["urgent", "bug"]), &priority), "bug");
    assert_eq!(group_key_of(&issue("x", &["urgent"]), &priority), "<no labels>");
}

#[test]
fn groups_come_by_key_and_keep_the_order_of_their_tasks() {
    let issues = vec![
        issue("1", &["ui"]),
        issue("2", &["api"]),
        issue("3", &["ui"]),
        issue("4", &["bug", "api"]),
        issue("5", &["api", "bug"]),
    ];
    let groups = group_tasks_by_labels(&issues, &labels(&[]));
    let keys: Vec<String> = groups.iter().map(|g| g.key.clone()).collect();
    assert_eq!(keys, vec!["api", "api, bug", "ui"]);
    assert_eq!(ids(&groups[0].issues), vec!["2"]);
    assert_eq!(ids(&groups[1].issues), vec!["4", "5"]);
    assert_eq!(ids(&groups[2].issues), vec!["1", "3"]);
}

#[test]
fn group_named_priority_comes_first() {
    let issues = vec![
        issue("1", &["api"]),
        issue("2", &["priority"]),
        issue("3", &[]),
        issue("4", &["zeta"]),
    ];
    let groups = group_tasks_by_labels(&issues, &labels(&["urgent"]));
    let keys: Vec<String> = groups.iter().map(|g| g.key.clone()).collect();
    assert_eq!(keys, vec!["priority", "<no labels>", "api", "zeta"]);
    assert_eq!(ids(&groups[0].issues), vec!["2"]);
}

#[test]
fn no_task_gives_no_group_and_an_empty_bucket() {
    let issues: Vec<Issue> = Vec::new();
    assert!(group_tasks_by_labels(&issues, &labels(&["urgent"])).is_empty());
    assert!(group_tasks_by_priority_labels(&issues, &labels(&["urgent"])).is_empty());
}

#[test]
fn bucket_keeps_the_order_of_the_tasks() {
    let issues = vec![
        issue("1", &["soon"]),
        issue("2", &["bug"]),
        issue("3", &["urgent", "bug"]),
        issue("4", &["Urgent"]),
    ];
    let bucket = group_tasks_by_priority_labels(&issues, &labels(&["urgent", "soon"]));
    assert_eq!(ids(&bucket), vec!["1", "3"]);
    assert!(issue_has_priority(&issues[0], &labels(&["urgent", "soon"])));
    assert!(!issue_has_priority(&issues[3], &labels(&["urgent", "soon"])));
    assert!(!issue_has_priority(&issues[0], &labels(&[])));
}

#[test]
fn table_shows_the_bucket_and_then_the_groups() {
    let issues = vec![issue("a", &["bug", "urgent"]), issue("b", &["bug"]), issue("c", &[])];
    let lines = display_tasks_in_table(&issues, &labels(&["urgent"]), false);
    assert_eq!(
        texts(&lines),
        vec![
            "Priority: urgent",
            DIVIDER,
            " - a Title of a (bug, urgent)",
            "",
            "Tag: <no labels>",
            DIVIDER,
            " - c Title of c ()",
            "",
            "Tag: bug",
            DIVIDER,
            " - b Title of b (bug)",
            "",
        ]
    );
}

#[test]
fn table_shows_the_address_with_all_details() {
    let issues = vec![issue("gh0/1", &["bug"])];
    let lines = display_tasks_in_table(&issues, &labels(&["urgent", "soon"]), true);
    assert_eq!(
        texts(&lines),
        vec![
            "Priority: soon, urgent",
            DIVIDER,
            "",
            "Tag: bug",
            DIVIDER,
            " - gh0/1 Title of gh0/1 (bug) - https://example.org/gh0/1",
            "",
        ]
    );
}

#[test]
fn table_has_the_priority_section_even_without_tasks() {
    let lines = display_tasks_in_table(&Vec::new(), &labels(&[]), false);
    assert_eq!(texts(&lines), vec!["Priority: ", DIVIDER, ""]);
}

#[test]
fn table_shows_the_group_with_the_empty_key() {
    let issues = vec![issue("1", &[""]), issue("2", &["bug"])];
    let groups = group_tasks_by_labels(&issues, &labels(&[]));
    assert_eq!(groups.len(), 2);
    assert_eq!(groups[0].key, "");
    let lines = display_tasks_in_table(&issues, &labels(&[]), false);
    assert_eq!(
        texts(&lines),
        vec![
            "Priority: ",
            DIVIDER,
            "",
            "Tag: ",
            DIVIDER,
            " - 1 Title of 1 ()",
            "",
            "Tag: bug",
            DIVIDER,
            " - 2 Title of 2 (bug)",
            "",
        ]
    );
}

#[test]
fn table_shows_every_task_once() {
    let issues = vec![
        issue("1", &["urgent", "bug"]),
        issue("2", &[""]),
        issue("3", &[]),
        issue("4", &["priority"]),
        issue("5", &["bug", "api"]),
        issue("6", &["soon"]),
        issue("7", &["api", "bug", "api"]),
    ];
    let lines = display_tasks_in_table(&issues, &labels(&["urgent", "soon"]), false);
    let shown: Vec<String> =
        texts(&lines).into_iter().filter(|line| line.starts_with(" - ")).collect();
    assert_eq!(shown.len(), issues.len());
    for task in &issues {
        let prefix = format!(" - {} ", task.id);
        assert_eq!(shown.iter().filter(|line| line.starts_with(&prefix)).count(), 1);
    }
}

#[test]
fn priority_heading_names_each_label_once() {
    let lines = display_tasks_in_table(&Vec::new(), &labels(&["urgent", "soon", "urgent"]), false);
    assert_eq!(lines[0].text(), "Priority: soon, urgent");
}

#[test]
fn divider_is_forty_dashes() {
    assert_eq!(DIVIDER.len(), 40);
    let lines = display_tasks_in_table(&Vec::new(), &labels(&[]), false);
    assert_eq!(lines[1].text().len(), 40);
}

#[test]
fn line_of_a_task_has_a_tone_for_each_part() {
    let issues = vec![issue("b", &["bug", "ui"])];
    let lines = display_tasks_in_table(&issues, &labels(&[]), true);
    let row = &lines[5];
    let parts: Vec<(String, Tone)> = row.spans.iter().map(|s| (s.text.clone(), s.tone)).collect();
    assert_eq!(
        parts,
        vec![
            (" - ".to_string(), Tone::Plain),
            ("b".to_string(), Tone::IssueId),
            (" ".to_string(), Tone::Plain),
            ("Title of b".to_string(), Tone::Title),
            (" ".to_string(), Tone::Plain),
            ("(bug, ui)".to_string(), Tone::Tags),
            (" - https://example.org/b".to_string(), Tone::Plain),
        ]
    );
    let heading: Vec<(String, Tone)> =
        lines[3].spans.iter().map(|s| (s.text.clone(), s.tone)).collect();
    assert_eq!(heading, vec![("Tag: ".to_string(), Tone::Plain), ("bug, ui".to_string(), Tone::Tags)]);
    assert!(lines[2].spans.is_empty());
}

#[test]
fn colors_give_the_colour_of_each_tone() {
    let colors = Colors {
        issue_id: "magenta".to_string(),
        title: "Blue".to_string(),
        tags: "greenish".to_string(),
    };
    assert_eq!(colors.name_of(Tone::IssueId), Some("magenta"));
    assert_eq!(colors.name_of(Tone::Title), Some("Blue"));
    assert_eq!(colors.name_of(Tone::Tags), Some("greenish"));
    assert_eq!(colors.name_of(Tone::Plain), None);
    assert_eq!(colors.color_of(Tone::IssueId), Some(Color::Magenta));
    assert_eq!(colors.color_of(Tone::Title), Some(Color::Blue));
    assert_eq!(colors.color_of(Tone::Tags), None);
    assert_eq!(colors.color_of(Tone::Plain), None);
}
