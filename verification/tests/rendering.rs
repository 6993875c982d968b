use dooit_tasks::Task;
use dooit_tasks::Urgency;

#[test]
fn display_shows_date_name_and_checkbox() {
    let jan_first: i64 = 1704067200;
    let t = Task::new("groceries").with_due_date(jan_first);
    assert_eq!(t.display_string(), "- [ ]   2024-01-01 00:00:00 UTC groceries");
}

#[test]
fn display_marks_completed_tasks() {
    let t = Task::new("done").complete();
    assert_eq!(t.display_string(), "- [x]   done");
}

#[test]
fn display_indents_the_description() {
    let t = Task::new("call")
        .with_ugency(Urgency::High)
        .with_description(String::from("ask about the quote"));
    assert_eq!(t.display_string(), format!("- [ ] \u{ea6c} call\n    ask about the quote"));
}

#[test]
fn render_line_uses_the_given_due_text() {
    let t = Task::new("pay rent");
    assert_eq!(t.render_line(Some("tomorrow")), "- [ ]   tomorrow pay rent");
    assert_eq!(t.render_line(None), "- [ ]   pay rent");
}

#[test]
fn glyph_matches_urgency() {
    assert_eq!(Task::new("a").glyph(), " ");
    assert_eq!(Task::new("a").with_ugency(Urgency::Medium).glyph(), "\u{ea74}");
    assert_eq!(Task::new("a").with_ugency(Urgency::High).glyph(), "\u{ea6c}");
}

#[test]
fn display_includes_the_due_text_exactly_within_chrono_range() {
    let max_secs: i64 = 8210266876799;
    let min_secs: i64 = -8334601228800;
    let base = "- [ ]   far";
    let dated = Task::new("far").with_due_date(max_secs);
    assert_ne!(dated.display_string(), base);
    assert!(dated.display_string().contains("262142"));
    let dated = Task::new("far").with_due_date(min_secs);
    assert_ne!(dated.display_string(), base);
    assert!(dated.display_string().contains("262143"));
    let too_late = Task::new("far").with_due_date(max_secs + 1);
    assert_eq!(too_late.display_string(), base);
    let too_early = Task::new("far").with_due_date(min_secs - 1);
    assert_eq!(too_early.display_string(), base);
}
