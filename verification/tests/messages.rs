use jobsearch::messages::{
    applied_lines, classified_message, deleted_message, notification_script, rating_message,
    tab_line, tab_status, RatingChange, TabStatus,
};

#[test]
fn counts_and_plurals() {
    assert_eq!(deleted_message(1), "Deleted 1 job");
    assert_eq!(deleted_message(0), "Deleted 0 jobs");
    assert_eq!(rating_message(RatingChange::Like, 2), "Liked 2 jobs");
    assert_eq!(rating_message(RatingChange::Dislike, 1), "Disliked 1 job");
    assert_eq!(rating_message(RatingChange::Neutral, 3), "Reset 3 jobs to neutral");
    assert_eq!(classified_message(1, 1, 0), "Classified 1 job: 1 liked, 0 disliked");
}

#[test]
fn applied_with_and_without_note() {
    assert_eq!(applied_lines(7, &None), vec!["Job 7 marked applied"]);
    assert_eq!(applied_lines(7, &Some(String::new())), vec!["Job 7 marked applied"]);
    assert_eq!(
        applied_lines(-3, &Some("Dear team,\r\nhello\n".into())),
        vec!["Job -3 marked applied with note:", "  Dear team,", "  hello"]
    );
}

#[test]
fn tab_status_by_host() {
    let before = vec!["https://www.upwork.com/nx/find-work".to_string()];
    let after = vec![
        "https://www.upwork.com/nx/find-work".to_string(),
        "https://nofluffjobs.com/".to_string(),
    ];
    assert_eq!(tab_status("https://upwork.com/", &before, &after), TabStatus::AlreadyOpen);
    assert_eq!(tab_status("https://nofluffjobs.com/pl", &before, &after), TabStatus::Opened);
    assert_eq!(tab_status("https://www.linkedin.com/", &before, &after), TabStatus::Loading);
    assert_eq!(tab_status("not a url", &before, &after), TabStatus::Loading);
    assert_eq!(
        tab_line("https://upwork.com/", TabStatus::AlreadyOpen),
        "  https://upwork.com/ - already open, skipping"
    );
    assert_eq!(tab_line("u", TabStatus::Loading), "  u - opened (loading...)");
}

#[test]
fn notification_script_quotes_its_texts() {
    assert_eq!(
        notification_script("Jobsearch", "Solve the \"challenge\""),
        "display notification \"Solve the \\\"challenge\\\"\" with title \"Jobsearch\""
    );
}
