use wordcount::{resolve_inputs, run, Entry, FileInfo, Report, Selection, Source, Tally};

fn record(lines: usize, words: usize, chars: usize) -> FileInfo {
    FileInfo { lines, words, chars }
}

fn counted(name: &str, info: FileInfo) -> Entry {
    Entry { name: name.to_string(), outcome: Ok(info) }
}

fn failed(name: &str, reason: &str) -> Entry {
    Entry { name: name.to_string(), outcome: Err(reason.to_string()) }
}

fn all() -> Selection {
    Selection { lines: true, words: true, chars: true }
}

fn none() -> Selection {
    Selection { lines: false, words: false, chars: false }
}

fn stdout_of(reports: &[Report], sel: Selection) -> Vec<String> {
    reports.iter().filter(|r| !r.is_diagnostic()).map(|r| r.render(sel)).collect()
}

fn stderr_of(reports: &[Report], sel: Selection) -> Vec<String> {
    reports.iter().filter(|r| r.is_diagnostic()).map(|r| r.render(sel)).collect()
}

#[test]
fn no_flags_means_all_flags() {
    assert_eq!(none().normalized(), all());
    assert_eq!(all().normalized(), all());
}

#[test]
fn some_flags_stay_as_given() {
    let only_words = Selection { lines: false, words: true, chars: false };
    assert_eq!(only_words.normalized(), only_words);
    let no_words = Selection { lines: true, words: false, chars: true };
    assert_eq!(no_words.normalized(), no_words);
}

#[test]
fn default_flags_give_the_output_of_all_flags() {
    let entries = vec![
        counted("a.txt", record(2, 3, 16)),
        failed("b.txt", "No such file or directory (os error 2)"),
        counted("-", record(1, 1, 3)),
    ];
    let reports = run(&entries);
    let with_none: Vec<String> = reports.iter().map(|r| r.render(none().normalized())).collect();
    let with_all: Vec<String> = reports.iter().map(|r| r.render(all().normalized())).collect();
    assert_eq!(with_none, with_all);
    assert_eq!(with_none[0], "       2       3      16 a.txt");
}

#[test]
fn dash_names_the_standard_input() {
    assert_eq!(Source::of("-"), Source::Stdin);
    assert_eq!(Source::of("--"), Source::File);
    assert_eq!(Source::of(""), Source::File);
    assert_eq!(Source::of("a"), Source::File);
    assert_eq!(Source::of("-a"), Source::File);
    assert_eq!(Source::of("./-"), Source::File);
    assert_eq!(Source::of("\u{2212}"), Source::File);
}

#[test]
fn no_names_mean_the_standard_input_alone() {
    assert_eq!(resolve_inputs(Vec::new()), vec!["-".to_string()]);
}

#[test]
fn names_stay_in_their_order() {
    let names = vec!["b".to_string(), "-".to_string(), "a".to_string(), "b".to_string()];
    assert_eq!(resolve_inputs(names.clone()), names);
}

#[test]
fn one_input_has_no_total_line() {
    let reports = run(&vec![counted("only.txt", record(2, 3, 16))]);
    assert_eq!(reports.len(), 1);
    assert!(matches!(reports[0], Report::Counted { .. }));
    assert_eq!(stdout_of(&reports, all()), vec!["       2       3      16 only.txt".to_string()]);
    assert!(stderr_of(&reports, all()).is_empty());
}

#[test]
fn no_input_has_no_line_at_all() {
    assert!(run(&Vec::new()).is_empty());
}

#[test]
fn two_inputs_end_with_one_total_line() {
    let reports = run(&vec![counted("a", record(2, 3, 16)), counted("b", record(1, 1, 3))]);
    assert_eq!(reports.len(), 3);
    let totals = reports.iter().filter(|r| matches!(r, Report::Total { .. })).count();
    assert_eq!(totals, 1);
    match &reports[2] {
        Report::Total { info } => assert_eq!(*info, record(3, 4, 19)),
        _ => panic!("the last line is not the total"),
    }
    assert_eq!(
        stdout_of(&reports, all()),
        vec![
            "       2       3      16 a".to_string(),
            "       1       1       3 b".to_string(),
            "       3       4      19 total".to_string(),
        ]
    );
}

#[test]
fn a_file_named_total_is_still_a_counted_line() {
    let reports = run(&vec![counted("total", record(1, 1, 2)), counted("x", record(0, 0, 0))]);
    assert!(matches!(reports[0], Report::Counted { .. }));
    assert!(matches!(reports[2], Report::Total { .. }));
    assert_eq!(reports[0].render(all()), "       1       1       2 total");
    assert_eq!(reports[2].render(all()), "       1       1       2 total");
}

#[test]
fn failed_input_is_reported_and_adds_nothing() {
    let reports = run(&vec![
        counted("valid.txt", record(2, 3, 16)),
        failed("missing.txt", "No such file or directory (os error 2)"),
    ]);
    assert_eq!(reports.len(), 3);
    assert_eq!(
        stdout_of(&reports, all()),
        vec!["       2       3      16 valid.txt".to_string(), "       2       3      16 total".to_string()]
    );
    assert_eq!(
        stderr_of(&reports, all()),
        vec!["missing.txt: No such file or directory (os error 2)".to_string()]
    );
    assert!(reports[1].is_diagnostic());
    assert!(!reports[0].is_diagnostic());
    assert!(!reports[2].is_diagnostic());
}

#[test]
fn total_is_printed_even_if_every_input_failed() {
    let reports = run(&vec![failed("x", "gone"), failed("y", "denied")]);
    assert_eq!(stderr_of(&reports, all()), vec!["x: gone".to_string(), "y: denied".to_string()]);
    assert_eq!(stdout_of(&reports, all()), vec!["       0       0       0 total".to_string()]);
}

#[test]
fn a_single_failed_input_gives_one_diagnostic_only() {
    let reports = run(&vec![failed("x", "Is a directory (os error 21)")]);
    assert_eq!(reports.len(), 1);
    assert_eq!(reports[0].render(all()), "x: Is a directory (os error 21)");
}

#[test]
fn lines_keep_the_order_of_the_inputs() {
    let reports = run(&vec![
        failed("first", "gone"),
        counted("second", record(1, 2, 3)),
        failed("third", "gone"),
        counted("fourth", record(4, 5, 6)),
    ]);
    let texts: Vec<String> = reports.iter().map(|r| r.render(all())).collect();
    assert_eq!(
        texts,
        vec![
            "first: gone".to_string(),
            "       1       2       3 second".to_string(),
            "third: gone".to_string(),
            "       4       5       6 fourth".to_string(),
            "       5       7       9 total".to_string(),
        ]
    );
}

#[test]
fn selection_picks_the_columns_of_every_line() {
    let reports = run(&vec![counted("a", record(2, 3, 16)), counted("b", record(1, 1, 3))]);
    let only_words = Selection { lines: false, words: true, chars: false };
    assert_eq!(
        stdout_of(&reports, only_words),
        vec!["       3 a".to_string(), "       1 b".to_string(), "       4 total".to_string()]
    );
    let no_words = Selection { lines: true, words: false, chars: true };
    assert_eq!(reports[2].render(no_words), "       3      19 total");
}

#[test]
fn tally_steps_give_what_run_gives() {
    let entries = vec![
        counted("a", record(2, 3, 16)),
        failed("b", "gone"),
        counted("-", record(5, 6, 7)),
    ];
    let mut tally = Tally::new(entries.len());
    let mut lines: Vec<String> = Vec::new();
    for e in entries.iter() {
        assert!(tally.can_record(&e.outcome));
        lines.push(tally.record(e.clone()).render(all()));
    }
    assert_eq!(tally.total, record(7, 9, 23));
    if let Some(last) = tally.finish() {
        lines.push(last.render(all()));
    }
    let batch: Vec<String> = run(&entries).iter().map(|r| r.render(all())).collect();
    assert_eq!(lines, batch);
    assert_eq!(lines[3], "       7       9      23 total");
}

#[test]
fn tally_for_one_input_has_no_closing_line() {
    let mut tally = Tally::new(1);
    tally.record(counted("a", record(1, 1, 1)));
    assert!(tally.finish().is_none());
    assert!(Tally::new(0).finish().is_none());
    assert!(Tally::new(2).finish().is_some());
}

#[test]
fn can_record_refuses_a_sum_out_of_range() {
    let mut tally = Tally::new(2);
    tally.record(counted("a", record(usize::MAX, 0, 0)));
    assert!(!tally.can_record(&Ok(record(1, 0, 0))));
    assert!(tally.can_record(&Ok(record(0, 1, 1))));
    assert!(tally.can_record(&Err("gone".to_string())));
}

#[test]
fn scanned_text_flows_through_to_the_output_line() {
    let info = FileInfo::from_text("hello world\nfoo\n");
    let reports = run(&vec![counted("greeting.txt", info)]);
    assert_eq!(reports[0].render(none().normalized()), "       2       3      16 greeting.txt");
}
