use patch_export::batching::{collect_rounds, Action, BatchError, Collector, Step};
use patch_export::model::{Patch, Record, VariantTask};
use patch_export::producer::{forward, lookback_cutoff, produce, PatchSummary, NANOS_PER_WEEK};
use patch_export::transform::{excluded, join_tasks, process_patches};

fn variant(name: &str, tasks: &[&str]) -> Option<VariantTask> {
    Some(VariantTask {
        name: name.to_string(),
        tasks: tasks.iter().map(|t| t.to_string()).collect(),
    })
}

fn patch(id: &str, alias: Option<&str>, variants: Vec<Option<VariantTask>>) -> Patch {
    Patch {
        id: id.to_string(),
        description: format!("change {}", id),
        author: format!("author-{}", id),
        alias: alias.map(|a| a.to_string()),
        variants_tasks: variants,
    }
}

fn summary(id: &str, created_at: i64) -> PatchSummary {
    PatchSummary {
        id: id.to_string(),
        author: "someone".to_string(),
        created_at,
        description: String::new(),
    }
}

fn row(r: &Record) -> (String, String, String, String, String, usize) {
    (
        r.id.clone(),
        r.author.clone(),
        r.alias.clone(),
        r.build_variant.clone(),
        r.tasks.clone(),
        r.n_tasks,
    )
}

fn ids(batch: &[String]) -> Vec<&str> {
    batch.iter().map(|s| s.as_str()).collect()
}

#[test]
fn merge_queue_patch_is_left_out_and_other_patch_flattened() {
    let outcomes = vec![
        Ok(patch(
            "a",
            Some("__commit_queue"),
            vec![variant("linux", &["t1"]), variant("windows", &["t2"])],
        )),
        Ok(patch(
            "b",
            Some(""),
            vec![variant("linux", &["t1", "t2"]), variant("windows", &["t3"])],
        )),
    ];
    let records = process_patches(&outcomes);
    let rows: Vec<_> = records.iter().map(row).collect();
    assert_eq!(
        rows,
        vec![
            (
                "b".to_string(),
                "author-b".to_string(),
                "".to_string(),
                "linux".to_string(),
                "t1|t2".to_string(),
                2
            ),
            (
                "b".to_string(),
                "author-b".to_string(),
                "".to_string(),
                "windows".to_string(),
                "t3".to_string(),
                1
            ),
        ]
    );
}

#[test]
fn end_to_end_three_patches_in_window() {
    let now: i64 = 1_700_000_000_000_000_000;
    let cutoff = lookback_cutoff(now, 1).unwrap();
    let listing = vec![
        summary("a", now - 10),
        summary("b", now - 1_000),
        summary("c", cutoff),
        summary("d", cutoff - 1),
    ];
    let msgs = produce(&listing, cutoff);
    let rounds = collect_rounds(&msgs, 2).unwrap();
    assert_eq!(rounds.len(), 2);
    assert_eq!(ids(&rounds[0]), vec!["a", "b"]);
    assert_eq!(ids(&rounds[1]), vec!["c"]);

    let mut records: Vec<Record> = Vec::new();
    for round in &rounds {
        let outcomes: Vec<Result<Patch, String>> = round
            .iter()
            .map(|id| Ok(patch(id, None, vec![variant("linux", &["compile"]), variant("macos", &[])])))
            .collect();
        records.append(&mut process_patches(&outcomes));
    }
    let seen: Vec<(&str, &str)> = records
        .iter()
        .map(|r| (r.id.as_str(), r.build_variant.as_str()))
        .collect();
    assert_eq!(
        seen,
        vec![
            ("a", "linux"),
            ("a", "macos"),
            ("b", "linux"),
            ("b", "macos"),
            ("c", "linux"),
            ("c", "macos"),
        ]
    );
    assert!(records.iter().all(|r| r.id != "d"));
    assert_eq!(records[1].tasks, "");
    assert_eq!(records[1].n_tasks, 0);
}

#[test]
fn producer_stops_at_first_old_patch() {
    let listing = vec![summary("x", 50), summary("y", 9), summary("z", 40)];
    let msgs = produce(&listing, 10);
    assert_eq!(msgs.len(), 2);
    assert!(matches!(&msgs[0], Action::Patch(id) if id == "x"));
    assert!(matches!(msgs[1], Action::End));
}

#[test]
fn producer_ends_when_listing_runs_out() {
    let listing = vec![summary("x", 50), summary("y", 20)];
    let msgs = produce(&listing, 10);
    assert_eq!(msgs.len(), 3);
    assert!(matches!(&msgs[1], Action::Patch(id) if id == "y"));
    assert!(matches!(msgs[2], Action::End));
    assert!(matches!(produce(&Vec::new(), 0)[..], [Action::End]));
}

#[test]
fn forward_keeps_patch_at_cutoff() {
    assert!(matches!(forward(&summary("k", 7), 7), Action::Patch(id) if id == "k"));
    assert!(matches!(forward(&summary("k", 6), 7), Action::End));
}

#[test]
fn cutoff_is_weeks_before_now() {
    assert_eq!(lookback_cutoff(0, 1), Some(-NANOS_PER_WEEK));
    assert_eq!(lookback_cutoff(NANOS_PER_WEEK * 3, 2), Some(NANOS_PER_WEEK));
    assert_eq!(lookback_cutoff(5, 0), Some(5));
    assert_eq!(lookback_cutoff(i64::MIN, 1), None);
    assert_eq!(lookback_cutoff(0, i64::MAX), None);
}

#[test]
fn round_count_is_ceiling_of_ids_over_batch_size() {
    for total in 0..12usize {
        for b in 1..6usize {
            let mut msgs: Vec<Action> = (0..total).map(|i| Action::Patch(i.to_string())).collect();
            msgs.push(Action::End);
            let rounds = collect_rounds(&msgs, b).unwrap();
            assert_eq!(rounds.len(), (total + b - 1) / b);
            if let Some(last) = rounds.last() {
                assert!(1 <= last.len() && last.len() <= b);
            }
            let flat: Vec<String> = rounds.concat();
            let expected: Vec<String> = (0..total).map(|i| i.to_string()).collect();
            assert_eq!(flat, expected);
        }
    }
}

#[test]
fn exact_multiple_has_no_short_round() {
    let mut msgs: Vec<Action> = (0..4).map(|i| Action::Patch(i.to_string())).collect();
    msgs.push(Action::End);
    let rounds = collect_rounds(&msgs, 2).unwrap();
    assert_eq!(rounds.len(), 2);
    assert_eq!(rounds[1].len(), 2);
}

#[test]
fn messages_after_end_are_ignored() {
    let msgs = vec![
        Action::Patch("a".to_string()),
        Action::End,
        Action::Patch("late".to_string()),
    ];
    let rounds = collect_rounds(&msgs, 5).unwrap();
    assert_eq!(rounds.len(), 1);
    assert_eq!(ids(&rounds[0]), vec!["a"]);
}

#[test]
fn zero_batch_size_is_refused() {
    assert!(matches!(Collector::new(0), Err(BatchError::ZeroBatchSize)));
    let msgs = vec![Action::End];
    assert!(matches!(collect_rounds(&msgs, 0), Err(BatchError::ZeroBatchSize)));
}

#[test]
fn missing_end_is_refused() {
    let msgs = vec![Action::Patch("a".to_string())];
    assert!(matches!(collect_rounds(&msgs, 1), Err(BatchError::MissingEnd)));
    assert!(matches!(collect_rounds(&Vec::new(), 3), Err(BatchError::MissingEnd)));
}

#[test]
fn collector_steps_through_full_and_short_batches() {
    let mut c = Collector::new(2).ok().unwrap();
    assert!(matches!(c.step(&Action::Patch("a".to_string())), Step::Wait));
    match c.step(&Action::Patch("b".to_string())) {
        Step::Resolve(batch) => assert_eq!(ids(&batch), vec!["a", "b"]),
        _ => panic!("expected a full batch"),
    }
    assert!(matches!(c.step(&Action::Patch("c".to_string())), Step::Wait));
    match c.step(&Action::End) {
        Step::Finish(Some(batch)) => assert_eq!(ids(&batch), vec!["c"]),
        _ => panic!("expected the short batch"),
    }
    assert!(c.finished);
    assert!(matches!(c.step(&Action::Patch("d".to_string())), Step::Finish(None)));
    assert!(c.pending.is_empty());
}

#[test]
fn end_with_nothing_pending_finishes_without_round() {
    let mut c = Collector::new(3).ok().unwrap();
    assert!(matches!(c.step(&Action::End), Step::Finish(None)));
}

#[test]
fn merge_queue_patch_yields_no_rows_whatever_its_variants() {
    for n in 0..4 {
        let vs = (0..n).map(|i| variant(&format!("v{}", i), &["t"])).collect();
        let outcomes = vec![Ok(patch("q", Some("__commit_queue"), vs))];
        assert!(process_patches(&outcomes).is_empty());
    }
}

#[test]
fn one_row_per_build_variant() {
    let p = patch(
        "p",
        Some("manual"),
        vec![variant("a", &["1"]), None, variant("b", &["2", "3", "4"]), variant("c", &[])],
    );
    let records = process_patches(&[Ok(p)]);
    assert_eq!(records.len(), 3);
    assert_eq!(records[0].alias, "manual");
    assert_eq!(records[1].build_variant, "b");
    assert_eq!(records[1].tasks, "2|3|4");
    assert_eq!(records[1].n_tasks, 3);
    let p2 = patch("p2", None, vec![variant("a", &["1"]), variant("b", &["2"])]);
    assert_eq!(process_patches(&[Ok(p2)]).len(), 2);
}

#[test]
fn failed_lookup_leaves_the_rest_of_the_batch() {
    let outcomes: Vec<Result<Patch, String>> = vec![
        Ok(patch("a", None, vec![variant("linux", &["t"])])),
        Err("lookup failed".to_string()),
        Ok(patch("c", None, vec![variant("linux", &["t"])])),
        Ok(patch("d", None, vec![variant("linux", &["t"])])),
    ];
    let records = process_patches(&outcomes);
    let got: Vec<&str> = records.iter().map(|r| r.id.as_str()).collect();
    assert_eq!(got, vec!["a", "c", "d"]);
}

#[test]
fn transforming_twice_gives_same_rows() {
    let outcomes: Vec<Result<Patch, String>> = vec![
        Ok(patch("a", Some("x"), vec![variant("linux", &["t1", "t2"])])),
        Err("boom".to_string()),
        Ok(patch("b", None, vec![variant("mac", &["t3"]), None])),
    ];
    let first: Vec<_> = process_patches(&outcomes).iter().map(row).collect();
    let second: Vec<_> = process_patches(&outcomes).iter().map(row).collect();
    assert_eq!(first, second);
    assert_eq!(first.len(), 2);
}

#[test]
fn join_and_exclusion_helpers() {
    assert_eq!(join_tasks(&vec![]), "");
    assert_eq!(join_tasks(&vec!["one".to_string()]), "one");
    assert_eq!(join_tasks(&vec!["a".to_string(), "b".to_string(), "c".to_string()]), "a|b|c");
    assert!(excluded(&patch("x", Some("__commit_queue"), vec![])));
    assert!(!excluded(&patch("x", Some("__commit_queue_"), vec![])));
    assert!(!excluded(&patch("x", None, vec![])));
}
