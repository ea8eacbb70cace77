use esmail::profile::{
    inclusive_counts, ranked, samples_in, self_counts, short_name, Row, Sample,
};

fn sample(phase: u32, stack: &[&str]) -> Sample {
    Sample { phase, stack: stack.iter().map(|s| s.to_string()).collect() }
}

fn samples() -> Vec<Sample> {
    vec![
        sample(1, &["leaf", "mid", "main"]),
        sample(1, &["leaf", "leaf", "main"]),
        sample(1, &["mid", "main"]),
        sample(2, &["other"]),
        sample(1, &[]),
    ]
}

fn pairs(rows: Vec<Row>) -> Vec<(String, usize)> {
    let mut out: Vec<(String, usize)> = rows.into_iter().map(|r| (r.name, r.count)).collect();
    out.sort();
    out
}

#[test]
fn samples_are_counted_by_phase() {
    assert_eq!((samples_in(&samples(), 1), samples_in(&samples(), 2), samples_in(&samples(), 3)), (4, 1, 0));
}

#[test]
fn the_top_of_the_stack_is_self_time() {
    assert_eq!(
        pairs(self_counts(&samples(), 1)),
        vec![("leaf".to_string(), 2), ("mid".to_string(), 1)]
    );
}

#[test]
fn a_function_counts_once_in_a_stack() {
    assert_eq!(
        pairs(inclusive_counts(&samples(), 1)),
        vec![("leaf".to_string(), 2), ("main".to_string(), 3), ("mid".to_string(), 2)]
    );
    assert!(inclusive_counts(&samples(), 7).is_empty());
}

#[test]
fn rows_are_ranked_by_count() {
    let rows = ranked(inclusive_counts(&samples(), 1));
    assert_eq!((rows[0].name.as_str(), rows[0].count), ("main", 3));
    assert_eq!((rows[1].count, rows[2].count), (2, 2));
}

#[test]
fn long_names_are_cut() {
    assert_eq!(short_name("short"), "short");
    assert_eq!(short_name(&"\u{e9}".repeat(111)), "\u{e9}".repeat(110));
}
