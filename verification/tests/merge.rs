use embucket::merge::{merge_commit, unique_files_and_manifests, unique_values, BatchDecision, MergeCOWFilterStream, MergeCommit, MergeError};
use std::collections::{HashMap, HashSet};

fn strings(v: &[&str]) -> Vec<Option<String>> {
    v.iter().map(|s| Some(s.to_string())).collect()
}

#[test]
fn test_unique_values_with_duplicates() {
    let array = strings(&["a", "a", "b", "b", "c"]);
    let result: HashSet<String> = unique_values(&array).unwrap().into_iter().collect();
    let expected: HashSet<String> = ["a", "b", "c"].iter().map(|&s| s.to_string()).collect();
    assert_eq!(result, expected);
}

#[test]
fn test_unique_values_all_same() {
    let array = strings(&["same", "same", "same"]);
    let result: HashSet<String> = unique_values(&array).unwrap().into_iter().collect();
    let expected: HashSet<String> = std::iter::once(&"same").map(std::string::ToString::to_string).collect();
    assert_eq!(result, expected);
}

#[test]
fn test_unique_values_with_nulls() {
    let array = vec![Some("a".to_string()), None, Some("b".to_string()), None, Some("a".to_string())];
    let result: HashSet<String> = unique_values(&array).unwrap().into_iter().collect();
    let expected: HashSet<String> = ["a", "b"].iter().map(|&s| s.to_string()).collect();
    assert_eq!(result, expected);
}

#[test]
fn unique_values_of_empty_and_single_arrays() {
    assert!(unique_values(&vec![]).unwrap().is_empty());
    assert_eq!(unique_values(&vec![None]).unwrap(), vec![String::new()]);
    assert_eq!(unique_values(&strings(&["x"])).unwrap(), vec!["x".to_string()]);
}

#[test]
fn test_unique_files_and_manifests_with_duplicates() {
    let files = strings(&["file1", "file2", "file3", "file4", "file5"]);
    let manifests = strings(&["manifest1", "manifest1", "manifest2", "manifest2", "manifest3"]);
    let result: HashMap<String, String> = unique_files_and_manifests(&files, &manifests).unwrap().into_iter().collect();
    let expected = HashMap::from_iter([
        ("file1".to_string(), "manifest1".to_string()),
        ("file2".to_string(), "manifest1".to_string()),
        ("file3".to_string(), "manifest2".to_string()),
        ("file4".to_string(), "manifest2".to_string()),
        ("file5".to_string(), "manifest3".to_string()),
    ]);
    assert_eq!(result, expected);
}

fn kept_rows(decision: &BatchDecision, rows: usize) -> usize {
    match decision {
        BatchDecision::PassThrough => rows,
        BatchDecision::Keep(mask) => mask.iter().filter(|k| **k).count(),
        BatchDecision::Skip => 0,
    }
}

#[test]
fn test_source_exist_filter_stream() {
    let mut filter_stream = MergeCOWFilterStream::new();
    let batches: Vec<(Vec<bool>, Vec<&str>, Vec<&str>)> = vec![
        (vec![false, false, true, false], vec!["file1", "file1", "file2", "file2"], vec!["manifest1"; 4]),
        (
            vec![false, true, false, true],
            vec!["file2", "file3", "file3", "file3"],
            vec!["manifest1", "manifest2", "manifest2", "manifest2"],
        ),
        (vec![true, true, false], vec!["file4", "file4", "file4"], vec!["manifest3"; 3]),
    ];
    let mut total_rows = 0;
    for (exists, files, manifests) in batches.into_iter() {
        let exists: Vec<Option<bool>> = exists.into_iter().map(Some).collect();
        let rows = files.len();
        let decision = filter_stream
            .on_batch(&exists, &strings(&files), &strings(&manifests))
            .unwrap();
        total_rows += kept_rows(&decision, rows);
        while let Some((_, mask)) = filter_stream.next_ready() {
            total_rows += mask.iter().filter(|k| **k).count();
        }
    }
    assert!(total_rows == 9);
}

#[test]
fn filter_stream_groups_matched_files_by_manifest() {
    let mut s = MergeCOWFilterStream::new();
    let exists = vec![Some(true), Some(false), Some(true)];
    let files = strings(&["f1", "f2", "f3"]);
    let manifests = strings(&["m1", "m1", "m2"]);
    let d = s.on_batch(&exists, &files, &manifests).unwrap();
    assert_eq!(d, BatchDecision::Keep(vec![true, false, true]));
    let mut groups = s.finish();
    groups.sort();
    for g in groups.iter_mut() {
        g.1.sort();
    }
    assert_eq!(groups, vec![("m1".to_string(), vec!["f1".to_string()]), ("m2".to_string(), vec!["f3".to_string()])]);
}

#[test]
fn filter_stream_skips_batches_without_matches() {
    let mut s = MergeCOWFilterStream::new();
    let d = s.on_batch(&vec![Some(false), None], &strings(&["a", "a"]), &strings(&["m", "m"])).unwrap();
    assert_eq!(d, BatchDecision::Skip);
}

#[test]
fn merge_commit_choices() {
    let groups = vec![("m1".to_string(), vec!["f1".to_string()])];
    assert!(matches!(merge_commit(true, None), Err(MergeError::MatchingFilesAlreadyConsumed)));
    assert!(matches!(merge_commit(false, Some(groups.clone())), Ok(MergeCommit::Nothing)));
    assert!(matches!(merge_commit(true, Some(vec![])), Ok(MergeCommit::Append)));
    match merge_commit(true, Some(groups.clone())) {
        Ok(MergeCommit::Overwrite(g)) => assert_eq!(g, groups),
        other => panic!("expected an overwrite, got {other:?}"),
    }
}

#[test]
fn held_rows_are_released_when_their_file_matches() {
    // Batch 0 holds one row of fX (value 1) before fX has matched; batch 1 matches fX
    // (value 2). Both rows come out: batch 1's directly, batch 0's once released.
    let mut s = MergeCOWFilterStream::new();
    let values: Vec<Vec<i32>> = vec![vec![1], vec![2]];
    let mut emitted: Vec<i32> = Vec::new();
    let d0 = s.on_batch(&vec![Some(false)], &strings(&["fX"]), &strings(&["m1"])).unwrap();
    assert_eq!(d0, BatchDecision::Skip);
    assert!(s.next_ready().is_none());
    let d1 = s.on_batch(&vec![Some(true)], &strings(&["fX"]), &strings(&["m1"])).unwrap();
    assert_eq!(d1, BatchDecision::Keep(vec![true]));
    if let BatchDecision::Keep(mask) = &d1 {
        for (v, k) in values[1].iter().zip(mask) {
            if *k {
                emitted.push(*v);
            }
        }
    }
    while let Some((id, mask)) = s.next_ready() {
        for (v, k) in values[id as usize].iter().zip(mask.iter()) {
            if *k {
                emitted.push(*v);
            }
        }
    }
    emitted.sort();
    assert_eq!(emitted, vec![1, 2]);
    assert!(s.not_matching_files.is_empty());
    assert_eq!(s.finish(), vec![("m1".to_string(), vec!["fX".to_string()])]);
}

#[test]
fn released_batches_keep_only_the_matched_files_rows() {
    let mut s = MergeCOWFilterStream::new();
    // Batch 0: fA matches, fB waits; batch 1: fB matches.
    let d0 = s.on_batch(&vec![Some(true), Some(false)], &strings(&["fA", "fB"]), &strings(&["m", "m"])).unwrap();
    assert_eq!(d0, BatchDecision::Keep(vec![true, false]));
    assert!(s.next_ready().is_none());
    let d1 = s.on_batch(&vec![Some(true)], &strings(&["fB"]), &strings(&["m"])).unwrap();
    assert_eq!(d1, BatchDecision::Keep(vec![true]));
    assert_eq!(s.next_ready(), Some((0, vec![false, true])));
    assert_eq!(s.next_ready(), None);
}

#[test]
fn whole_stream_emits_exactly_the_rows_of_matched_files() {
    // (source_exists, file, value) per row, batch by batch; fA and fB match late, fZ never.
    let batches: Vec<Vec<(bool, &str, i32)>> = vec![
        vec![(false, "fA", 1), (false, "fB", 2), (false, "fA", 3)],
        vec![(true, "fA", 4), (false, "fB", 5)],
        vec![(false, "fZ", 6), (true, "fB", 7)],
        vec![(false, "fA", 8), (false, "fZ", 9)],
    ];
    let mut s = MergeCOWFilterStream::new();
    let mut emitted: Vec<i32> = Vec::new();
    for batch in &batches {
        let exists: Vec<Option<bool>> = batch.iter().map(|r| Some(r.0)).collect();
        let files = strings(&batch.iter().map(|r| r.1).collect::<Vec<_>>());
        let manifests = strings(&vec!["m"; batch.len()]);
        match s.on_batch(&exists, &files, &manifests).unwrap() {
            BatchDecision::PassThrough => emitted.extend(batch.iter().map(|r| r.2)),
            BatchDecision::Keep(mask) => {
                emitted.extend(batch.iter().zip(mask).filter(|(_, k)| *k).map(|(r, _)| r.2))
            }
            BatchDecision::Skip => {}
        }
        while let Some((id, mask)) = s.next_ready() {
            emitted.extend(batches[id as usize].iter().zip(mask).filter(|(_, k)| *k).map(|(r, _)| r.2));
        }
    }
    emitted.sort();
    assert_eq!(emitted, vec![1, 2, 3, 4, 5, 7, 8]);
    let mut groups = s.finish();
    for g in groups.iter_mut() {
        g.1.sort();
    }
    assert_eq!(groups, vec![("m".to_string(), vec!["fA".to_string(), "fB".to_string()])]);
}
