use lexwisp::staging::{StagingTally, MAX_FILE_COUNT};

#[test]
fn entries_are_counted_and_sized() {
    let mut tally = StagingTally::new();
    assert_eq!(tally.stage_entry("manifest.toml", false, 100), Ok(()));
    assert_eq!(tally.stage_entry("prompts", true, 0), Ok(()));
    assert_eq!(tally.stage_entry("prompts/prompt.md", false, 20), Ok(()));
    assert_eq!(tally.count(), 3);
    assert_eq!(tally.total(), 120);
}

#[test]
fn paths_that_differ_only_in_case_collide() {
    let mut tally = StagingTally::new();
    tally.stage_entry("Prompt.md", false, 1).expect("first");
    assert_eq!(
        tally.stage_entry("prompt.MD", false, 1),
        Err("plugin contains a case-insensitive path collision at 'prompt.MD'".to_string())
    );
    assert_eq!(tally.count(), 1);
}

#[test]
fn unsafe_paths_are_refused() {
    let mut tally = StagingTally::new();
    assert_eq!(tally.stage_entry("../manifest.toml", false, 1), Err("unsafe plugin path '../manifest.toml'".to_string()));
    assert_eq!(tally.stage_entry("CON/file", false, 1), Err("unsafe Windows plugin path 'CON/file'".to_string()));
    assert_eq!(tally.count(), 0);
}

#[test]
fn the_entry_count_is_bounded() {
    let mut tally = StagingTally::new();
    for i in 0..MAX_FILE_COUNT {
        tally.stage_entry(&format!("d{i}"), true, 0).expect("within the limit");
    }
    assert_eq!(tally.stage_entry("one-more", true, 0), Err("plugin contains more than 256 entries".to_string()));
}

#[test]
fn sizes_are_bounded_in_all_and_per_file() {
    let mut tally = StagingTally::new();
    assert_eq!(
        tally.stage_entry("manifest.toml", false, 262145),
        Err("plugin file 'manifest.toml' exceeds its size limit".to_string())
    );
    tally.stage_entry("a.bin", false, 30 * 1024 * 1024).expect("within 32 MiB");
    assert_eq!(
        tally.stage_entry("b.bin", false, 3 * 1024 * 1024),
        Err("plugin exceeds the 32 MiB extracted limit".to_string())
    );
    assert_eq!(tally.stage_entry("c.bin", false, u64::MAX), Err("plugin size overflow".to_string()));
}
