use lexwisp::backups::{backups_to_remove, KEPT_BACKUPS};

fn names(list: &[&str]) -> Vec<String> {
    list.iter().map(|s| s.to_string()).collect()
}

#[test]
fn only_the_oldest_backups_beyond_the_kept_ones_are_removed() {
    let listing = names(&[
        "lexwisp-3.db",
        "notes.txt",
        "lexwisp-1.db",
        "lexwisp-2.db",
        "other-1.db",
        "lexwisp-5.db",
        "lexwisp-4.db",
        "lexwisp-6.db",
        "lexwisp-7.db.tmp",
    ]);
    assert_eq!(backups_to_remove(listing.clone(), KEPT_BACKUPS), ["lexwisp-1.db"]);
    assert_eq!(backups_to_remove(listing.clone(), 2), ["lexwisp-1.db", "lexwisp-2.db", "lexwisp-3.db", "lexwisp-4.db"]);
    assert!(backups_to_remove(listing, 10).is_empty());
    assert!(backups_to_remove(Vec::new(), 0).is_empty());
}
