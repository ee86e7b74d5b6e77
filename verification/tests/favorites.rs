use lexwisp::favorites::KnownFavorites;
use lexwisp::ids::InvocationId;

#[test]
fn recorded_favorites_read_back() {
    let mut known = KnownFavorites::new();
    let a = InvocationId::new();
    let b = InvocationId::new();
    assert!(!known.contains(&a));
    known.record(a.clone(), true);
    known.record(a.clone(), true);
    known.record(b.clone(), true);
    assert!(known.contains(&a) && known.contains(&b));
    known.record(a.clone(), false);
    assert!(!known.contains(&a) && known.contains(&b));
    known.clear();
    assert!(!known.contains(&b));
}
