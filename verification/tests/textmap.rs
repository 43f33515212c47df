use rlm::textmap::TextMap;
use std::collections::BTreeMap;

#[test]
fn a_map_behaves_like_a_sorted_map() {
    let keys = ["b", "a", "ab", "", "é", "z", "a", "Z", "b"];
    let mut ours: TextMap<usize> = TextMap::new();
    let mut theirs: BTreeMap<String, usize> = BTreeMap::new();
    assert!(ours.is_empty());
    for (i, k) in keys.iter().enumerate() {
        ours.insert(k, i);
        theirs.insert(k.to_string(), i);
    }
    assert_eq!(ours.len(), theirs.len());
    for (i, (k, v)) in theirs.iter().enumerate() {
        assert_eq!(ours.key_at(i), k);
        assert_eq!(ours.value_at(i), v);
        assert_eq!(ours.get(k), Some(v));
        assert!(ours.contains(k));
    }
    for k in ["ab", "nope", "é", "ab"] {
        assert_eq!(ours.remove(k), theirs.remove(k));
        assert_eq!(ours.get(k), None);
    }
    assert_eq!(ours.len(), theirs.len());
    assert!(!ours.is_empty());
}
