use dirtable::order::arrange;
use dirtable::order::name_le;
use dirtable::order::SortPolicy;
use dirtable::record::PathKind;
use dirtable::record::PathRecord;
use dirtable::text::chars_of;

fn listing() -> Vec<PathRecord> {
    let entry = |name: &str, kind: PathKind, size: u64| {
        PathRecord::new(name.to_string(), kind, size, 0).unwrap()
    };
    vec![
        entry("zeta.txt", PathKind::File, 1),
        entry("src", PathKind::Folder, 2),
        entry("Makefile", PathKind::File, 3),
        entry("alpha", PathKind::Folder, 4),
        entry("src", PathKind::File, 5),
        entry("ärger", PathKind::File, 6),
        entry("alpha.d", PathKind::Folder, 7),
    ]
}

fn sizes(records: &[PathRecord]) -> Vec<u64> {
    records.iter().map(|record| record.size_bytes()).collect()
}

#[test]
fn listed_order_is_the_order_of_the_listing() {
    let records = listing();
    assert_eq!(arrange(&records, SortPolicy::Listed), records);
    assert_eq!(arrange(&Vec::new(), SortPolicy::Listed), Vec::new());
}

#[test]
fn folders_first_keeps_each_group_as_listed() {
    let out = arrange(&listing(), SortPolicy::FoldersFirst);
    assert_eq!(sizes(&out), vec![2, 4, 7, 1, 3, 5, 6]);
    assert_eq!(arrange(&Vec::new(), SortPolicy::FoldersFirst), Vec::new());
}

#[test]
fn by_name_orders_character_by_character() {
    let out = arrange(&listing(), SortPolicy::ByName);
    let names: Vec<&str> = out.iter().map(|record| record.name()).collect();
    assert_eq!(names, vec!["Makefile", "alpha", "alpha.d", "src", "src", "zeta.txt", "ärger"]);
    assert_eq!(sizes(&out), vec![3, 4, 7, 2, 5, 1, 6]);
    assert_eq!(arrange(&Vec::new(), SortPolicy::ByName), Vec::new());
}

#[test]
fn arranging_only_reorders() {
    for policy in [SortPolicy::Listed, SortPolicy::FoldersFirst, SortPolicy::ByName] {
        let records = listing();
        let mut out = sizes(&arrange(&records, policy));
        assert_eq!(records, listing());
        out.sort();
        assert_eq!(out, vec![1, 2, 3, 4, 5, 6, 7]);
    }
}

#[test]
fn by_name_agrees_with_the_order_of_strings() {
    let names = ["", "a", "ab", "b", "B", "ba", "é", "e", "zz", "z", "日本", "a b", "a-b"];
    for a in names {
        for b in names {
            assert_eq!(name_le(a, b), a <= b);
        }
    }
}

#[test]
fn characters_of_a_text() {
    assert_eq!(chars_of(""), Vec::<char>::new());
    assert_eq!(chars_of("aé日"), vec!['a', 'é', '日']);
}

#[test]
fn policy_identifiers() {
    assert_eq!(SortPolicy::from_name("listed"), Some(SortPolicy::Listed));
    assert_eq!(SortPolicy::from_name("folders-first"), Some(SortPolicy::FoldersFirst));
    assert_eq!(SortPolicy::from_name("name"), Some(SortPolicy::ByName));
    assert_eq!(SortPolicy::from_name("Name"), None);
    assert_eq!(SortPolicy::from_name(""), None);
    assert_eq!(SortPolicy::from_name("size"), None);
}
