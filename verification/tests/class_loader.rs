use mokapot::jvm::class_loader::{first_action, next_action, ClassCache, LoadAction, Lookup};

fn search(lookups: &[Lookup]) -> LoadAction {
    let mut action = first_action(lookups.len());
    while let LoadAction::Ask(i) = action {
        action = next_action(i, lookups.len(), lookups[i]);
    }
    action
}

#[test]
fn search_stops_at_the_first_answer() {
    assert_eq!(search(&[]), LoadAction::NotFound);
    assert_eq!(search(&[Lookup::NotFound, Lookup::NotFound]), LoadAction::NotFound);
    assert_eq!(search(&[Lookup::NotFound, Lookup::Found, Lookup::Failed]), LoadAction::Answer(1));
    assert_eq!(search(&[Lookup::NotFound, Lookup::Failed, Lookup::Found]), LoadAction::Answer(1));
    assert_eq!(search(&[Lookup::Found]), LoadAction::Answer(0));
}

#[test]
fn single_steps() {
    assert_eq!(first_action(3), LoadAction::Ask(0));
    assert_eq!(next_action(0, 3, Lookup::NotFound), LoadAction::Ask(1));
    assert_eq!(next_action(2, 3, Lookup::NotFound), LoadAction::NotFound);
    assert_eq!(next_action(1, 3, Lookup::Failed), LoadAction::Answer(1));
}

#[test]
fn cache_gives_back_what_was_put() {
    let mut cache: ClassCache<Vec<u8>> = ClassCache::new();
    assert_eq!(cache.get("java/lang/Object"), None);
    cache.put("java/lang/Object".to_owned(), vec![0xCA, 0xFE]);
    cache.put("java/lang/String".to_owned(), vec![1]);
    assert_eq!(cache.get("java/lang/Object"), Some(&vec![0xCA, 0xFE]));
    assert_eq!(cache.get("java/lang/String"), Some(&vec![1]));
    assert_eq!(cache.get("java/lang/Integer"), None);
}
