use github_audit::listing::{add_items, has_item, index_fetched, index_items};
use github_audit::Member;

fn member(login: &str, avatar: &str) -> Member {
    Member {
        avatar_url: avatar.to_string(),
        login: login.to_string(),
    }
}

#[test]
fn keeps_each_item_once_in_the_order_it_came() {
    let mut items = vec![member("a", "1")];
    add_items(
        &mut items,
        vec![
            member("b", "1"),
            member("a", "1"),
            member("b", "1"),
            member("a", "2"),
        ],
    );
    assert_eq!(
        items,
        vec![member("a", "1"), member("b", "1"), member("a", "2")]
    );
}

#[test]
fn adding_items_again_changes_nothing() {
    let mut items = vec![];
    add_items(&mut items, vec![member("a", "1"), member("b", "1")]);
    add_items(&mut items, vec![member("b", "1"), member("a", "1")]);
    assert_eq!(items, vec![member("a", "1"), member("b", "1")]);
}

#[test]
fn knows_which_items_are_there() {
    let items = vec![member("a", "1")];
    assert!(has_item(&items, &member("a", "1")));
    assert!(!has_item(&items, &member("a", "2")));
    assert!(!has_item(&vec![], &member("a", "1")));
}

#[test]
fn files_the_last_item_of_an_index() {
    let map = index_items(vec![
        member("a", "1"),
        member("b", "1"),
        member("a", "2"),
    ]);
    assert_eq!(map.len(), 2);
    assert_eq!(map.get("a"), Some(&member("a", "2")));
    assert_eq!(map.get("b"), Some(&member("b", "1")));
    assert_eq!(map.get("c"), None);
}

#[test]
fn files_what_was_fetched_and_hands_on_an_error() {
    let map = index_fetched(Ok(vec![member("a", "1"), member("b", "1")]))
        .ok()
        .unwrap();
    assert_eq!(map.len(), 2);
    assert_eq!(map.get("b"), Some(&member("b", "1")));
    let error = index_fetched::<Member>(Err("down".to_string())).err();
    assert_eq!(error, Some("down".to_string()));
}
