use fontsync::database::FontRecord;
use fontsync::ids::Id;
use fontsync::storage::{
    delete_status, duplicate_action, get_font_status, match_records, object_key, DuplicateAction,
    HeadOutcome,
};

fn record(path: &str) -> FontRecord {
    FontRecord {
        font_family: "Fam".to_string(),
        font_subfamily: "Sub".to_string(),
        object_path: path.to_string(),
        checksum: "00".to_string(),
    }
}

#[test]
fn object_key_joins_user_and_path() {
    let key = object_key(Id(1), &b"a/b.ttf".to_vec());
    assert_eq!(key, b"00000000-0000-0000-0000-000000000001/a/b.ttf".to_vec());
}

#[test]
fn duplicate_actions() {
    assert_eq!(duplicate_action(false, HeadOutcome::Error), DuplicateAction::Proceed);
    assert_eq!(duplicate_action(true, HeadOutcome::Found), DuplicateAction::ReportDuplicate);
    assert_eq!(duplicate_action(true, HeadOutcome::NotFound), DuplicateAction::CleanupAndProceed);
    assert_eq!(duplicate_action(true, HeadOutcome::Error), DuplicateAction::Fail);
}

#[test]
fn delete_statuses() {
    assert_eq!(delete_status(HeadOutcome::NotFound, false), 404);
    assert_eq!(delete_status(HeadOutcome::Error, false), 500);
    assert_eq!(delete_status(HeadOutcome::Found, true), 200);
    assert_eq!(delete_status(HeadOutcome::Found, false), 500);
}

#[test]
fn get_font_statuses() {
    assert_eq!(get_font_status(true), 404);
    assert_eq!(get_font_status(false), 500);
}

#[test]
fn listing_keeps_only_stored_objects() {
    let fonts = vec![record("u/a.ttf"), record("u/gone.ttf"), record("u/b.ttf")];
    let keys = vec!["u/b.ttf".to_string(), "u/a.ttf".to_string(), "u/other.ttf".to_string()];
    let kept = match_records(fonts, &keys);
    assert_eq!(kept.len(), 2);
    assert_eq!(kept[0].object_path, "u/a.ttf".to_string());
    assert_eq!(kept[1].object_path, "u/b.ttf".to_string());
}

#[test]
fn listing_of_nothing_is_empty() {
    assert_eq!(match_records(Vec::new(), &vec!["k".to_string()]), Vec::new());
    let fonts = vec![record("u/a.ttf")];
    assert_eq!(match_records(fonts, &Vec::new()), Vec::new());
}
