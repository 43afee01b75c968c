use snowbreak_gacha_export::datetime::parse_local_timestamp;
use snowbreak_gacha_export::errors::ScanError;
use snowbreak_gacha_export::record::{
    all_banner_types, BannerType, ItemType, OneAccountRecords, OneRecord, TotalRecords,
};
use snowbreak_gacha_export::Language;

fn rec(star: u8, name: &str, ts: u64) -> OneRecord {
    OneRecord::new(star, name.to_string(), ItemType::Weapon, ts)
}

#[test]
fn banner_display_names() {
    assert_eq!(
        BannerType::LimitedCharacter100Percent.display_name_for_user(Language::English),
        "100% Limited Character Banner"
    );
    assert_eq!(
        BannerType::Beginner.display_name_for_user(Language::ChineseSimplified),
        "新手池"
    );
    assert_eq!(
        BannerType::PermanentWeapon.display_name_for_user(Language::English),
        "Permanent Weapon Banner"
    );
}

#[test]
fn pity_counts() {
    assert_eq!(BannerType::LimitedCharacter100Percent.pity_count(), 100);
    assert_eq!(BannerType::LimitedWeapon100Percent.pity_count(), 80);
    assert_eq!(BannerType::LimitedCharacter50Percent.pity_count(), 80);
    assert_eq!(BannerType::LimitedWeapon50Percent.pity_count(), 60);
    assert_eq!(BannerType::PermanentCharacter.pity_count(), 80);
    assert_eq!(BannerType::PermanentWeapon.pity_count(), 60);
    assert_eq!(BannerType::Beginner.pity_count(), 50);
}

#[test]
fn item_type_names() {
    assert_eq!(
        ItemType::Character.display_name_in_record_page_in_game(Language::English),
        "Operative"
    );
    assert_eq!(
        ItemType::Weapon.display_name_in_record_page_in_game(Language::ChineseSimplified),
        "武器"
    );
    let names = ItemType::Character.display_names_in_record_page_in_game_in_all_languages();
    assert_eq!(names, vec!["角色", "Operative"]);
}

#[test]
fn all_banners_in_order() {
    let banners = all_banner_types();
    assert_eq!(banners.len(), 7);
    assert_eq!(banners[0], BannerType::LimitedCharacter100Percent);
    assert_eq!(banners[6], BannerType::Beginner);
}

#[test]
fn one_record_fields() {
    let r = OneRecord::new(5, "Fritia".to_string(), ItemType::Character, 123456);
    assert_eq!(r.star, 5);
    assert_eq!(r.item_name, "Fritia");
    assert_eq!(r.item_type, ItemType::Character);
    assert_eq!(r.timestamp, 123456);
    let copy = r.clone();
    assert_eq!(copy, r);
}

#[test]
fn readable_date_time_round_trips_through_local_time() {
    // Whatever the machine's time zone, rendering a whole-minute
    // timestamp and parsing the text back answers the same timestamp.
    let ts: u64 = 86_400 * 1000 + 12 * 3600 + 34 * 60;
    let r = rec(3, "w", ts);
    let text = r.readable_date_time_str().unwrap();
    assert_eq!(parse_local_timestamp(&text).unwrap(), ts);
}

#[test]
fn account_add_record_merges_per_banner() {
    let mut acct = OneAccountRecords::new("acc".to_string(), Vec::new());
    let added = acct
        .add_record(BannerType::Beginner, vec![rec(3, "a", 2), rec(3, "b", 1)])
        .unwrap();
    assert_eq!(added, 2);
    // A second scan overlapping the stored tail adds only the new head.
    let added = acct
        .add_record(
            BannerType::Beginner,
            vec![rec(5, "c", 3), rec(3, "a", 2), rec(3, "b", 1)],
        )
        .unwrap();
    assert_eq!(added, 1);
    assert_eq!(acct.records.len(), 1);
    assert_eq!(acct.records[0].1.len(), 3);
    // A different banner gets its own sequence.
    let added = acct
        .add_record(BannerType::PermanentWeapon, vec![rec(4, "d", 9)])
        .unwrap();
    assert_eq!(added, 1);
    assert_eq!(acct.records.len(), 2);
}

#[test]
fn account_add_record_rejects_unordered_merge_and_keeps_store() {
    let mut acct = OneAccountRecords::new("acc".to_string(), Vec::new());
    acct.add_record(BannerType::Beginner, vec![rec(3, "b", 4), rec(3, "a", 1)])
        .unwrap();
    let before = acct.records.clone();
    let err = acct
        .add_record(BannerType::Beginner, vec![rec(3, "d", 5), rec(3, "c", 2)])
        .unwrap_err();
    assert_eq!(err, ScanError::ReconciliationOrderViolation);
    assert_eq!(acct.records, before);
}

#[test]
fn total_records_keeps_accounts_apart() {
    let mut total = TotalRecords::new(Vec::new());
    let added = total
        .add_record("one".to_string(), BannerType::Beginner, vec![rec(3, "a", 1)])
        .unwrap();
    assert_eq!(added, 1);
    let added = total
        .add_record("two".to_string(), BannerType::Beginner, vec![rec(3, "b", 2)])
        .unwrap();
    assert_eq!(added, 1);
    let added = total
        .add_record("one".to_string(), BannerType::Beginner, vec![rec(3, "c", 5), rec(3, "a", 1)])
        .unwrap();
    assert_eq!(added, 1);
    assert_eq!(total.records.len(), 2);
    assert_eq!(total.records[0].id, "one");
    assert_eq!(total.records[0].records[0].1.len(), 2);
    assert_eq!(total.records[1].records[0].1.len(), 1);
}
