use snowbreak_gacha_export::export::{get_other_data, headers};
use snowbreak_gacha_export::interact::menu_choice;
use snowbreak_gacha_export::record::{BannerType, ItemType, OneRecord};
use snowbreak_gacha_export::Language;

fn rec(star: u8, ts: u64) -> OneRecord {
    OneRecord::new(star, "item".to_string(), ItemType::Character, ts)
}

#[test]
fn headers_exist_in_both_languages() {
    let cn = headers(Language::ChineseSimplified);
    assert_eq!(cn, vec!["品质", "名称", "类型", "时间", "5星后", "5星保底", "4星后"]);
    let en = headers(Language::English);
    assert_eq!(
        en,
        vec!["Star", "Name", "Type", "Time", "After 5*", "5* Pity", "After 4*"]
    );
}

#[test]
fn pity_counters_walk_from_the_oldest_pull() {
    // Newest first: a 5-star, two plain pulls, a 4-star, a plain pull.
    let records = vec![rec(5, 50), rec(3, 40), rec(3, 30), rec(4, 20), rec(3, 10)];
    let (after5, to_pity, after4) = get_other_data(&records, BannerType::Beginner);
    // Counting from the oldest pull upward, each pull counting itself.
    assert_eq!(after5, vec![5, 4, 3, 2, 1]);
    assert_eq!(after4, vec![3, 2, 1, 2, 1]);
    // Beginner pity is 50.
    assert_eq!(to_pity, vec![45, 46, 47, 48, 49]);
}

#[test]
fn counters_reset_after_each_five_star() {
    let records = vec![rec(3, 40), rec(5, 30), rec(3, 20), rec(5, 10)];
    let (after5, _, after4) = get_other_data(&records, BannerType::PermanentWeapon);
    assert_eq!(after5, vec![1, 2, 1, 1]);
    assert_eq!(after4, vec![4, 3, 2, 1]);
}

#[test]
fn empty_record_list_yields_empty_columns() {
    let (a, b, c) = get_other_data(&Vec::new(), BannerType::Beginner);
    assert!(a.is_empty() && b.is_empty() && c.is_empty());
}

#[test]
fn menu_choice_accepts_only_listed_numbers() {
    assert_eq!(menu_choice("1", 7), Some(0));
    assert_eq!(menu_choice("7", 7), Some(6));
    assert_eq!(menu_choice("+2", 7), Some(1));
    assert_eq!(menu_choice("0", 7), None);
    assert_eq!(menu_choice("8", 7), None);
    assert_eq!(menu_choice("abc", 7), None);
    assert_eq!(menu_choice("", 7), None);
}
