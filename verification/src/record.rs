//! Pull records: the banner and item vocabulary, one record, and the
//! stored collections of records.

use vstd::prelude::*;

use crate::errors::ScanError;
use crate::language::Language;
use crate::reconcile::{merge_gacha_records, merge_model};

verus! {

/// A banner (loot-box pool) whose history can be scanned.
#[derive(Debug, Copy, Clone, PartialEq, Eq, Structural)]
pub enum BannerType {
    LimitedCharacter100Percent,
    LimitedWeapon100Percent,
    LimitedCharacter50Percent,
    LimitedWeapon50Percent,
    PermanentCharacter,
    PermanentWeapon,
    Beginner,
}

/// What `BannerType::display_name_for_user` answers.
pub open spec fn spec_banner_display_name(b: BannerType, language: Language) -> Seq<char> {
    match language {
        Language::ChineseSimplified => match b {
            BannerType::LimitedCharacter100Percent => "100%限定角色池"@,
            BannerType::LimitedWeapon100Percent => "100%限定武器池"@,
            BannerType::LimitedCharacter50Percent => "50%限定角色池"@,
            BannerType::LimitedWeapon50Percent => "50%限定武器池"@,
            BannerType::PermanentCharacter => "常驻角色池"@,
            BannerType::PermanentWeapon => "常驻武器池"@,
            BannerType::Beginner => "新手池"@,
        },
        Language::English => match b {
            BannerType::LimitedCharacter100Percent => "100% Limited Character Banner"@,
            BannerType::LimitedWeapon100Percent => "100% Limited Weapon Banner"@,
            BannerType::LimitedCharacter50Percent => "50% Limited Character Banner"@,
            BannerType::LimitedWeapon50Percent => "50% Limited Weapon Banner"@,
            BannerType::PermanentCharacter => "Permanent Character Banner"@,
            BannerType::PermanentWeapon => "Permanent Weapon Banner"@,
            BannerType::Beginner => "Beginner Banner"@,
        },
    }
}

/// What `BannerType::pity_count` answers.
pub open spec fn spec_pity_count(b: BannerType) -> u32 {
    match b {
        BannerType::LimitedCharacter100Percent => 100,
        BannerType::LimitedWeapon100Percent => 80,
        BannerType::LimitedCharacter50Percent => 80,
        BannerType::LimitedWeapon50Percent => 60,
        BannerType::PermanentCharacter => 80,
        BannerType::PermanentWeapon => 60,
        BannerType::Beginner => 50,
    }
}

impl BannerType {
    /// The banner's name as shown to the user in the given language.
    pub fn display_name_for_user(&self, language: Language) -> (r: &'static str)
        ensures
            r@ == spec_banner_display_name(*self, language),
    {
        match language {
            Language::ChineseSimplified => match self {
                BannerType::LimitedCharacter100Percent => "100%限定角色池",
                BannerType::LimitedWeapon100Percent => "100%限定武器池",
                BannerType::LimitedCharacter50Percent => "50%限定角色池",
                BannerType::LimitedWeapon50Percent => "50%限定武器池",
                BannerType::PermanentCharacter => "常驻角色池",
                BannerType::PermanentWeapon => "常驻武器池",
                BannerType::Beginner => "新手池",
            },
            Language::English => match self {
                BannerType::LimitedCharacter100Percent => "100% Limited Character Banner",
                BannerType::LimitedWeapon100Percent => "100% Limited Weapon Banner",
                BannerType::LimitedCharacter50Percent => "50% Limited Character Banner",
                BannerType::LimitedWeapon50Percent => "50% Limited Weapon Banner",
                BannerType::PermanentCharacter => "Permanent Character Banner",
                BannerType::PermanentWeapon => "Permanent Weapon Banner",
                BannerType::Beginner => "Beginner Banner",
            },
        }
    }

    /// How many pulls this banner needs at most for a five-star result.
    pub fn pity_count(&self) -> (r: u32)
        ensures
            r == spec_pity_count(*self),
    {
        match self {
            BannerType::LimitedCharacter100Percent => 100,
            BannerType::LimitedWeapon100Percent => 80,
            BannerType::LimitedCharacter50Percent => 80,
            BannerType::LimitedWeapon50Percent => 60,
            BannerType::PermanentCharacter => 80,
            BannerType::PermanentWeapon => 60,
            BannerType::Beginner => 50,
        }
    }
}

/// Every banner, in the order offered to the user.
pub fn all_banner_types() -> (r: Vec<BannerType>)
    ensures
        r@ == seq![
            BannerType::LimitedCharacter100Percent,
            BannerType::LimitedWeapon100Percent,
            BannerType::LimitedCharacter50Percent,
            BannerType::LimitedWeapon50Percent,
            BannerType::PermanentCharacter,
            BannerType::PermanentWeapon,
            BannerType::Beginner,
        ],
{
    let mut v: Vec<BannerType> = Vec::new();
    v.push(BannerType::LimitedCharacter100Percent);
    v.push(BannerType::LimitedWeapon100Percent);
    v.push(BannerType::LimitedCharacter50Percent);
    v.push(BannerType::LimitedWeapon50Percent);
    v.push(BannerType::PermanentCharacter);
    v.push(BannerType::PermanentWeapon);
    v.push(BannerType::Beginner);
    proof {
        assert(v@ =~= seq![
            BannerType::LimitedCharacter100Percent,
            BannerType::LimitedWeapon100Percent,
            BannerType::LimitedCharacter50Percent,
            BannerType::LimitedWeapon50Percent,
            BannerType::PermanentCharacter,
            BannerType::PermanentWeapon,
            BannerType::Beginner,
        ]);
    }
    v
}

/// The category of a pulled item.
#[derive(Debug, Copy, Clone, PartialEq, Eq, Structural)]
pub enum ItemType {
    Character,
    Weapon,
}

/// What `ItemType::display_name_in_record_page_in_game` answers; the user
/// facing name is the same text.
pub open spec fn spec_item_type_name(t: ItemType, language: Language) -> Seq<char> {
    match language {
        Language::ChineseSimplified => match t {
            ItemType::Character => "角色"@,
            ItemType::Weapon => "武器"@,
        },
        Language::English => match t {
            ItemType::Character => "Operative"@,
            ItemType::Weapon => "Weapon"@,
        },
    }
}

impl ItemType {
    /// The category's name as shown to the user in the given language.
    pub fn display_name_for_user(&self, language: Language) -> (r: &'static str)
        ensures
            r@ == spec_item_type_name(*self, language),
    {
        match language {
            Language::ChineseSimplified => match self {
                ItemType::Character => "角色",
                ItemType::Weapon => "武器",
            },
            Language::English => match self {
                ItemType::Character => "Operative",
                ItemType::Weapon => "Weapon",
            },
        }
    }

    /// The category's label as the game's record page renders it.
    pub fn display_name_in_record_page_in_game(&self, language: Language) -> (r: &'static str)
        ensures
            r@ == spec_item_type_name(*self, language),
    {
        match language {
            Language::ChineseSimplified => match self {
                ItemType::Character => "角色",
                ItemType::Weapon => "武器",
            },
            Language::English => match self {
                ItemType::Character => "Operative",
                ItemType::Weapon => "Weapon",
            },
        }
    }

    /// The category's record-page label in every supported language, in the
    /// order of `crate::language::all_languages`.
    pub fn display_names_in_record_page_in_game_in_all_languages(&self) -> (r: Vec<&'static str>)
        ensures
            r@.len() == 2,
            r@[0]@ == spec_item_type_name(*self, Language::ChineseSimplified),
            r@[1]@ == spec_item_type_name(*self, Language::English),
    {
        let languages = crate::language::all_languages();
        let mut names: Vec<&'static str> = Vec::new();
        let mut i: usize = 0;
        while i < languages.len()
            invariant
                i <= languages.len(),
                languages@ == seq![Language::ChineseSimplified, Language::English],
                names@.len() == i,
                forall|j: int|
                    0 <= j < i ==> names@[j]@ == spec_item_type_name(*self, languages@[j]),
            decreases languages.len() - i,
        {
            names.push(self.display_name_in_record_page_in_game(languages[i]));
            i += 1;
        }
        names
    }
}

/// The mathematical value of one pull record: the text is a character
/// sequence, everything else is carried over unchanged.
#[verifier::ext_equal]
pub ghost struct RecordModel {
    pub star: u8,
    pub item_name: Seq<char>,
    pub item_type: ItemType,
    pub timestamp: u64,
}

/// One entry of a pull history.  Immutable once constructed.
#[derive(Debug)]
pub struct OneRecord {
    /// The rarity tier; a listing page only ever shows 3, 4 or 5.
    pub star: u8,
    /// The pulled item's name as recognized on screen.
    pub item_name: String,
    /// The pulled item's category.
    pub item_type: ItemType,
    /// The pull time as seconds since the epoch.
    pub timestamp: u64,
}

impl View for OneRecord {
    type V = RecordModel;

    open spec fn view(&self) -> RecordModel {
        RecordModel {
            star: self.star,
            item_name: self.item_name@,
            item_type: self.item_type,
            timestamp: self.timestamp,
        }
    }
}

impl DeepView for OneRecord {
    type V = RecordModel;

    open spec fn deep_view(&self) -> RecordModel {
        self.view()
    }
}

/// The record sequence a vector of records stands for.
pub open spec fn models(s: Seq<OneRecord>) -> Seq<RecordModel> {
    s.map_values(|r: OneRecord| r@)
}

impl OneRecord {
    /// Builds the record from its four fields.
    pub fn new(star: u8, item_name: String, item_type: ItemType, timestamp: u64) -> (r: Self)
        ensures
            r@ == (RecordModel { star, item_name: item_name@, item_type, timestamp }),
    {
        Self { star, item_name, item_type, timestamp }
    }

    /// The pull time rendered in the machine's local time zone, or
    /// nothing where the timestamp lies outside the calendar's range.
    pub fn readable_date_time_str(&self) -> Option<String> {
        crate::datetime::format_local_minute(self.timestamp)
    }
}

impl Clone for OneRecord {
    /// An exact copy; the contracts of the reconciler depend on it.
    fn clone(&self) -> (r: Self)
        ensures
            r == *self,
    {
        OneRecord {
            star: self.star,
            item_name: self.item_name.clone(),
            item_type: self.item_type,
            timestamp: self.timestamp,
        }
    }
}

impl PartialEq for OneRecord {
    fn eq(&self, other: &Self) -> bool {
        self.star == other.star && self.item_name == other.item_name && self.item_type
            == other.item_type && self.timestamp == other.timestamp
    }
}

impl Eq for OneRecord {

}

impl vstd::std_specs::cmp::PartialEqSpecImpl for OneRecord {
    open spec fn obeys_eq_spec() -> bool {
        true
    }

    open spec fn eq_spec(&self, other: &Self) -> bool {
        self@ == other@
    }
}

/// The position of banner `b` in the table, or -1 when the banner has no
/// entry.
pub open spec fn index_of_banner(t: Seq<(BannerType, Seq<RecordModel>)>, b: BannerType) -> int
    decreases t.len(),
{
    if t.len() == 0 {
        -1
    } else if t[0].0 == b {
        0
    } else if index_of_banner(t.drop_first(), b) < 0 {
        -1
    } else {
        index_of_banner(t.drop_first(), b) + 1
    }
}

/// A first entry with banner `b` pins `index_of_banner` down.
pub proof fn lemma_index_of_banner_at(t: Seq<(BannerType, Seq<RecordModel>)>, b: BannerType, i: int)
    requires
        0 <= i < t.len(),
        t[i].0 == b,
        forall|j: int| 0 <= j < i ==> (#[trigger] t[j]).0 != b,
    ensures
        index_of_banner(t, b) == i,
    decreases t.len(),
{
    if i > 0 {
        assert(t[0].0 != b);
        assert(forall|j: int| 0 <= j < i - 1 ==> (#[trigger] t.drop_first()[j]).0 != b);
        assert(t.drop_first()[i - 1] == t[i]);
        lemma_index_of_banner_at(t.drop_first(), b, i - 1);
    }
}

/// Without an entry for banner `b`, `index_of_banner` answers -1.
pub proof fn lemma_index_of_banner_none(t: Seq<(BannerType, Seq<RecordModel>)>, b: BannerType)
    requires
        forall|j: int| 0 <= j < t.len() ==> (#[trigger] t[j]).0 != b,
    ensures
        index_of_banner(t, b) == -1,
    decreases t.len(),
{
    if t.len() > 0 {
        assert(forall|j: int| 0 <= j < t.len() - 1 ==> (#[trigger] t.drop_first()[j]).0 != b);
        lemma_index_of_banner_none(t.drop_first(), b);
    }
}

/// What storing a freshly scanned sequence under a banner does to an
/// account's table: the new sequence is merged with the one stored under
/// that banner (with an empty one where the banner is new), and the table
/// keeps its other entries; nothing where the merge fails.
pub open spec fn account_table_add(
    t: Seq<(BannerType, Seq<RecordModel>)>,
    b: BannerType,
    n: Seq<RecordModel>,
) -> Option<(Seq<(BannerType, Seq<RecordModel>)>, int)> {
    let i = index_of_banner(t, b);
    let stored = if i >= 0 {
        t[i].1
    } else {
        Seq::<RecordModel>::empty()
    };
    match merge_model(n, stored) {
        Some(p) => Some(
            (
                if i >= 0 {
                    t.update(i, (b, p.0))
                } else {
                    t.push((b, p.0))
                },
                p.1,
            ),
        ),
        None => None,
    }
}

/// The stored pull history of one account, one record sequence per banner.
#[derive(Debug)]
pub struct OneAccountRecords {
    /// The account's identifier.
    pub id: String,
    /// The stored sequences, at most one entry per banner.
    pub records: Vec<(BannerType, Vec<OneRecord>)>,
}

impl OneAccountRecords {
    /// The account's stored sequences as a mathematical table.
    pub open spec fn table(&self) -> Seq<(BannerType, Seq<RecordModel>)> {
        self.records@.map_values(|p: (BannerType, Vec<OneRecord>)| (p.0, models(p.1@)))
    }

    /// Well-formed: no banner occurs twice.
    pub open spec fn wf(&self) -> bool {
        forall|i: int, j: int|
            0 <= i < j < self.records@.len() ==> (#[trigger] self.records@[i]).0 != (
            #[trigger] self.records@[j]).0
    }

    /// Builds the account from its identifier and stored sequences.
    pub fn new(id: String, records: Vec<(BannerType, Vec<OneRecord>)>) -> (r: Self)
        ensures
            r.id == id,
            r.records == records,
    {
        Self { id, records }
    }

    /// Merges a freshly scanned sequence into the one stored under the
    /// given banner, exactly as `account_table_add` prescribes, and answers
    /// how many entries were new.  A failed merge leaves the account
    /// untouched.
    pub fn add_record(&mut self, banner_type: BannerType, records: Vec<OneRecord>) -> (r: Result<
        u32,
        ScanError,
    >)
        requires
            old(self).wf(),
            ({
                let t = old(self).table();
                let i = index_of_banner(t, banner_type);
                let stored_len: int = if i >= 0 {
                    t[i].1.len() as int
                } else {
                    0
                };
                records@.len() + stored_len <= u32::MAX
            }),
        ensures
            final(self).wf(),
            final(self).id == old(self).id,
            (match r {
                Ok(n) => account_table_add(old(self).table(), banner_type, models(records@))
                    == Some((final(self).table(), n as int)),
                Err(e) => e == ScanError::ReconciliationOrderViolation && account_table_add(
                    old(self).table(),
                    banner_type,
                    models(records@),
                ) is None && *final(self) == *old(self),
            }),
    {
        let ghost t = self.table();
        match find_banner(&self.records, banner_type) {
            Some(i) => {
                proof {
                    assert forall|j: int| 0 <= j < i implies (#[trigger] t[j]).0 != banner_type by {
                        assert(t[j].0 == self.records@[j].0);
                    }
                    assert(t[i as int].0 == banner_type);
                    lemma_index_of_banner_at(t, banner_type, i as int);
                }
                proof {
                    assert(t[i as int].1 == models(self.records@[i as int].1@));
                }
                let merged = merge_gacha_records(records.as_slice(), self.records[i].1.as_slice());
                match merged {
                    Ok((m, n)) => {
                        self.records.set(i, (banner_type, m));
                        proof {
                            assert(self.table() =~= t.update(i as int, (banner_type, models(m@))));
                        }
                        Ok(n)
                    },
                    Err(e) => Err(e),
                }
            },
            None => {
                proof {
                    assert forall|j: int| 0 <= j < t.len() implies (#[trigger] t[j]).0 != banner_type by {
                        assert(t[j].0 == self.records@[j].0);
                    }
                    lemma_index_of_banner_none(t, banner_type);
                    crate::reconcile::lemma_merge_with_empty(
                        models(records@),
                        Seq::<RecordModel>::empty(),
                    );
                }
                let n = records.len();
                self.records.push((banner_type, records));
                proof {
                    assert(self.table() =~= t.push(
                        (banner_type, models(self.records@[t.len() as int].1@)),
                    ));
                }
                Ok(n as u32)
            },
        }
    }
}

/// The position of the account with identifier `id`, or -1 when no
/// account carries it.
pub open spec fn index_of_account(s: Seq<OneAccountRecords>, id: Seq<char>) -> int
    decreases s.len(),
{
    if s.len() == 0 {
        -1
    } else if s[0].id@ == id {
        0
    } else if index_of_account(s.drop_first(), id) < 0 {
        -1
    } else {
        index_of_account(s.drop_first(), id) + 1
    }
}

/// A first account with identifier `id` pins `index_of_account` down.
pub proof fn lemma_index_of_account_at(s: Seq<OneAccountRecords>, id: Seq<char>, i: int)
    requires
        0 <= i < s.len(),
        s[i].id@ == id,
        forall|j: int| 0 <= j < i ==> (#[trigger] s[j]).id@ != id,
    ensures
        index_of_account(s, id) == i,
    decreases s.len(),
{
    if i > 0 {
        assert(s[0].id@ != id);
        assert(forall|j: int| 0 <= j < i - 1 ==> (#[trigger] s.drop_first()[j]).id@ != id);
        assert(s.drop_first()[i - 1] == s[i]);
        lemma_index_of_account_at(s.drop_first(), id, i - 1);
    }
}

/// Without an account for `id`, `index_of_account` answers -1.
pub proof fn lemma_index_of_account_none(s: Seq<OneAccountRecords>, id: Seq<char>)
    requires
        forall|j: int| 0 <= j < s.len() ==> (#[trigger] s[j]).id@ != id,
    ensures
        index_of_account(s, id) == -1,
    decreases s.len(),
{
    if s.len() > 0 {
        assert(forall|j: int| 0 <= j < s.len() - 1 ==> (#[trigger] s.drop_first()[j]).id@ != id);
        lemma_index_of_account_none(s.drop_first(), id);
    }
}

/// The stored pull histories of every account.
#[derive(Debug)]
pub struct TotalRecords {
    /// One entry per account, identified by `OneAccountRecords::id`.
    pub records: Vec<OneAccountRecords>,
}

impl TotalRecords {
    /// Well-formed: no identifier occurs twice and every account is
    /// well-formed.
    pub open spec fn wf(&self) -> bool {
        &&& forall|i: int, j: int|
            0 <= i < j < self.records@.len() ==> (#[trigger] self.records@[i]).id@ != (
            #[trigger] self.records@[j]).id@
        &&& forall|i: int| 0 <= i < self.records@.len() ==> (#[trigger] self.records@[i]).wf()
    }

    /// Builds the store from the given accounts.
    pub fn new(records: Vec<OneAccountRecords>) -> (r: Self)
        ensures
            r.records == records,
    {
        Self { records }
    }

    /// Merges a freshly scanned sequence into the sequence that the given
    /// account stores under the given banner; a new account or banner
    /// starts from an empty stored sequence.  Answers how many entries
    /// were new; a failed merge leaves the store untouched.
    pub fn add_record(
        &mut self,
        account_id: String,
        banner_type: BannerType,
        records: Vec<OneRecord>,
    ) -> (r: Result<u32, ScanError>)
        requires
            old(self).wf(),
            ({
                let ai = index_of_account(old(self).records@, account_id@);
                let stored_len: int = if ai >= 0 {
                    let t = old(self).records@[ai].table();
                    let bi = index_of_banner(t, banner_type);
                    if bi >= 0 {
                        t[bi].1.len() as int
                    } else {
                        0
                    }
                } else {
                    0
                };
                records@.len() + stored_len <= u32::MAX
            }),
        ensures
            final(self).wf(),
            ({
                let ai = index_of_account(old(self).records@, account_id@);
                let t0 = if ai >= 0 {
                    old(self).records@[ai].table()
                } else {
                    Seq::<(BannerType, Seq<RecordModel>)>::empty()
                };
                match r {
                    Ok(n) => {
                        &&& account_table_add(t0, banner_type, models(records@)) is Some
                        &&& ({
                            let p = account_table_add(t0, banner_type, models(records@))->Some_0;
                            &&& n as int == p.1
                            &&& (if ai >= 0 {
                                &&& final(self).records@.len() == old(self).records@.len()
                                &&& (forall|j: int|
                                    0 <= j < old(self).records@.len() && j != ai
                                        ==> final(self).records@[j] == old(self).records@[j])
                                &&& final(self).records@[ai].id@ == account_id@
                                &&& final(self).records@[ai].table() == p.0
                            } else {
                                &&& final(self).records@.len() == old(self).records@.len() + 1
                                &&& (forall|j: int|
                                    0 <= j < old(self).records@.len()
                                        ==> final(self).records@[j] == old(self).records@[j])
                                &&& final(self).records@.last().id@ == account_id@
                                &&& final(self).records@.last().table() == p.0
                            })
                        })
                    },
                    Err(e) => {
                        &&& e == ScanError::ReconciliationOrderViolation
                        &&& account_table_add(t0, banner_type, models(records@)) is None
                        &&& final(self).records@ == old(self).records@
                    },
                }
            }),
    {
        let ghost accounts = self.records@;
        match find_account(&self.records, &account_id) {
            Some(ai) => {
                proof {
                    lemma_index_of_account_at(accounts, account_id@, ai as int);
                }
                let mut acct = self.records.remove(ai);
                let res = acct.add_record(banner_type, records);
                self.records.insert(ai, acct);
                proof {
                    assert(self.records@ =~= accounts.update(ai as int, self.records@[ai as int]));
                    if res is Err {
                        assert(self.records@[ai as int] == accounts[ai as int]);
                        assert(self.records@ =~= accounts);
                    }
                }
                res
            },
            None => {
                proof {
                    lemma_index_of_account_none(accounts, account_id@);
                    crate::reconcile::lemma_merge_with_empty(
                        models(records@),
                        Seq::<RecordModel>::empty(),
                    );
                }
                let n = records.len();
                let mut lst: Vec<(BannerType, Vec<OneRecord>)> = Vec::new();
                lst.push((banner_type, records));
                let acct = OneAccountRecords { id: account_id, records: lst };
                self.records.push(acct);
                proof {
                    let t0 = Seq::<(BannerType, Seq<RecordModel>)>::empty();
                    assert(index_of_banner(t0, banner_type) == -1);
                    assert(self.records@.last().table() =~= t0.push(
                        (banner_type, models(self.records@.last().records@[0].1@)),
                    ));
                }
                Ok(n as u32)
            },
        }
    }
}

/// The position of the first account with the given identifier, scanned
/// forward.
fn find_account(list: &Vec<OneAccountRecords>, id: &String) -> (o: Option<usize>)
    ensures
        (match o {
            Some(i) => i < list@.len() && list@[i as int].id@ == id@ && (forall|j: int|
                0 <= j < i ==> (#[trigger] list@[j]).id@ != id@),
            None => forall|j: int| 0 <= j < list@.len() ==> (#[trigger] list@[j]).id@ != id@,
        }),
{
    let mut i: usize = 0;
    while i < list.len()
        invariant
            i <= list@.len(),
            forall|j: int| 0 <= j < i ==> (#[trigger] list@[j]).id@ != id@,
        decreases list@.len() - i,
    {
        if list[i].id == *id {
            return Some(i);
        }
        i += 1;
    }
    None
}

/// The position of the first entry with banner `b`, scanned forward.
fn find_banner(list: &Vec<(BannerType, Vec<OneRecord>)>, b: BannerType) -> (o: Option<usize>)
    ensures
        (match o {
            Some(i) => i < list@.len() && list@[i as int].0 == b && (forall|j: int|
                0 <= j < i ==> (#[trigger] list@[j]).0 != b),
            None => forall|j: int| 0 <= j < list@.len() ==> (#[trigger] list@[j]).0 != b,
        }),
{
    let mut i: usize = 0;
    while i < list.len()
        invariant
            i <= list@.len(),
            forall|j: int| 0 <= j < i ==> (#[trigger] list@[j]).0 != b,
        decreases list@.len() - i,
    {
        if list[i].0 == b {
            return Some(i);
        }
        i += 1;
    }
    None
}

} // verus!
