use vstd::prelude::*;
use crate::map::MapId;

verus! {

/// Relationship between one character and another.
#[derive(Clone, Copy, PartialEq, Eq, Structural, Debug)]
pub enum Relationship {
    ALLY,
    FRIENDLY,
    NEUTRAL,
    HOSTILE,
}

/// Character attributes, computed from base parameters and other factors.
#[derive(Clone, Copy, PartialEq, Eq, Structural, Debug)]
pub struct CharaAttributes {
    /// Max HP
    pub max_hp: i32,
    /// Strength
    pub str: u16,
    /// Vitality
    pub vit: u16,
    /// Dexterity
    pub dex: u16,
    /// Intelligence
    pub int: u16,
    /// Will
    pub wil: u16,
    /// Charisma
    pub cha: u16,
    /// Speed
    pub spd: u16,
    /// Range of view in tiles
    pub view_range: i32,
}

impl Default for CharaAttributes {
    fn default() -> (r: CharaAttributes)
        ensures
            r == (CharaAttributes {
                max_hp: 0,
                str: 0,
                vit: 0,
                dex: 0,
                int: 0,
                wil: 0,
                cha: 0,
                spd: 0,
                view_range: 0,
            }),
    {
        CharaAttributes {
            max_hp: 0,
            str: 0,
            vit: 0,
            dex: 0,
            int: 0,
            wil: 0,
            cha: 0,
            spd: 0,
            view_range: 0,
        }
    }
}

/// Base attributes of a character template.
#[derive(Clone, Copy, PartialEq, Eq, Structural, Debug)]
pub struct CharaBaseAttr {
    pub base_hp: i32,
    pub str: i16,
    pub vit: i16,
    pub dex: i16,
    pub int: i16,
    pub wil: i16,
    pub cha: i16,
    pub spd: i16,
}

/// A change applied to base attributes.
#[derive(Clone, Copy, PartialEq, Eq, Structural, Debug)]
pub struct CharaAttrRevision {
    pub hp: i32,
    pub str: i16,
    pub vit: i16,
    pub dex: i16,
    pub int: i16,
    pub wil: i16,
    pub cha: i16,
    pub spd: i16,
}

pub open spec fn fits_i16(v: int) -> bool {
    i16::MIN <= v <= i16::MAX
}

impl CharaBaseAttr {
    /// Every field of `self` and `r` added pairwise can be represented.
    pub open spec fn can_revise(self, r: CharaAttrRevision) -> bool {
        &&& i32::MIN <= self.base_hp + r.hp <= i32::MAX
        &&& fits_i16(self.str + r.str)
        &&& fits_i16(self.vit + r.vit)
        &&& fits_i16(self.dex + r.dex)
        &&& fits_i16(self.int + r.int)
        &&& fits_i16(self.wil + r.wil)
        &&& fits_i16(self.cha + r.cha)
        &&& fits_i16(self.spd + r.spd)
    }

    /// Adds a revision to every field.
    pub fn revise(self, r: CharaAttrRevision) -> (res: CharaBaseAttr)
        requires
            self.can_revise(r),
        ensures
            res.base_hp == self.base_hp + r.hp,
            res.str == self.str + r.str,
            res.vit == self.vit + r.vit,
            res.dex == self.dex + r.dex,
            res.int == self.int + r.int,
            res.wil == self.wil + r.wil,
            res.cha == self.cha + r.cha,
            res.spd == self.spd + r.spd,
    {
        CharaBaseAttr {
            base_hp: self.base_hp + r.hp,
            str: self.str + r.str,
            vit: self.vit + r.vit,
            dex: self.dex + r.dex,
            int: self.int + r.int,
            wil: self.wil + r.wil,
            cha: self.cha + r.cha,
            spd: self.spd + r.spd,
        }
    }
}

/// The three kinds of character identity.
#[derive(Clone, Copy, PartialEq, Eq, Structural, Debug)]
pub enum CharaKind {
    /// The player is the unique character of the game.
    Player,
    /// Bound to one site; citizens of a town use this kind.
    OnSite,
    /// Bound to one map; randomly generated characters use this kind.
    OnMap,
}

/// A persistent settlement or dungeon.
#[derive(Clone, Copy, PartialEq, Eq, Structural, Hash, Debug)]
pub enum SiteId {
    Start,
    AutoGenDungeon { n: u32 },
    Town { n: u32 },
    Other { n: u32 },
}

/// The identity of a character, the only key by which it is addressed.
#[derive(Clone, Copy, PartialEq, Eq, Structural, Hash, Debug)]
pub enum CharaId {
    /// The player is the unique character of the game.
    Player,
    /// Bound to one site; `n` is unique within that site.
    OnSite { sid: SiteId, n: u32 },
    /// Bound to one map; `n` is unique within that map.
    OnMap { mid: MapId, n: u32 },
}

impl CharaId {
    pub fn kind(&self) -> (r: CharaKind)
        ensures
            r == (match *self {
                CharaId::Player => CharaKind::Player,
                CharaId::OnSite { .. } => CharaKind::OnSite,
                CharaId::OnMap { .. } => CharaKind::OnMap,
            }),
    {
        match *self {
            CharaId::Player => CharaKind::Player,
            CharaId::OnSite { .. } => CharaKind::OnSite,
            CharaId::OnMap { .. } => CharaKind::OnMap,
        }
    }
}

/// When a character is talked to, talk starts from this section of a script.
#[derive(Clone, PartialEq, Eq, Debug)]
pub struct CharaTalk {
    /// Id of the script object
    pub id: String,
    /// Section of the script
    pub section: String,
}

#[derive(Copy, Clone, PartialEq, Eq, Structural, PartialOrd, Ord, Debug)]
pub struct Morale(pub i8);

impl Default for Morale {
    fn default() -> (r: Morale)
        ensures
            r == Morale(0),
    {
        Morale(0)
    }
}

/// The record kept for one character.
#[derive(Clone, Debug)]
pub struct Chara {
    pub name: Option<String>,
    pub attr: CharaAttributes,
    pub level: u32,
    pub hp: i32,
    pub morale: Morale,
    /// Relationship to the player character
    pub rel: Relationship,
    /// Script executed when this character is talked to
    pub trigger_talk: Option<String>,
}

impl Default for Chara {
    fn default() -> (r: Chara)
        ensures
            r.name is None,
            r.attr == (CharaAttributes {
                max_hp: 0,
                str: 0,
                vit: 0,
                dex: 0,
                int: 0,
                wil: 0,
                cha: 0,
                spd: 0,
                view_range: 0,
            }),
            r.level == 0,
            r.hp == 100,
            r.morale == Morale(0),
            r.rel == Relationship::NEUTRAL,
            r.trigger_talk is None,
    {
        Chara {
            name: None,
            attr: CharaAttributes::default(),
            level: 0,
            hp: 100,
            morale: Morale::default(),
            rel: Relationship::NEUTRAL,
            trigger_talk: None,
        }
    }
}

pub open spec fn keys_unique(s: Seq<(CharaId, Chara)>) -> bool {
    forall|i: int, j: int| 0 <= i < j < s.len() ==> s[i].0 != s[j].0
}

pub open spec fn has_key(s: Seq<(CharaId, Chara)>, k: CharaId) -> bool {
    exists|i: int| 0 <= i < s.len() && s[i].0 == k
}

pub open spec fn index_of_key(s: Seq<(CharaId, Chara)>, k: CharaId) -> int {
    choose|i: int| 0 <= i < s.len() && s[i].0 == k
}

/// The map that a sequence of entries with unique keys stands for.
pub open spec fn table_view(s: Seq<(CharaId, Chara)>) -> Map<CharaId, Chara> {
    Map::new(|k: CharaId| has_key(s, k), |k: CharaId| s[index_of_key(s, k)].1)
}

proof fn lemma_index_of_key(s: Seq<(CharaId, Chara)>, i: int)
    requires
        keys_unique(s),
        0 <= i < s.len(),
    ensures
        has_key(s, s[i].0),
        index_of_key(s, s[i].0) == i,
        table_view(s).contains_key(s[i].0),
        table_view(s)[s[i].0] == s[i].1,
{
    assert(0 <= i < s.len() && s[i].0 == s[i].0);
    let j = index_of_key(s, s[i].0);
    if j < i {
        assert(s[j].0 != s[i].0);
    } else if i < j {
        assert(s[i].0 != s[j].0);
    }
}

proof fn lemma_view_update(s: Seq<(CharaId, Chara)>, i: int, v: Chara)
    requires
        keys_unique(s),
        0 <= i < s.len(),
    ensures
        keys_unique(s.update(i, (s[i].0, v))),
        table_view(s.update(i, (s[i].0, v))) == table_view(s).insert(s[i].0, v),
{
    let t = s.update(i, (s[i].0, v));
    assert(forall|j: int| 0 <= j < s.len() ==> #[trigger] t[j].0 == s[j].0);
    assert forall|k: CharaId| has_key(t, k) == has_key(s, k) by {
        if has_key(s, k) {
            let j = choose|j: int| 0 <= j < s.len() && s[j].0 == k;
            assert(t[j].0 == k);
        }
        if has_key(t, k) {
            let j = choose|j: int| 0 <= j < t.len() && t[j].0 == k;
            assert(s[j].0 == k);
        }
    }
    assert forall|k: CharaId| #[trigger] has_key(t, k) implies table_view(t)[k] == table_view(
        s,
    ).insert(s[i].0, v)[k] by {
        let j = choose|j: int| 0 <= j < t.len() && t[j].0 == k;
        lemma_index_of_key(t, j);
        lemma_index_of_key(s, j);
    }
    assert(table_view(t) =~= table_view(s).insert(s[i].0, v));
}

proof fn lemma_view_push(s: Seq<(CharaId, Chara)>, k: CharaId, v: Chara)
    requires
        keys_unique(s),
        !has_key(s, k),
    ensures
        keys_unique(s.push((k, v))),
        table_view(s.push((k, v))) == table_view(s).insert(k, v),
{
    let t = s.push((k, v));
    assert forall|a: int, b: int| 0 <= a < b < t.len() implies t[a].0 != t[b].0 by {
        if b == s.len() {
            assert(s[a].0 != k);
        }
    }
    assert forall|k2: CharaId| has_key(t, k2) == (has_key(s, k2) || k2 == k) by {
        if has_key(s, k2) {
            let j = choose|j: int| 0 <= j < s.len() && s[j].0 == k2;
            assert(t[j].0 == k2);
        }
        if k2 == k {
            assert(t[s.len() as int].0 == k2);
        }
    }
    assert forall|k2: CharaId| #[trigger] has_key(t, k2) implies table_view(t)[k2]
        == table_view(s).insert(k, v)[k2] by {
        let j = choose|j: int| 0 <= j < t.len() && t[j].0 == k2;
        lemma_index_of_key(t, j);
        if j < s.len() {
            lemma_index_of_key(s, j);
        }
    }
    assert(table_view(t) =~= table_view(s).insert(k, v));
}

proof fn lemma_view_remove(s: Seq<(CharaId, Chara)>, i: int)
    requires
        keys_unique(s),
        0 <= i < s.len(),
    ensures
        keys_unique(s.remove(i)),
        table_view(s.remove(i)) == table_view(s).remove(s[i].0),
{
    let t = s.remove(i);
    assert(forall|j: int| 0 <= j < i ==> #[trigger] t[j] == s[j]);
    assert(forall|j: int| i <= j < t.len() ==> #[trigger] t[j] == s[j + 1]);
    assert forall|a: int, b: int| 0 <= a < b < t.len() implies t[a].0 != t[b].0 by {
        if a < i && b < i {
        } else if a < i {
            assert(t[b] == s[b + 1]);
        } else {
            assert(t[a] == s[a + 1]);
            assert(t[b] == s[b + 1]);
        }
    }
    assert forall|k2: CharaId| has_key(t, k2) == (has_key(s, k2) && k2 != s[i].0) by {
        if has_key(s, k2) && k2 != s[i].0 {
            let j = choose|j: int| 0 <= j < s.len() && s[j].0 == k2;
            if j < i {
                assert(t[j].0 == k2);
            } else {
                assert(j != i);
                assert(t[j - 1] == s[j]);
            }
        }
        if has_key(t, k2) {
            let j = choose|j: int| 0 <= j < t.len() && t[j].0 == k2;
            if j < i {
                assert(s[j].0 == k2);
                assert(s[j].0 != s[i].0);
            } else {
                assert(s[j + 1].0 == k2);
                assert(s[i].0 != s[j + 1].0);
            }
        }
    }
    assert forall|k2: CharaId| #[trigger] has_key(t, k2) implies table_view(t)[k2]
        == table_view(s).remove(s[i].0)[k2] by {
        let j = choose|j: int| 0 <= j < t.len() && t[j].0 == k2;
        lemma_index_of_key(t, j);
        if j < i {
            lemma_index_of_key(s, j);
        } else {
            lemma_index_of_key(s, j + 1);
        }
    }
    assert(table_view(t) =~= table_view(s).remove(s[i].0));
}

/// One partition of the character store: identities mapped to records.
pub struct CharaTable {
    entries: Vec<(CharaId, Chara)>,
}

impl View for CharaTable {
    type V = Map<CharaId, Chara>;

    closed spec fn view(&self) -> Map<CharaId, Chara> {
        table_view(self.entries@)
    }
}

impl CharaTable {
    /// No identity is stored twice.
    pub closed spec fn wf(&self) -> bool {
        keys_unique(self.entries@)
    }

    pub fn new() -> (r: CharaTable)
        ensures
            r.wf(),
            r@ == Map::<CharaId, Chara>::empty(),
    {
        let r = CharaTable { entries: Vec::new() };
        assert(r@ =~= Map::<CharaId, Chara>::empty());
        r
    }

    fn find(&self, k: CharaId) -> (r: Option<usize>)
        requires
            self.wf(),
        ensures
            match r {
                Some(i) => i < self.entries@.len() && self.entries@[i as int].0 == k,
                None => !has_key(self.entries@, k),
            },
    {
        let mut i: usize = 0;
        while i < self.entries.len()
            invariant
                i <= self.entries@.len(),
                forall|j: int| 0 <= j < i ==> self.entries@[j].0 != k,
            decreases self.entries@.len() - i,
        {
            if self.entries[i].0 == k {
                return Some(i);
            }
            i = i + 1;
        }
        None
    }

    pub fn contains(&self, k: CharaId) -> (r: bool)
        requires
            self.wf(),
        ensures
            r == self@.contains_key(k),
    {
        self.find(k).is_some()
    }

    /// Stores `v` under `k`, replacing what was stored there.
    pub fn insert(&mut self, k: CharaId, v: Chara)
        requires
            old(self).wf(),
        ensures
            final(self).wf(),
            final(self)@ == old(self)@.insert(k, v),
    {
        match self.find(k) {
            Some(i) => {
                proof {
                    lemma_view_update(self.entries@, i as int, v);
                }
                self.entries.set(i, (k, v));
            },
            None => {
                proof {
                    lemma_view_push(self.entries@, k, v);
                }
                self.entries.push((k, v));
            },
        }
    }

    pub fn get(&self, k: CharaId) -> (r: Option<&Chara>)
        requires
            self.wf(),
        ensures
            r is Some == self@.contains_key(k),
            r is Some ==> *r->0 == self@[k],
    {
        match self.find(k) {
            Some(i) => {
                proof {
                    lemma_index_of_key(self.entries@, i as int);
                }
                Some(&self.entries[i].1)
            },
            None => None,
        }
    }

    pub fn get_mut(&mut self, k: CharaId) -> (r: &mut Chara)
        requires
            old(self).wf(),
            old(self)@.contains_key(k),
        ensures
            *r == old(self)@[k],
            final(self).wf(),
            final(self)@ == old(self)@.insert(k, *final(r)),
    {
        let i = match self.find(k) {
            Some(i) => i,
            None => {
                proof {
                    assert(false);
                }
                0
            },
        };
        proof {
            lemma_index_of_key(self.entries@, i as int);
            assert forall|v: Chara|
                #![trigger old(self).entries@.update(i as int, (k, v))]
                keys_unique(old(self).entries@.update(i as int, (k, v)))
                && table_view(old(self).entries@.update(i as int, (k, v)))
                == old(self)@.insert(k, v) by {
                lemma_view_update(old(self).entries@, i as int, v);
            }
        }
        &mut self.entries[i].1
    }

    /// Takes out what is stored under `k`.
    pub fn remove(&mut self, k: CharaId) -> (r: Option<Chara>)
        requires
            old(self).wf(),
        ensures
            final(self).wf(),
            final(self)@ == old(self)@.remove(k),
            r == (if old(self)@.contains_key(k) {
                Some(old(self)@[k])
            } else {
                None::<Chara>
            }),
    {
        match self.find(k) {
            Some(i) => {
                proof {
                    lemma_index_of_key(self.entries@, i as int);
                    lemma_view_remove(self.entries@, i as int);
                }
                let (_, c) = self.entries.remove(i);
                Some(c)
            },
            None => {
                assert(self@ =~= self@.remove(k));
                None
            },
        }
    }

    /// Every identity stored here is bound to a map.
    pub fn only_on_map(&self) -> (r: bool)
        requires
            self.wf(),
        ensures
            r == (forall|k: CharaId| #[trigger] self@.contains_key(k) ==> k is OnMap),
    {
        let mut i: usize = 0;
        while i < self.entries.len()
            invariant
                self.wf(),
                i <= self.entries@.len(),
                forall|j: int| 0 <= j < i ==> self.entries@[j].0 is OnMap,
            decreases self.entries@.len() - i,
        {
            if !matches!(self.entries[i].0, CharaId::OnMap { .. }) {
                proof {
                    lemma_index_of_key(self.entries@, i as int);
                    assert(self@.contains_key(self.entries@[i as int].0));
                }
                return false;
            }
            i = i + 1;
        }
        assert forall|k: CharaId| #[trigger] self@.contains_key(k) implies k is OnMap by {
            let j = choose|j: int| 0 <= j < self.entries@.len() && self.entries@[j].0 == k;
        }
        true
    }
}

/// The character store: on-map identities in one partition, all others in
/// the other. Lookups are routed by the identity's variant.
pub struct CharaHolder {
    c: CharaTable,
    on_map: CharaTable,
}

impl CharaHolder {
    pub closed spec fn wf(&self) -> bool {
        &&& self.c.wf()
        &&& self.on_map.wf()
        &&& forall|k: CharaId| #[trigger] self.on_map@.contains_key(k) ==> k is OnMap
        &&& forall|k: CharaId| #[trigger] self.c@.contains_key(k) ==> !(k is OnMap)
    }

    /// The partition of identities bound to a map.
    pub closed spec fn on_map_view(&self) -> Map<CharaId, Chara> {
        self.on_map@
    }

    /// The partition of every other identity.
    pub closed spec fn general_view(&self) -> Map<CharaId, Chara> {
        self.c@
    }

    /// The partition that an identity is routed to.
    pub open spec fn partition_of(&self, cid: CharaId) -> Map<CharaId, Chara> {
        if cid is OnMap {
            self.on_map_view()
        } else {
            self.general_view()
        }
    }

    /// Whether a character is stored under `cid`.
    pub open spec fn holds(&self, cid: CharaId) -> bool {
        self.partition_of(cid).contains_key(cid)
    }

    /// The record stored under `cid`.
    pub open spec fn record(&self, cid: CharaId) -> Chara {
        self.partition_of(cid)[cid]
    }

    pub fn new() -> (r: CharaHolder)
        ensures
            r.wf(),
            r.on_map_view() == Map::<CharaId, Chara>::empty(),
            r.general_view() == Map::<CharaId, Chara>::empty(),
    {
        CharaHolder { c: CharaTable::new(), on_map: CharaTable::new() }
    }

    /// Stores a character in the partition its identity is routed to.
    pub fn add(&mut self, cid: CharaId, chara: Chara)
        requires
            old(self).wf(),
        ensures
            final(self).wf(),
            cid is OnMap ==> final(self).on_map_view() == old(self).on_map_view().insert(cid, chara)
                && final(self).general_view() == old(self).general_view(),
            !(cid is OnMap) ==> final(self).general_view() == old(self).general_view().insert(
                cid,
                chara,
            ) && final(self).on_map_view() == old(self).on_map_view(),
    {
        if matches!(cid, CharaId::OnMap { .. }) {
            self.on_map.insert(cid, chara);
        } else {
            self.c.insert(cid, chara);
        }
    }

    /// The record stored under `cid`; asking for an identity that is not
    /// stored is a programming error.
    pub fn get(&self, cid: CharaId) -> (r: &Chara)
        requires
            self.wf(),
            self.holds(cid),
        ensures
            *r == self.record(cid),
    {
        let found = if matches!(cid, CharaId::OnMap { .. }) {
            self.on_map.get(cid)
        } else {
            self.c.get(cid)
        };
        match found {
            Some(c) => c,
            None => {
                proof {
                    assert(false);
                }
                self.c.get(cid).unwrap()
            },
        }
    }

    pub fn get_mut(&mut self, cid: CharaId) -> (r: &mut Chara)
        requires
            old(self).wf(),
            old(self).holds(cid),
        ensures
            *r == old(self).record(cid),
            final(self).wf(),
            cid is OnMap ==> final(self).on_map_view() == old(self).on_map_view().insert(
                cid,
                *final(r),
            ) && final(self).general_view() == old(self).general_view(),
            !(cid is OnMap) ==> final(self).general_view() == old(self).general_view().insert(
                cid,
                *final(r),
            ) && final(self).on_map_view() == old(self).on_map_view(),
    {
        if matches!(cid, CharaId::OnMap { .. }) {
            self.on_map.get_mut(cid)
        } else {
            self.c.get_mut(cid)
        }
    }

    /// Removes the character stored under `cid`, if any.
    pub fn remove_chara(&mut self, cid: CharaId)
        requires
            old(self).wf(),
        ensures
            final(self).wf(),
            cid is OnMap ==> final(self).on_map_view() == old(self).on_map_view().remove(cid)
                && final(self).general_view() == old(self).general_view(),
            !(cid is OnMap) ==> final(self).general_view() == old(self).general_view().remove(cid)
                && final(self).on_map_view() == old(self).on_map_view(),
    {
        if matches!(cid, CharaId::OnMap { .. }) {
            let _ = self.on_map.remove(cid);
        } else {
            let _ = self.c.remove(cid);
        }
    }

    /// Installs `next` as the on-map partition in one step and hands back
    /// the partition it displaces.
    pub fn replace_on_map_chara(&mut self, next: CharaTable) -> (r: CharaTable)
        requires
            old(self).wf(),
            next.wf(),
            forall|k: CharaId| #[trigger] next@.contains_key(k) ==> k is OnMap,
        ensures
            final(self).wf(),
            r.wf(),
            r@ == old(self).on_map_view(),
            final(self).on_map_view() == next@,
            final(self).general_view() == old(self).general_view(),
    {
        let mut next = next;
        std::mem::swap(&mut self.on_map, &mut next);
        next
    }
}

/// After the on-map partition is replaced by `next`, the partition handed
/// back holds exactly what the store held before, on-map identities are
/// looked up in `next` alone, and all other identities as before.
pub proof fn lemma_partition_swap(
    before: CharaHolder,
    after: CharaHolder,
    next: CharaTable,
    returned: CharaTable,
    cid: CharaId,
)
    requires
        before.wf(),
        returned@ == before.on_map_view(),
        after.on_map_view() == next@,
        after.general_view() == before.general_view(),
    ensures
        cid is OnMap ==> returned@.contains_key(cid) == before.holds(cid),
        cid is OnMap && before.holds(cid) ==> returned@[cid] == before.record(cid),
        cid is OnMap ==> after.holds(cid) == next@.contains_key(cid),
        cid is OnMap && after.holds(cid) ==> after.record(cid) == next@[cid],
        !(cid is OnMap) ==> after.holds(cid) == before.holds(cid),
        !(cid is OnMap) && after.holds(cid) ==> after.record(cid) == before.record(cid),
{
}

} // verus!
