//! The normalizer: from one page of source-agnostic food entries to the bulk
//! upserts that persist it.
//!
//! Persisting a page takes two phases. Phase A collects the four dimension
//! sets (sources, categories, nutrients, units) for `INSERT .. ON CONFLICT DO
//! NOTHING`; the caller then reads back each table's `name -> id` rows into an
//! `IdTable`. Phase B builds the food rows and, once their ids are read back
//! into a `FoodIdTable`, the food-nutrient rows, in chunks. When a food occurs
//! more than once in a page its last occurrence is the one persisted, and
//! within one entry the last reading of a nutrient wins, so that no bulk
//! statement touches a key twice.
use vstd::prelude::*;

use crate::models::{CreateFoodNutrientPayload, CreateFoodPayload, RowId};

verus! {

/// Most rows in one food-nutrient upsert statement.
pub const NUTRIENT_CHUNK_SIZE: usize = 1000;

/// One nutrient reading of a food entry. `value` is the bit pattern of the
/// `f32` reading, absent when the source gave none.
#[derive(Debug, Clone, PartialEq, Eq)]
pub struct FoodEntryNutrient {
    pub name: String,
    pub unit_name: String,
    pub value: Option<u32>,
}

/// One food of a fetched page, whatever the source.
#[derive(Debug, Clone, PartialEq, Eq)]
pub struct FoodEntry {
    /// Name of the providing source.
    pub source: String,
    /// The source's own identifier of the food.
    pub id: i32,
    pub name: String,
    /// WWEIA category `(code, name)`, when the source gave both.
    pub wweia: Option<(i32, String)>,
    pub fndds_code: Option<i32>,
    pub nutrients: Vec<FoodEntryNutrient>,
}

/// The value persisted for a reading: a missing value becomes `0.0`, whose
/// bit pattern is `0`.
pub open spec fn stored_value(n: FoodEntryNutrient) -> u32 {
    match n.value {
        Some(v) => v,
        None => 0,
    }
}

/// The names held by a list of strings.
pub open spec fn names_of(v: Seq<String>) -> Set<Seq<char>> {
    Set::new(|n: Seq<char>| exists|i: int| 0 <= i < v.len() && #[trigger] v[i]@ == n)
}

pub open spec fn distinct_names(v: Seq<String>) -> bool {
    forall|i: int, j: int| 0 <= i < v.len() && 0 <= j < v.len() && i != j ==> #[trigger] v[i]@ != #[trigger] v[j]@
}

/// Source names of a page.
pub open spec fn sources_of(p: Seq<FoodEntry>) -> Set<Seq<char>>
    decreases p.len(),
{
    if p.len() == 0 {
        Set::empty()
    } else {
        sources_of(p.drop_last()).insert(p.last().source@)
    }
}

/// Nutrient names of a list of readings.
pub open spec fn nutrient_names_in(ns: Seq<FoodEntryNutrient>) -> Set<Seq<char>>
    decreases ns.len(),
{
    if ns.len() == 0 {
        Set::empty()
    } else {
        nutrient_names_in(ns.drop_last()).insert(ns.last().name@)
    }
}

/// Unit names of a list of readings.
pub open spec fn unit_names_in(ns: Seq<FoodEntryNutrient>) -> Set<Seq<char>>
    decreases ns.len(),
{
    if ns.len() == 0 {
        Set::empty()
    } else {
        unit_names_in(ns.drop_last()).insert(ns.last().unit_name@)
    }
}

/// Nutrient names of a page.
pub open spec fn nutrient_names_of(p: Seq<FoodEntry>) -> Set<Seq<char>>
    decreases p.len(),
{
    if p.len() == 0 {
        Set::empty()
    } else {
        nutrient_names_of(p.drop_last()).union(nutrient_names_in(p.last().nutrients@))
    }
}

/// Unit names of a page.
pub open spec fn unit_names_of(p: Seq<FoodEntry>) -> Set<Seq<char>>
    decreases p.len(),
{
    if p.len() == 0 {
        Set::empty()
    } else {
        unit_names_of(p.drop_last()).union(unit_names_in(p.last().nutrients@))
    }
}

/// The code the page gives the category `name`: that of its first
/// occurrence, if it occurs.
pub open spec fn category_code(p: Seq<FoodEntry>, name: Seq<char>) -> Option<i32>
    decreases p.len(),
{
    if p.len() == 0 {
        None
    } else {
        match category_code(p.drop_last(), name) {
            Some(c) => Some(c),
            None => match p.last().wweia {
                Some((c, n)) => if n@ == name {
                    Some(c)
                } else {
                    None
                },
                None => None,
            },
        }
    }
}

/// The dimension rows of one page, each list free of repeated names.
pub struct PageDimensions {
    pub sources: Vec<String>,
    /// `(code, name)` of each category, with the code of its first occurrence.
    pub categories: Vec<(i32, String)>,
    pub nutrients: Vec<String>,
    pub units: Vec<String>,
}

pub open spec fn category_names(c: Seq<(i32, String)>) -> Set<Seq<char>> {
    Set::new(|n: Seq<char>| exists|i: int| 0 <= i < c.len() && #[trigger] c[i].1@ == n)
}

pub open spec fn categories_match(c: Seq<(i32, String)>, p: Seq<FoodEntry>) -> bool {
    &&& forall|i: int, j: int|
        0 <= i < c.len() && 0 <= j < c.len() && i != j ==> #[trigger] c[i].1@ != #[trigger] c[j].1@
    &&& forall|n: Seq<char>| #[trigger] category_names(c).contains(n) <==> category_code(p, n) is Some
    &&& forall|i: int| 0 <= i < c.len() ==> category_code(p, #[trigger] c[i].1@) == Some(c[i].0)
}

impl PageDimensions {
    /// Whether all four lists are empty: phase A then writes nothing.
    pub open spec fn is_empty_spec(&self) -> bool {
        &&& self.sources@.len() == 0
        &&& self.categories@.len() == 0
        &&& self.nutrients@.len() == 0
        &&& self.units@.len() == 0
    }
}

/// Whether `v` holds the name `s`.
fn contains_name(v: &Vec<String>, s: &String) -> (r: bool)
    ensures
        r == names_of(v@).contains(s@),
{
    let mut i: usize = 0;
    while i < v.len()
        invariant
            i <= v.len(),
            forall|j: int| 0 <= j < i ==> v@[j]@ != s@,
        decreases v.len() - i,
    {
        if v[i] == *s {
            assert(v@[i as int]@ == s@);
            return true;
        }
        i = i + 1;
    }
    false
}

/// Adds the name `s` to `v` unless it is there already.
fn add_name(v: &mut Vec<String>, s: &String)
    requires
        distinct_names(old(v)@),
    ensures
        distinct_names(final(v)@),
        names_of(final(v)@) == names_of(old(v)@).insert(s@),
{
    if !contains_name(v, s) {
        let ghost old_v = v@;
        v.push(s.clone());
        assert(v@[old_v.len() as int]@ == s@);
        assert forall|n: Seq<char>| names_of(v@).contains(n) <==> names_of(old_v).insert(s@).contains(n) by {
            if names_of(old_v).contains(n) {
                let i = choose|i: int| 0 <= i < old_v.len() && #[trigger] old_v[i]@ == n;
                assert(v@[i]@ == n);
            }
            if names_of(v@).contains(n) {
                let i = choose|i: int| 0 <= i < v@.len() && #[trigger] v@[i]@ == n;
                if i < old_v.len() {
                    assert(old_v[i]@ == n);
                }
            }
        }
        assert(names_of(v@) =~= names_of(old_v).insert(s@));
    } else {
        assert(names_of(v@) =~= names_of(v@).insert(s@));
    }
}

/// Whether `c` holds a category named `name`.
fn contains_category(c: &Vec<(i32, String)>, name: &String) -> (r: bool)
    ensures
        r == category_names(c@).contains(name@),
{
    let mut i: usize = 0;
    while i < c.len()
        invariant
            i <= c.len(),
            forall|j: int| 0 <= j < i ==> c@[j].1@ != name@,
        decreases c.len() - i,
    {
        if c[i].1 == *name {
            assert(c@[i as int].1@ == name@);
            return true;
        }
        i = i + 1;
    }
    false
}

proof fn lemma_take_step<T>(p: Seq<T>, i: int)
    requires
        0 <= i < p.len(),
    ensures
        p.take(i + 1).drop_last() == p.take(i),
        p.take(i + 1).last() == p[i],
        p.take(i + 1).len() == i + 1,
{
    assert(p.take(i + 1).drop_last() =~= p.take(i));
}

/// Collects the dimension rows of a page (phase A).
pub fn collect_dimensions(entries: &Vec<FoodEntry>) -> (r: PageDimensions)
    ensures
        distinct_names(r.sources@),
        names_of(r.sources@) == sources_of(entries@),
        categories_match(r.categories@, entries@),
        distinct_names(r.nutrients@),
        names_of(r.nutrients@) == nutrient_names_of(entries@),
        distinct_names(r.units@),
        names_of(r.units@) == unit_names_of(entries@),
        entries@.len() == 0 ==> r.is_empty_spec(),
{
    let mut sources: Vec<String> = Vec::new();
    let mut categories: Vec<(i32, String)> = Vec::new();
    let mut nutrients: Vec<String> = Vec::new();
    let mut units: Vec<String> = Vec::new();
    let ghost p = entries@;
    assert(names_of(sources@) =~= Set::empty());
    assert(names_of(nutrients@) =~= Set::empty());
    assert(names_of(units@) =~= Set::empty());
    assert(p.take(0) =~= Seq::<FoodEntry>::empty());
    let mut i: usize = 0;
    while i < entries.len()
        invariant
            p == entries@,
            i <= p.len(),
            distinct_names(sources@),
            names_of(sources@) == sources_of(p.take(i as int)),
            categories_match(categories@, p.take(i as int)),
            distinct_names(nutrients@),
            names_of(nutrients@) == nutrient_names_of(p.take(i as int)),
            distinct_names(units@),
            names_of(units@) == unit_names_of(p.take(i as int)),
        decreases p.len() - i,
    {
        let entry = &entries[i];
        proof {
            lemma_take_step(p, i as int);
        }
        add_name(&mut sources, &entry.source);
        match &entry.wweia {
            Some((code, name)) => {
                if !contains_category(&categories, name) {
                    let ghost old_c = categories@;
                    categories.push((*code, name.clone()));
                    proof {
                        let c = categories@;
                        let q = p.take(i + 1);
                        assert(c[old_c.len() as int].1@ == name@);
                        assert forall|n: Seq<char>| #[trigger] category_names(c).contains(n)
                            <==> category_code(q, n) is Some by {
                            if category_names(c).contains(n) {
                                let k = choose|k: int| 0 <= k < c.len() && #[trigger] c[k].1@ == n;
                                if k < old_c.len() {
                                    assert(category_names(old_c).contains(n));
                                }
                            }
                            if category_names(old_c).contains(n) {
                                let k = choose|k: int| 0 <= k < old_c.len() && #[trigger] old_c[k].1@ == n;
                                assert(c[k].1@ == n);
                            }
                        }
                        assert forall|k: int| 0 <= k < c.len() implies category_code(q, #[trigger] c[k].1@)
                            == Some(c[k].0) by {
                            if k < old_c.len() {
                                assert(c[k] == old_c[k]);
                            } else {
                                assert(category_code(p.take(i as int), name@) is None);
                            }
                        }
                        assert forall|a: int, b: int|
                            0 <= a < c.len() && 0 <= b < c.len() && a != b implies #[trigger] c[a].1@
                            != #[trigger] c[b].1@ by {
                            if a < old_c.len() && b == old_c.len() {
                                assert(category_names(old_c).contains(old_c[a].1@));
                            }
                            if b < old_c.len() && a == old_c.len() {
                                assert(category_names(old_c).contains(old_c[b].1@));
                            }
                        }
                    }
                } else {
                    proof {
                        let c = categories@;
                        let q = p.take(i + 1);
                        assert forall|n: Seq<char>| #[trigger] category_names(c).contains(n)
                            <==> category_code(q, n) is Some by {}
                        assert forall|k: int| 0 <= k < c.len() implies category_code(q, #[trigger] c[k].1@)
                            == Some(c[k].0) by {
                            assert(category_names(c).contains(c[k].1@));
                        }
                    }
                }
            },
            None => {
                proof {
                    let c = categories@;
                    let q = p.take(i + 1);
                    assert forall|n: Seq<char>| #[trigger] category_names(c).contains(n)
                        <==> category_code(q, n) is Some by {}
                    assert forall|k: int| 0 <= k < c.len() implies category_code(q, #[trigger] c[k].1@)
                        == Some(c[k].0) by {
                        assert(category_names(c).contains(c[k].1@));
                    }
                }
            },
        }
        let ghost ns = entry.nutrients@;
        let ghost before_n = names_of(nutrients@);
        let ghost before_u = names_of(units@);
        assert(ns.take(0) =~= Seq::<FoodEntryNutrient>::empty());
        assert(before_n.union(nutrient_names_in(ns.take(0))) =~= before_n);
        assert(before_u.union(unit_names_in(ns.take(0))) =~= before_u);
        let mut j: usize = 0;
        while j < entry.nutrients.len()
            invariant
                ns == entry.nutrients@,
                j <= ns.len(),
                distinct_names(nutrients@),
                names_of(nutrients@) == before_n.union(nutrient_names_in(ns.take(j as int))),
                distinct_names(units@),
                names_of(units@) == before_u.union(unit_names_in(ns.take(j as int))),
            decreases ns.len() - j,
        {
            proof {
                lemma_take_step(ns, j as int);
            }
            add_name(&mut nutrients, &entry.nutrients[j].name);
            add_name(&mut units, &entry.nutrients[j].unit_name);
            proof {
                assert(names_of(nutrients@) =~= before_n.union(nutrient_names_in(ns.take(j + 1))));
                assert(names_of(units@) =~= before_u.union(unit_names_in(ns.take(j + 1))));
            }
            j = j + 1;
        }
        proof {
            assert(ns.take(ns.len() as int) =~= ns);
        }
        i = i + 1;
    }
    proof {
        assert(p.take(p.len() as int) =~= p);
        if p.len() == 0 {
            if sources@.len() > 0 {
                assert(names_of(sources@).contains(sources@[0]@));
            }
            if categories@.len() > 0 {
                assert(category_names(categories@).contains(categories@[0].1@));
            }
            if nutrients@.len() > 0 {
                assert(names_of(nutrients@).contains(nutrients@[0]@));
            }
            if units@.len() > 0 {
                assert(names_of(units@).contains(units@[0]@));
            }
        }
    }
    PageDimensions { sources, categories, nutrients, units }
}

/// The `name -> id` rows of a dimension table, as read back after phase A.
pub struct IdTable {
    pub rows: Vec<(String, RowId)>,
}

/// The id of the first row named `name`.
pub open spec fn id_lookup(rows: Seq<(String, RowId)>, name: Seq<char>) -> Option<RowId>
    decreases rows.len(),
{
    if rows.len() == 0 {
        None
    } else if rows[0].0@ == name {
        Some(rows[0].1)
    } else {
        id_lookup(rows.drop_first(), name)
    }
}

impl IdTable {
    pub fn new(rows: Vec<(String, RowId)>) -> (r: IdTable)
        ensures
            r.rows == rows,
    {
        IdTable { rows }
    }

    /// The id of the row named `name`, if any.
    pub fn get(&self, name: &String) -> (r: Option<RowId>)
        ensures
            r == id_lookup(self.rows@, name@),
    {
        let ghost rows = self.rows@;
        let mut i: usize = 0;
        assert(rows.subrange(0, rows.len() as int) =~= rows);
        while i < self.rows.len()
            invariant
                rows == self.rows@,
                i <= rows.len(),
                id_lookup(rows, name@) == id_lookup(rows.subrange(i as int, rows.len() as int), name@),
            decreases rows.len() - i,
        {
            assert(rows.subrange(i as int, rows.len() as int).drop_first() =~= rows.subrange(
                i + 1,
                rows.len() as int,
            ));
            if self.rows[i].0 == *name {
                return Some(self.rows[i].1);
            }
            i = i + 1;
        }
        None
    }
}

/// The `(source name, external id) -> food id` rows read back after the
/// food upsert.
pub struct FoodIdTable {
    pub rows: Vec<(String, i32, RowId)>,
}

/// The id of the first food row of `source` with `external_id`.
pub open spec fn food_id_lookup(rows: Seq<(String, i32, RowId)>, source: Seq<char>, external_id: i32) -> Option<
    RowId,
>
    decreases rows.len(),
{
    if rows.len() == 0 {
        None
    } else if rows[0].0@ == source && rows[0].1 == external_id {
        Some(rows[0].2)
    } else {
        food_id_lookup(rows.drop_first(), source, external_id)
    }
}

impl FoodIdTable {
    pub fn new(rows: Vec<(String, i32, RowId)>) -> (r: FoodIdTable)
        ensures
            r.rows == rows,
    {
        FoodIdTable { rows }
    }

    /// The id of the food of `source` with `external_id`, if any.
    pub fn get(&self, source: &String, external_id: i32) -> (r: Option<RowId>)
        ensures
            r == food_id_lookup(self.rows@, source@, external_id),
    {
        let ghost rows = self.rows@;
        let mut i: usize = 0;
        assert(rows.subrange(0, rows.len() as int) =~= rows);
        while i < self.rows.len()
            invariant
                rows == self.rows@,
                i <= rows.len(),
                food_id_lookup(rows, source@, external_id) == food_id_lookup(
                    rows.subrange(i as int, rows.len() as int),
                    source@,
                    external_id,
                ),
            decreases rows.len() - i,
        {
            assert(rows.subrange(i as int, rows.len() as int).drop_first() =~= rows.subrange(
                i + 1,
                rows.len() as int,
            ));
            if self.rows[i].0 == *source && self.rows[i].1 == external_id {
                return Some(self.rows[i].2);
            }
            i = i + 1;
        }
        None
    }
}

/// Whether a later entry of the page is the same food.
pub open spec fn superseded(p: Seq<FoodEntry>, i: int) -> bool {
    exists|j: int| i < j < p.len() && #[trigger] p[j].source@ == p[i].source@ && p[j].id == p[i].id
}

/// The entries among the first `n` of the page that are the last occurrence
/// of their food, in page order.
pub open spec fn kept_entries(p: Seq<FoodEntry>, n: int) -> Seq<FoodEntry>
    decreases n,
{
    if n <= 0 {
        Seq::empty()
    } else if superseded(p, n - 1) {
        kept_entries(p, n - 1)
    } else {
        kept_entries(p, n - 1).push(p[n - 1])
    }
}

/// The last occurrence of each food of the page, in page order.
pub open spec fn latest_entries(p: Seq<FoodEntry>) -> Seq<FoodEntry> {
    kept_entries(p, p.len() as int)
}

/// Whether a later reading of the entry is for the same nutrient.
pub open spec fn nutrient_superseded(ns: Seq<FoodEntryNutrient>, j: int) -> bool {
    exists|k: int| j < k < ns.len() && #[trigger] ns[k].name@ == ns[j].name@
}

pub open spec fn kept_nutrients(ns: Seq<FoodEntryNutrient>, n: int) -> Seq<FoodEntryNutrient>
    decreases n,
{
    if n <= 0 {
        Seq::empty()
    } else if nutrient_superseded(ns, n - 1) {
        kept_nutrients(ns, n - 1)
    } else {
        kept_nutrients(ns, n - 1).push(ns[n - 1])
    }
}

/// The last reading of each nutrient of an entry, in order.
pub open spec fn latest_nutrients(ns: Seq<FoodEntryNutrient>) -> Seq<FoodEntryNutrient> {
    kept_nutrients(ns, ns.len() as int)
}

/// The food row of an entry, if its source has an id.
pub open spec fn food_payload(
    e: FoodEntry,
    sources: Seq<(String, RowId)>,
    categories: Seq<(String, RowId)>,
) -> Option<CreateFoodPayload> {
    match id_lookup(sources, e.source@) {
        None => None,
        Some(source_id) => Some(
            CreateFoodPayload {
                name: e.name,
                fndds_code: e.fndds_code,
                source_id,
                external_id: e.id,
                wweia_category: match e.wweia {
                    Some((_, name)) => id_lookup(categories, name@),
                    None => None,
                },
            },
        ),
    }
}

/// The food rows of a list of entries; `None` if a source has no id.
pub open spec fn food_rows(
    q: Seq<FoodEntry>,
    sources: Seq<(String, RowId)>,
    categories: Seq<(String, RowId)>,
) -> Option<Seq<CreateFoodPayload>>
    decreases q.len(),
{
    if q.len() == 0 {
        Some(Seq::empty())
    } else {
        match (food_rows(q.drop_last(), sources, categories), food_payload(q.last(), sources, categories)) {
            (Some(rows), Some(row)) => Some(rows.push(row)),
            _ => None,
        }
    }
}

/// The food-nutrient row of one reading, if its nutrient and unit have ids.
pub open spec fn nutrient_payload(
    food_id: RowId,
    source_id: RowId,
    n: FoodEntryNutrient,
    nutrients: Seq<(String, RowId)>,
    units: Seq<(String, RowId)>,
) -> Option<CreateFoodNutrientPayload> {
    match (id_lookup(nutrients, n.name@), id_lookup(units, n.unit_name@)) {
        (Some(nutrient_id), Some(unit_id)) => Some(
            CreateFoodNutrientPayload { food_id, nutrient_id, unit_id, source_id, value: stored_value(n) },
        ),
        _ => None,
    }
}

pub open spec fn reading_rows(
    ns: Seq<FoodEntryNutrient>,
    food_id: RowId,
    source_id: RowId,
    nutrients: Seq<(String, RowId)>,
    units: Seq<(String, RowId)>,
) -> Option<Seq<CreateFoodNutrientPayload>>
    decreases ns.len(),
{
    if ns.len() == 0 {
        Some(Seq::empty())
    } else {
        match (
            reading_rows(ns.drop_last(), food_id, source_id, nutrients, units),
            nutrient_payload(food_id, source_id, ns.last(), nutrients, units),
        ) {
            (Some(rows), Some(row)) => Some(rows.push(row)),
            _ => None,
        }
    }
}

/// The food-nutrient rows of one entry: one per nutrient, from its last
/// reading; `None` if the food, its source, a nutrient or a unit has no id.
pub open spec fn entry_nutrient_rows(
    e: FoodEntry,
    foods: Seq<(String, i32, RowId)>,
    sources: Seq<(String, RowId)>,
    nutrients: Seq<(String, RowId)>,
    units: Seq<(String, RowId)>,
) -> Option<Seq<CreateFoodNutrientPayload>> {
    match (food_id_lookup(foods, e.source@, e.id), id_lookup(sources, e.source@)) {
        (Some(food_id), Some(source_id)) => reading_rows(
            latest_nutrients(e.nutrients@),
            food_id,
            source_id,
            nutrients,
            units,
        ),
        _ => None,
    }
}

pub open spec fn food_nutrient_rows(
    q: Seq<FoodEntry>,
    foods: Seq<(String, i32, RowId)>,
    sources: Seq<(String, RowId)>,
    nutrients: Seq<(String, RowId)>,
    units: Seq<(String, RowId)>,
) -> Option<Seq<CreateFoodNutrientPayload>>
    decreases q.len(),
{
    if q.len() == 0 {
        Some(Seq::empty())
    } else {
        match (
            food_nutrient_rows(q.drop_last(), foods, sources, nutrients, units),
            entry_nutrient_rows(q.last(), foods, sources, nutrients, units),
        ) {
            (Some(rows), Some(more)) => Some(rows + more),
            _ => None,
        }
    }
}

/// Whether entry `i` is followed by another occurrence of the same food.
fn is_superseded(entries: &Vec<FoodEntry>, i: usize) -> (r: bool)
    requires
        i < entries.len(),
    ensures
        r == superseded(entries@, i as int),
{
    let mut j: usize = i + 1;
    while j < entries.len()
        invariant
            i < j <= entries@.len(),
            forall|k: int|
                i < k < j ==> !(#[trigger] entries@[k].source@ == entries@[i as int].source@
                    && entries@[k].id == entries@[i as int].id),
        decreases entries@.len() - j,
    {
        if entries[j].source == entries[i].source && entries[j].id == entries[i].id {
            assert(entries@[j as int].source@ == entries@[i as int].source@);
            return true;
        }
        j = j + 1;
    }
    false
}

/// Whether reading `j` is followed by another reading of the same nutrient.
fn is_nutrient_superseded(ns: &Vec<FoodEntryNutrient>, j: usize) -> (r: bool)
    requires
        j < ns.len(),
    ensures
        r == nutrient_superseded(ns@, j as int),
{
    let mut k: usize = j + 1;
    while k < ns.len()
        invariant
            j < k <= ns@.len(),
            forall|m: int| j < m < k ==> #[trigger] ns@[m].name@ != ns@[j as int].name@,
        decreases ns@.len() - k,
    {
        if ns[k].name == ns[j].name {
            assert(ns@[k as int].name@ == ns@[j as int].name@);
            return true;
        }
        k = k + 1;
    }
    false
}

/// The food rows of a page (phase B, first step), one per food, from its last
/// occurrence. `None` if a source has no id in `sources`.
pub fn build_food_rows(entries: &Vec<FoodEntry>, sources: &IdTable, categories: &IdTable) -> (r:
    Option<Vec<CreateFoodPayload>>)
    ensures
        match r {
            Some(rows) => food_rows(latest_entries(entries@), sources.rows@, categories.rows@) == Some(
                rows@,
            ),
            None => food_rows(latest_entries(entries@), sources.rows@, categories.rows@) is None,
        },
{
    let ghost p = entries@;
    let ghost srcs = sources.rows@;
    let ghost cats = categories.rows@;
    let mut rows: Vec<CreateFoodPayload> = Vec::new();
    let mut ok = true;
    let mut i: usize = 0;
    while i < entries.len()
        invariant
            p == entries@,
            srcs == sources.rows@,
            cats == categories.rows@,
            i <= p.len(),
            ok ==> food_rows(kept_entries(p, i as int), srcs, cats) == Some(rows@),
            !ok ==> food_rows(kept_entries(p, i as int), srcs, cats) is None,
        decreases p.len() - i,
    {
        if !is_superseded(entries, i) {
            let entry = &entries[i];
            assert(kept_entries(p, i + 1) == kept_entries(p, i as int).push(p[i as int]));
            assert(kept_entries(p, i + 1).drop_last() =~= kept_entries(p, i as int));
            match sources.get(&entry.source) {
                None => {
                    ok = false;
                },
                Some(source_id) => {
                    let wweia_category = match &entry.wweia {
                        Some((_, name)) => categories.get(name),
                        None => None,
                    };
                    let row = CreateFoodPayload::new(
                        entry.name.clone(),
                        entry.fndds_code,
                        source_id,
                        entry.id,
                        wweia_category,
                    );
                    rows.push(row);
                },
            }
        }
        i = i + 1;
    }
    if ok {
        Some(rows)
    } else {
        None
    }
}

/// The food-nutrient rows of one entry, appended to `rows`.
fn push_reading_rows(
    rows: &mut Vec<CreateFoodNutrientPayload>,
    entry: &FoodEntry,
    food_id: RowId,
    source_id: RowId,
    nutrients: &IdTable,
    units: &IdTable,
) -> (ok: bool)
    ensures
        old(rows)@.len() <= final(rows)@.len(),
        ok ==> reading_rows(latest_nutrients(entry.nutrients@), food_id, source_id, nutrients.rows@, units.rows@)
            == Some(final(rows)@.subrange(old(rows)@.len() as int, final(rows)@.len() as int)),
        ok ==> final(rows)@.subrange(0, old(rows)@.len() as int) == old(rows)@,
        !ok ==> reading_rows(latest_nutrients(entry.nutrients@), food_id, source_id, nutrients.rows@, units.rows@) is None,
{
    let ghost ns = entry.nutrients@;
    let ghost start = rows@;
    let mut ok = true;
    let mut j: usize = 0;
    assert(rows@.subrange(start.len() as int, rows@.len() as int) =~= Seq::<CreateFoodNutrientPayload>::empty());
    while j < entry.nutrients.len()
        invariant
            ns == entry.nutrients@,
            j <= ns.len(),
            start.len() <= rows@.len(),
            rows@.subrange(0, start.len() as int) == start,
            ok ==> reading_rows(kept_nutrients(ns, j as int), food_id, source_id, nutrients.rows@, units.rows@)
                == Some(rows@.subrange(start.len() as int, rows@.len() as int)),
            !ok ==> reading_rows(kept_nutrients(ns, j as int), food_id, source_id, nutrients.rows@, units.rows@) is None,
        decreases ns.len() - j,
    {
        if !is_nutrient_superseded(&entry.nutrients, j) {
            let n = &entry.nutrients[j];
            assert(kept_nutrients(ns, j + 1).drop_last() =~= kept_nutrients(ns, j as int));
            match (nutrients.get(&n.name), units.get(&n.unit_name)) {
                (Some(nutrient_id), Some(unit_id)) => {
                    let value = match n.value {
                        Some(v) => v,
                        None => 0,
                    };
                    let ghost before = rows@;
                    rows.push(CreateFoodNutrientPayload::new(food_id, nutrient_id, unit_id, source_id, value));
                    assert(rows@.subrange(start.len() as int, rows@.len() as int) =~= before.subrange(
                        start.len() as int,
                        before.len() as int,
                    ).push(rows@.last()));
                    assert(rows@.subrange(0, start.len() as int) =~= before.subrange(0, start.len() as int));
                },
                _ => {
                    ok = false;
                },
            }
        }
        j = j + 1;
    }
    ok
}

/// The food-nutrient rows of a page (phase B, second step): for each food's
/// last occurrence, one row per nutrient from its last reading, with a
/// missing value stored as `0.0`. `None` if a food, source, nutrient or unit
/// has no id in the tables read back.
pub fn build_food_nutrient_rows(
    entries: &Vec<FoodEntry>,
    foods: &FoodIdTable,
    sources: &IdTable,
    nutrients: &IdTable,
    units: &IdTable,
) -> (r: Option<Vec<CreateFoodNutrientPayload>>)
    ensures
        match r {
            Some(rows) => food_nutrient_rows(
                latest_entries(entries@),
                foods.rows@,
                sources.rows@,
                nutrients.rows@,
                units.rows@,
            ) == Some(rows@),
            None => food_nutrient_rows(
                latest_entries(entries@),
                foods.rows@,
                sources.rows@,
                nutrients.rows@,
                units.rows@,
            ) is None,
        },
{
    let ghost p = entries@;
    let mut rows: Vec<CreateFoodNutrientPayload> = Vec::new();
    let mut ok = true;
    let mut i: usize = 0;
    while i < entries.len()
        invariant
            p == entries@,
            i <= p.len(),
            ok ==> food_nutrient_rows(kept_entries(p, i as int), foods.rows@, sources.rows@, nutrients.rows@, units.rows@)
                == Some(rows@),
            !ok ==> food_nutrient_rows(kept_entries(p, i as int), foods.rows@, sources.rows@, nutrients.rows@, units.rows@)
                is None,
        decreases p.len() - i,
    {
        if !is_superseded(entries, i) {
            let entry = &entries[i];
            assert(kept_entries(p, i + 1).drop_last() =~= kept_entries(p, i as int));
            match (foods.get(&entry.source, entry.id), sources.get(&entry.source)) {
                (Some(food_id), Some(source_id)) => {
                    let ghost before = rows@;
                    let pushed = push_reading_rows(&mut rows, entry, food_id, source_id, nutrients, units);
                    if pushed {
                        assert(rows@ =~= before + rows@.subrange(before.len() as int, rows@.len() as int));
                    } else {
                        ok = false;
                    }
                },
                _ => {
                    ok = false;
                },
            }
        }
        i = i + 1;
    }
    if ok {
        Some(rows)
    } else {
        None
    }
}

/// The rows of a list of chunks, in order.
pub open spec fn concat_chunks(c: Seq<Vec<CreateFoodNutrientPayload>>) -> Seq<CreateFoodNutrientPayload>
    decreases c.len(),
{
    if c.len() == 0 {
        Seq::empty()
    } else {
        concat_chunks(c.drop_last()) + c.last()@
    }
}

/// Splits rows into the statements that upsert them: chunks of exactly
/// `NUTRIENT_CHUNK_SIZE` rows but the last, which holds the rest (at least
/// one row), holding the rows in order.
pub fn chunk_rows(rows: &Vec<CreateFoodNutrientPayload>) -> (r: Vec<Vec<CreateFoodNutrientPayload>>)
    ensures
        concat_chunks(r@) == rows@,
        forall|k: int| 0 <= k < r@.len() ==> 0 < (#[trigger] r@[k])@.len() <= NUTRIENT_CHUNK_SIZE,
        forall|k: int| 0 <= k < r@.len() - 1 ==> (#[trigger] r@[k])@.len() == NUTRIENT_CHUNK_SIZE,
{
    let mut chunks: Vec<Vec<CreateFoodNutrientPayload>> = Vec::new();
    let mut current: Vec<CreateFoodNutrientPayload> = Vec::new();
    let mut i: usize = 0;
    while i < rows.len()
        invariant
            i <= rows@.len(),
            concat_chunks(chunks@) + current@ == rows@.take(i as int),
            current@.len() < NUTRIENT_CHUNK_SIZE,
            forall|k: int| 0 <= k < chunks@.len() ==> (#[trigger] chunks@[k])@.len() == NUTRIENT_CHUNK_SIZE,
        decreases rows@.len() - i,
    {
        let ghost before = current@;
        current.push(rows[i]);
        assert(rows@.take(i + 1) =~= rows@.take(i as int).push(rows@[i as int]));
        assert(concat_chunks(chunks@) + current@ =~= (concat_chunks(chunks@) + before).push(rows@[i as int]));
        if current.len() == NUTRIENT_CHUNK_SIZE {
            let ghost old_chunks = chunks@;
            chunks.push(current);
            current = Vec::new();
            assert(chunks@.drop_last() =~= old_chunks);
            assert(concat_chunks(chunks@) + current@ =~= concat_chunks(chunks@));
        }
        i = i + 1;
    }
    if current.len() > 0 {
        let ghost old_chunks = chunks@;
        let ghost last = current@;
        chunks.push(current);
        assert(chunks@.drop_last() =~= old_chunks);
        assert(concat_chunks(chunks@) =~= concat_chunks(old_chunks) + last);
    } else {
        assert(concat_chunks(chunks@) + current@ =~= concat_chunks(chunks@));
    }
    assert(rows@.take(rows@.len() as int) =~= rows@);
    chunks
}

} // verus!
