//! What persisting pages does to the stored rows, keyed by their natural
//! unique keys.
//!
//! The database enforces the uniqueness keys and the upsert rules; this module
//! states their effect. Dimension inserts do nothing on conflict, so a stored
//! category keeps its code and a stored food-nutrient keeps its unit; food rows
//! and food-nutrient values are overwritten. Each page contributes a delta of
//! the same shape as the store, and the laws of ingestion (idempotence of
//! sweeps, referential closure, what a food row holds afterwards) are proved
//! over this model.
use vstd::prelude::*;

use crate::models::{CreateFoodPayload, RowId};
use crate::normalizer::{
    category_code, food_payload, food_rows, id_lookup, kept_entries, latest_entries, nutrient_names_in,
    nutrient_names_of, sources_of, stored_value, superseded, unit_names_in, unit_names_of, FoodEntry,
    FoodEntryNutrient,
};

verus! {

/// A stored food, as its columns read once ids are resolved to names.
pub struct FoodRow {
    pub name: Seq<char>,
    pub fndds_code: Option<i32>,
    /// Name of its WWEIA category.
    pub category: Option<Seq<char>>,
}

/// The stored rows. Foods are keyed by `(source, external id)`, food-nutrients
/// by `(source, external id, nutrient)`.
pub struct Store {
    pub sources: Set<Seq<char>>,
    /// Category name to code.
    pub categories: Map<Seq<char>, i32>,
    pub nutrients: Set<Seq<char>>,
    pub units: Set<Seq<char>>,
    pub foods: Map<(Seq<char>, i32), FoodRow>,
    pub nutrient_units: Map<(Seq<char>, i32, Seq<char>), Seq<char>>,
    pub nutrient_values: Map<(Seq<char>, i32, Seq<char>), u32>,
}

pub open spec fn food_key(e: FoodEntry) -> (Seq<char>, i32) {
    (e.source@, e.id)
}

pub open spec fn food_row(e: FoodEntry) -> FoodRow {
    FoodRow {
        name: e.name@,
        fndds_code: e.fndds_code,
        category: match e.wweia {
            Some((_, n)) => Some(n@),
            None => None,
        },
    }
}

pub open spec fn reading_key(e: FoodEntry, n: FoodEntryNutrient) -> (Seq<char>, i32, Seq<char>) {
    (e.source@, e.id, n.name@)
}

/// The food rows a page writes: the last occurrence of each food wins.
pub open spec fn food_delta(p: Seq<FoodEntry>) -> Map<(Seq<char>, i32), FoodRow>
    decreases p.len(),
{
    if p.len() == 0 {
        Map::empty()
    } else {
        food_delta(p.drop_last()).insert(food_key(p.last()), food_row(p.last()))
    }
}

/// The units of the readings of one entry: the last reading of a nutrient wins.
pub open spec fn reading_units(e: FoodEntry, ns: Seq<FoodEntryNutrient>) -> Map<
    (Seq<char>, i32, Seq<char>),
    Seq<char>,
>
    decreases ns.len(),
{
    if ns.len() == 0 {
        Map::empty()
    } else {
        reading_units(e, ns.drop_last()).insert(reading_key(e, ns.last()), ns.last().unit_name@)
    }
}

pub open spec fn reading_values(e: FoodEntry, ns: Seq<FoodEntryNutrient>) -> Map<
    (Seq<char>, i32, Seq<char>),
    u32,
>
    decreases ns.len(),
{
    if ns.len() == 0 {
        Map::empty()
    } else {
        reading_values(e, ns.drop_last()).insert(reading_key(e, ns.last()), stored_value(ns.last()))
    }
}

/// The food-nutrient units written for a list of entries.
pub open spec fn units_delta(q: Seq<FoodEntry>) -> Map<(Seq<char>, i32, Seq<char>), Seq<char>>
    decreases q.len(),
{
    if q.len() == 0 {
        Map::empty()
    } else {
        units_delta(q.drop_last()).union_prefer_right(reading_units(q.last(), q.last().nutrients@))
    }
}

/// The food-nutrient values written for a list of entries.
pub open spec fn values_delta(q: Seq<FoodEntry>) -> Map<(Seq<char>, i32, Seq<char>), u32>
    decreases q.len(),
{
    if q.len() == 0 {
        Map::empty()
    } else {
        values_delta(q.drop_last()).union_prefer_right(reading_values(q.last(), q.last().nutrients@))
    }
}

/// What one page writes. The food-nutrients come from the last occurrence of
/// each food, as the normalizer builds them.
pub open spec fn page_delta(p: Seq<FoodEntry>) -> Store {
    Store {
        sources: sources_of(p),
        categories: Map::new(
            |n: Seq<char>| category_code(p, n) is Some,
            |n: Seq<char>| category_code(p, n)->0,
        ),
        nutrients: nutrient_names_of(p),
        units: unit_names_of(p),
        foods: food_delta(p),
        nutrient_units: units_delta(latest_entries(p)),
        nutrient_values: values_delta(latest_entries(p)),
    }
}

/// The store after the writes `d`: inserts that do nothing on conflict keep
/// what is stored, upserts overwrite it.
pub open spec fn apply(s: Store, d: Store) -> Store {
    Store {
        sources: s.sources.union(d.sources),
        categories: d.categories.union_prefer_right(s.categories),
        nutrients: s.nutrients.union(d.nutrients),
        units: s.units.union(d.units),
        foods: s.foods.union_prefer_right(d.foods),
        nutrient_units: d.nutrient_units.union_prefer_right(s.nutrient_units),
        nutrient_values: s.nutrient_values.union_prefer_right(d.nutrient_values),
    }
}

/// The writes `d1` followed by the writes `d2`, as one set of writes.
pub open spec fn compose(d1: Store, d2: Store) -> Store {
    Store {
        sources: d1.sources.union(d2.sources),
        categories: d2.categories.union_prefer_right(d1.categories),
        nutrients: d1.nutrients.union(d2.nutrients),
        units: d1.units.union(d2.units),
        foods: d1.foods.union_prefer_right(d2.foods),
        nutrient_units: d2.nutrient_units.union_prefer_right(d1.nutrient_units),
        nutrient_values: d1.nutrient_values.union_prefer_right(d2.nutrient_values),
    }
}

pub open spec fn empty_store() -> Store {
    Store {
        sources: Set::empty(),
        categories: Map::empty(),
        nutrients: Set::empty(),
        units: Set::empty(),
        foods: Map::empty(),
        nutrient_units: Map::empty(),
        nutrient_values: Map::empty(),
    }
}

/// Persisting one page.
pub open spec fn ingest(s: Store, p: Seq<FoodEntry>) -> Store {
    apply(s, page_delta(p))
}

/// Persisting the pages of a sweep, in order.
pub open spec fn sweep(s: Store, pages: Seq<Seq<FoodEntry>>) -> Store
    decreases pages.len(),
{
    if pages.len() == 0 {
        s
    } else {
        ingest(sweep(s, pages.drop_last()), pages.last())
    }
}

/// All the writes of a sweep, as one set of writes.
pub open spec fn sweep_delta(pages: Seq<Seq<FoodEntry>>) -> Store
    decreases pages.len(),
{
    if pages.len() == 0 {
        empty_store()
    } else {
        compose(sweep_delta(pages.drop_last()), page_delta(pages.last()))
    }
}

/// Every stored reference points at a stored row.
pub open spec fn closed(s: Store) -> bool {
    &&& s.nutrient_units.dom() == s.nutrient_values.dom()
    &&& forall|k: (Seq<char>, i32)| #[trigger] s.foods.contains_key(k) ==> {
        &&& s.sources.contains(k.0)
        &&& (s.foods[k].category matches Some(c) ==> s.categories.contains_key(c))
    }
    &&& forall|k: (Seq<char>, i32, Seq<char>)| #[trigger] s.nutrient_units.contains_key(k) ==> {
        &&& s.foods.contains_key((k.0, k.1))
        &&& s.sources.contains(k.0)
        &&& s.nutrients.contains(k.2)
        &&& s.units.contains(s.nutrient_units[k])
    }
}

proof fn lemma_apply_compose(s: Store, d1: Store, d2: Store)
    ensures
        apply(apply(s, d1), d2) == apply(s, compose(d1, d2)),
{
    let l = apply(apply(s, d1), d2);
    let r = apply(s, compose(d1, d2));
    assert(l.sources =~= r.sources);
    assert(l.categories =~= r.categories);
    assert(l.nutrients =~= r.nutrients);
    assert(l.units =~= r.units);
    assert(l.foods =~= r.foods);
    assert(l.nutrient_units =~= r.nutrient_units);
    assert(l.nutrient_values =~= r.nutrient_values);
}

proof fn lemma_apply_empty(s: Store)
    ensures
        apply(s, empty_store()) == s,
{
    let r = apply(s, empty_store());
    assert(r.sources =~= s.sources);
    assert(r.categories =~= s.categories);
    assert(r.nutrients =~= s.nutrients);
    assert(r.units =~= s.units);
    assert(r.foods =~= s.foods);
    assert(r.nutrient_units =~= s.nutrient_units);
    assert(r.nutrient_values =~= s.nutrient_values);
}

proof fn lemma_compose_self(d: Store)
    ensures
        compose(d, d) == d,
{
    let r = compose(d, d);
    assert(r.sources =~= d.sources);
    assert(r.categories =~= d.categories);
    assert(r.nutrients =~= d.nutrients);
    assert(r.units =~= d.units);
    assert(r.foods =~= d.foods);
    assert(r.nutrient_units =~= d.nutrient_units);
    assert(r.nutrient_values =~= d.nutrient_values);
}

proof fn lemma_sweep_is_apply(s: Store, pages: Seq<Seq<FoodEntry>>)
    ensures
        sweep(s, pages) == apply(s, sweep_delta(pages)),
    decreases pages.len(),
{
    if pages.len() == 0 {
        lemma_apply_empty(s);
    } else {
        lemma_sweep_is_apply(s, pages.drop_last());
        lemma_apply_compose(s, sweep_delta(pages.drop_last()), page_delta(pages.last()));
    }
}

/// Running a sweep again over the same pages leaves every table as the first
/// sweep left it.
pub proof fn lemma_sweep_idempotent(s: Store, pages: Seq<Seq<FoodEntry>>)
    ensures
        sweep(sweep(s, pages), pages) == sweep(s, pages),
{
    let d = sweep_delta(pages);
    lemma_sweep_is_apply(s, pages);
    lemma_sweep_is_apply(sweep(s, pages), pages);
    lemma_apply_compose(s, d, d);
    lemma_compose_self(d);
}

/// A page with no entries writes nothing.
pub proof fn lemma_empty_page_writes_nothing(s: Store)
    ensures
        ingest(s, Seq::<FoodEntry>::empty()) == s,
{
    let d = page_delta(Seq::<FoodEntry>::empty());
    assert(d.categories =~= Map::<Seq<char>, i32>::empty());
    assert(latest_entries(Seq::<FoodEntry>::empty()) =~= Seq::<FoodEntry>::empty());
    assert(d == empty_store());
    lemma_apply_empty(s);
}

proof fn lemma_sources_of(p: Seq<FoodEntry>, i: int)
    requires
        0 <= i < p.len(),
    ensures
        sources_of(p).contains(p[i].source@),
    decreases p.len(),
{
    if i < p.len() - 1 {
        lemma_sources_of(p.drop_last(), i);
    }
}

proof fn lemma_category_code(p: Seq<FoodEntry>, i: int)
    requires
        0 <= i < p.len(),
    ensures
        p[i].wweia matches Some((_, name)) ==> category_code(p, name@) is Some,
    decreases p.len(),
{
    if i < p.len() - 1 {
        lemma_category_code(p.drop_last(), i);
    }
}

proof fn lemma_names_in(ns: Seq<FoodEntryNutrient>, j: int)
    requires
        0 <= j < ns.len(),
    ensures
        nutrient_names_in(ns).contains(ns[j].name@),
        unit_names_in(ns).contains(ns[j].unit_name@),
    decreases ns.len(),
{
    if j < ns.len() - 1 {
        lemma_names_in(ns.drop_last(), j);
    }
}

proof fn lemma_names_of(p: Seq<FoodEntry>, i: int, j: int)
    requires
        0 <= i < p.len(),
        0 <= j < p[i].nutrients@.len(),
    ensures
        nutrient_names_of(p).contains(p[i].nutrients@[j].name@),
        unit_names_of(p).contains(p[i].nutrients@[j].unit_name@),
    decreases p.len(),
{
    if i < p.len() - 1 {
        lemma_names_of(p.drop_last(), i, j);
    } else {
        lemma_names_in(p[i].nutrients@, j);
    }
}

/// Each food row of a page comes from one of its entries.
proof fn lemma_food_delta(p: Seq<FoodEntry>, k: (Seq<char>, i32))
    requires
        food_delta(p).contains_key(k),
    ensures
        exists|i: int| 0 <= i < p.len() && food_key(p[i]) == k && food_delta(p)[k] == food_row(#[trigger] p[i]),
    decreases p.len(),
{
    if food_key(p.last()) != k {
        lemma_food_delta(p.drop_last(), k);
        let i = choose|i: int|
            0 <= i < p.len() - 1 && food_key(p.drop_last()[i]) == k && food_delta(p.drop_last())[k]
                == food_row(#[trigger] p.drop_last()[i]);
        assert(p[i] == p.drop_last()[i]);
    } else {
        assert(food_row(p[p.len() - 1]) == food_delta(p)[k]);
    }
}

proof fn lemma_food_delta_has(p: Seq<FoodEntry>, i: int)
    requires
        0 <= i < p.len(),
    ensures
        food_delta(p).contains_key(food_key(p[i])),
    decreases p.len(),
{
    if i < p.len() - 1 {
        lemma_food_delta_has(p.drop_last(), i);
    }
}

/// An entry that no later entry of the page supersedes is the food row
/// written.
proof fn lemma_food_delta_latest(p: Seq<FoodEntry>, i: int)
    requires
        0 <= i < p.len(),
        !superseded(p, i),
    ensures
        food_delta(p)[food_key(p[i])] == food_row(p[i]),
    decreases p.len(),
{
    if i < p.len() - 1 {
        let q = p.drop_last();
        assert(!superseded(q, i)) by {
            if superseded(q, i) {
                let j = choose|j: int| i < j < q.len() && #[trigger] q[j].source@ == q[i].source@ && q[j].id == q[i].id;
                assert(p[j].source@ == p[i].source@);
            }
        }
        lemma_food_delta_latest(q, i);
        assert(food_key(p.last()) != food_key(p[i])) by {
            let j = p.len() - 1;
            if food_key(p.last()) == food_key(p[i]) {
                assert(p[j].source@ == p[i].source@ && p[j].id == p[i].id);
            }
        }
    }
}

/// Each kept entry is an entry of the page.
proof fn lemma_kept_in_page(p: Seq<FoodEntry>, n: int, m: int)
    requires
        0 <= n <= p.len(),
        0 <= m < kept_entries(p, n).len(),
    ensures
        exists|i: int| 0 <= i < n && kept_entries(p, n)[m] == #[trigger] p[i],
    decreases n,
{
    if n > 0 {
        if superseded(p, n - 1) || m < kept_entries(p, n - 1).len() {
            lemma_kept_in_page(p, n - 1, m);
            let i = choose|i: int| 0 <= i < n - 1 && kept_entries(p, n - 1)[m] == #[trigger] p[i];
            assert(kept_entries(p, n)[m] == p[i]);
        } else {
            assert(kept_entries(p, n)[m] == p[n - 1]);
        }
    }
}

/// Each food-nutrient unit written comes from a reading of one of the entries.
proof fn lemma_reading_units(e: FoodEntry, ns: Seq<FoodEntryNutrient>, k: (Seq<char>, i32, Seq<char>))
    requires
        reading_units(e, ns).contains_key(k),
    ensures
        exists|j: int|
            0 <= j < ns.len() && reading_key(e, #[trigger] ns[j]) == k && reading_units(e, ns)[k]
                == ns[j].unit_name@,
        reading_values(e, ns).contains_key(k),
    decreases ns.len(),
{
    if reading_key(e, ns.last()) != k {
        lemma_reading_units(e, ns.drop_last(), k);
        let j = choose|j: int|
            0 <= j < ns.len() - 1 && reading_key(e, #[trigger] ns.drop_last()[j]) == k && reading_units(
                e,
                ns.drop_last(),
            )[k] == ns.drop_last()[j].unit_name@;
        assert(ns[j] == ns.drop_last()[j]);
    } else {
        let j = ns.len() - 1;
        assert(reading_key(e, ns[j]) == k);
    }
}

proof fn lemma_reading_values(e: FoodEntry, ns: Seq<FoodEntryNutrient>, k: (Seq<char>, i32, Seq<char>))
    requires
        reading_values(e, ns).contains_key(k),
    ensures
        reading_units(e, ns).contains_key(k),
    decreases ns.len(),
{
    if reading_key(e, ns.last()) != k {
        lemma_reading_values(e, ns.drop_last(), k);
    }
}

proof fn lemma_units_delta(q: Seq<FoodEntry>, k: (Seq<char>, i32, Seq<char>))
    requires
        units_delta(q).contains_key(k),
    ensures
        exists|i: int, j: int|
            0 <= i < q.len() && 0 <= j < q[i].nutrients@.len() && reading_key(q[i], q[i].nutrients@[j]) == k
                && #[trigger] units_delta(q)[k] == #[trigger] q[i].nutrients@[j].unit_name@,
        values_delta(q).contains_key(k),
    decreases q.len(),
{
    let e = q.last();
    if reading_units(e, e.nutrients@).contains_key(k) {
        lemma_reading_units(e, e.nutrients@, k);
        let j = choose|j: int|
            0 <= j < e.nutrients@.len() && reading_key(e, #[trigger] e.nutrients@[j]) == k && reading_units(
                e,
                e.nutrients@,
            )[k] == e.nutrients@[j].unit_name@;
        let i = q.len() - 1;
        assert(units_delta(q)[k] == q[i].nutrients@[j].unit_name@);
    } else {
        lemma_units_delta(q.drop_last(), k);
        let (i, j) = choose|i: int, j: int|
            0 <= i < q.len() - 1 && 0 <= j < q.drop_last()[i].nutrients@.len() && reading_key(
                q.drop_last()[i],
                q.drop_last()[i].nutrients@[j],
            ) == k && #[trigger] units_delta(q.drop_last())[k]
                == #[trigger] q.drop_last()[i].nutrients@[j].unit_name@;
        assert(q[i] == q.drop_last()[i]);
        assert(units_delta(q)[k] == q[i].nutrients@[j].unit_name@);
    }
}

proof fn lemma_values_delta(q: Seq<FoodEntry>, k: (Seq<char>, i32, Seq<char>))
    requires
        values_delta(q).contains_key(k),
    ensures
        units_delta(q).contains_key(k),
    decreases q.len(),
{
    let e = q.last();
    if reading_values(e, e.nutrients@).contains_key(k) {
        lemma_reading_values(e, e.nutrients@, k);
    } else {
        lemma_values_delta(q.drop_last(), k);
    }
}

/// The writes of one page reference only rows the page itself writes.
proof fn lemma_page_delta_closed(p: Seq<FoodEntry>)
    ensures
        closed(page_delta(p)),
{
    let d = page_delta(p);
    let q = latest_entries(p);
    assert forall|k: (Seq<char>, i32)| #[trigger] d.foods.contains_key(k) implies {
        &&& d.sources.contains(k.0)
        &&& (d.foods[k].category matches Some(c) ==> d.categories.contains_key(c))
    } by {
        lemma_food_delta(p, k);
        let i = choose|i: int| 0 <= i < p.len() && food_key(p[i]) == k && food_delta(p)[k] == food_row(#[trigger] p[i]);
        lemma_sources_of(p, i);
        lemma_category_code(p, i);
    }
    assert forall|k: (Seq<char>, i32, Seq<char>)| #[trigger] d.nutrient_units.contains_key(k) implies {
        &&& d.foods.contains_key((k.0, k.1))
        &&& d.sources.contains(k.0)
        &&& d.nutrients.contains(k.2)
        &&& d.units.contains(d.nutrient_units[k])
    } by {
        lemma_units_delta(q, k);
        let (m, j) = choose|m: int, j: int|
            0 <= m < q.len() && 0 <= j < q[m].nutrients@.len() && reading_key(q[m], q[m].nutrients@[j]) == k
                && #[trigger] units_delta(q)[k] == #[trigger] q[m].nutrients@[j].unit_name@;
        lemma_kept_in_page(p, p.len() as int, m);
        let i = choose|i: int| 0 <= i < p.len() && q[m] == #[trigger] p[i];
        lemma_food_delta_has(p, i);
        lemma_sources_of(p, i);
        lemma_names_of(p, i, j);
    }
    assert forall|k: (Seq<char>, i32, Seq<char>)| d.nutrient_units.dom().contains(k) <==> d.nutrient_values.dom().contains(k) by {
        if d.nutrient_units.contains_key(k) {
            lemma_units_delta(q, k);
        }
        if d.nutrient_values.contains_key(k) {
            lemma_values_delta(q, k);
        }
    }
    assert(d.nutrient_units.dom() =~= d.nutrient_values.dom());
}

proof fn lemma_apply_closed(s: Store, d: Store)
    requires
        closed(s),
        closed(d),
    ensures
        closed(apply(s, d)),
{
    let r = apply(s, d);
    assert(r.nutrient_units.dom() =~= r.nutrient_values.dom());
    assert forall|k: (Seq<char>, i32)| #[trigger] r.foods.contains_key(k) implies {
        &&& r.sources.contains(k.0)
        &&& (r.foods[k].category matches Some(c) ==> r.categories.contains_key(c))
    } by {
        if d.foods.contains_key(k) {
            assert(d.sources.contains(k.0));
        } else {
            assert(s.foods.contains_key(k));
        }
    }
    assert forall|k: (Seq<char>, i32, Seq<char>)| #[trigger] r.nutrient_units.contains_key(k) implies {
        &&& r.foods.contains_key((k.0, k.1))
        &&& r.sources.contains(k.0)
        &&& r.nutrients.contains(k.2)
        &&& r.units.contains(r.nutrient_units[k])
    } by {
        if s.nutrient_units.contains_key(k) {
            assert(s.foods.contains_key((k.0, k.1)));
        } else {
            assert(d.nutrient_units.contains_key(k));
            assert(d.foods.contains_key((k.0, k.1)));
        }
    }
}

/// Persisting pages into a store whose references all resolve leaves every
/// food-nutrient referencing a stored food, nutrient, unit and source, and
/// every food a stored source and category.
pub proof fn lemma_sweep_closed(s: Store, pages: Seq<Seq<FoodEntry>>)
    requires
        closed(s),
    ensures
        closed(sweep(s, pages)),
    decreases pages.len(),
{
    if pages.len() > 0 {
        lemma_sweep_closed(s, pages.drop_last());
        lemma_page_delta_closed(pages.last());
        lemma_apply_closed(sweep(s, pages.drop_last()), page_delta(pages.last()));
    }
}

/// After a page is persisted, the row of each food of the page (its last
/// occurrence) holds that entry's name, FNDDS code and category; the category
/// row holds the entry's code unless the category was stored before, or
/// appeared earlier in the page, under another code.
pub proof fn lemma_ingested_food(s: Store, p: Seq<FoodEntry>, i: int)
    requires
        0 <= i < p.len(),
        !superseded(p, i),
    ensures
        ingest(s, p).foods[food_key(p[i])] == food_row(p[i]),
        ingest(s, p).sources.contains(p[i].source@),
        p[i].wweia matches Some((code, name)) ==> {
            &&& ingest(s, p).categories.contains_key(name@)
            &&& (!s.categories.contains_key(name@) && category_code(p, name@) == Some(code))
                ==> ingest(s, p).categories[name@] == code
        },
{
    lemma_food_delta_latest(p, i);
    lemma_food_delta_has(p, i);
    lemma_sources_of(p, i);
    lemma_category_code(p, i);
}

/// Whether the food row `row`, with ids resolved through the tables read
/// back, is the stored food `stored` under key `key`.
pub open spec fn food_row_stores(
    row: CreateFoodPayload,
    key: (Seq<char>, i32),
    stored: FoodRow,
    sources: Seq<(String, RowId)>,
    categories: Seq<(String, RowId)>,
) -> bool {
    &&& id_lookup(sources, key.0) == Some(row.source_id)
    &&& row.external_id == key.1
    &&& row.name@ == stored.name
    &&& row.fndds_code == stored.fndds_code
    &&& row.wweia_category == match stored.category {
        Some(n) => id_lookup(categories, n),
        None => None,
    }
}

proof fn lemma_food_rows_shape(
    q: Seq<FoodEntry>,
    sources: Seq<(String, RowId)>,
    categories: Seq<(String, RowId)>,
    rows: Seq<CreateFoodPayload>,
)
    requires
        food_rows(q, sources, categories) == Some(rows),
    ensures
        rows.len() == q.len(),
        forall|m: int| 0 <= m < q.len() ==> food_payload(#[trigger] q[m], sources, categories) == Some(rows[m]),
    decreases q.len(),
{
    if q.len() > 0 {
        let prev = food_rows(q.drop_last(), sources, categories)->0;
        lemma_food_rows_shape(q.drop_last(), sources, categories, prev);
        assert(rows == prev.push(food_payload(q.last(), sources, categories)->0));
        assert forall|m: int| 0 <= m < q.len() implies food_payload(#[trigger] q[m], sources, categories)
            == Some(rows[m]) by {
            if m < q.len() - 1 {
                assert(q[m] == q.drop_last()[m]);
            }
        }
    }
}

/// The kept entries are exactly the entries no later entry supersedes.
proof fn lemma_kept_entries(p: Seq<FoodEntry>, n: int)
    requires
        0 <= n <= p.len(),
    ensures
        forall|m: int|
            #![trigger kept_entries(p, n)[m]]
            0 <= m < kept_entries(p, n).len() ==> exists|i: int|
                0 <= i < n && !superseded(p, i) && kept_entries(p, n)[m] == #[trigger] p[i],
        forall|i: int|
            0 <= i < n && !superseded(p, i) ==> exists|m: int|
                0 <= m < kept_entries(p, n).len() && #[trigger] kept_entries(p, n)[m] == p[i],
    decreases n,
{
    if n > 0 {
        lemma_kept_entries(p, n - 1);
        let prev = kept_entries(p, n - 1);
        let cur = kept_entries(p, n);
        assert forall|m: int| #![trigger cur[m]] 0 <= m < cur.len() implies exists|i: int|
            0 <= i < n && !superseded(p, i) && cur[m] == #[trigger] p[i] by {
            if m < prev.len() {
                assert(cur[m] == prev[m]);
                let i = choose|i: int| 0 <= i < n - 1 && !superseded(p, i) && prev[m] == #[trigger] p[i];
                assert(cur[m] == p[i]);
            } else {
                assert(cur[m] == p[n - 1]);
            }
        }
        assert forall|i: int| 0 <= i < n && !superseded(p, i) implies exists|m: int|
            0 <= m < cur.len() && #[trigger] cur[m] == p[i] by {
            if i < n - 1 {
                let m = choose|m: int| 0 <= m < prev.len() && #[trigger] prev[m] == p[i];
                assert(cur[m] == prev[m]);
            } else {
                assert(cur[prev.len() as int] == p[i]);
            }
        }
    }
}

/// Every food of the page has a last occurrence.
proof fn lemma_last_occurrence(p: Seq<FoodEntry>, i: int)
    requires
        0 <= i < p.len(),
    ensures
        exists|j: int| 0 <= j < p.len() && !superseded(p, j) && food_key(#[trigger] p[j]) == food_key(p[i]),
    decreases p.len() - i,
{
    if superseded(p, i) {
        let j = choose|j: int| i < j < p.len() && #[trigger] p[j].source@ == p[i].source@ && p[j].id == p[i].id;
        lemma_last_occurrence(p, j);
        let k = choose|k: int| 0 <= k < p.len() && !superseded(p, k) && food_key(#[trigger] p[k]) == food_key(p[j]);
        assert(food_key(p[k]) == food_key(p[i]));
    } else {
        assert(food_key(p[i]) == food_key(p[i]));
    }
}

/// Whether `row` stores one of the foods the page `p` writes.
pub open spec fn stores_a_page_food(
    p: Seq<FoodEntry>,
    row: CreateFoodPayload,
    sources: Seq<(String, RowId)>,
    categories: Seq<(String, RowId)>,
) -> bool {
    exists|k: (Seq<char>, i32)|
        food_delta(p).contains_key(k) && #[trigger] food_row_stores(row, k, food_delta(p)[k], sources, categories)
}

/// Whether some row of `rows` stores the food under `k` that page `p` writes.
pub open spec fn stored_by_a_row(
    p: Seq<FoodEntry>,
    rows: Seq<CreateFoodPayload>,
    k: (Seq<char>, i32),
    sources: Seq<(String, RowId)>,
    categories: Seq<(String, RowId)>,
) -> bool {
    exists|m: int| 0 <= m < rows.len() && #[trigger] food_row_stores(rows[m], k, food_delta(p)[k], sources, categories)
}

proof fn lemma_payload_stores(
    e: FoodEntry,
    sources: Seq<(String, RowId)>,
    categories: Seq<(String, RowId)>,
    row: CreateFoodPayload,
)
    requires
        food_payload(e, sources, categories) == Some(row),
    ensures
        food_row_stores(row, food_key(e), food_row(e), sources, categories),
{
}

#[verifier::rlimit(60)]
proof fn lemma_row_stores_a_food(
    p: Seq<FoodEntry>,
    sources: Seq<(String, RowId)>,
    categories: Seq<(String, RowId)>,
    rows: Seq<CreateFoodPayload>,
    m: int,
)
    requires
        food_rows(latest_entries(p), sources, categories) == Some(rows),
        0 <= m < rows.len(),
    ensures
        stores_a_page_food(p, rows[m], sources, categories),
{
    let n = p.len() as int;
    lemma_food_rows_shape(latest_entries(p), sources, categories, rows);
    lemma_kept_entries(p, n);
    let e = kept_entries(p, n)[m];
    let i = choose|i: int| 0 <= i < n && !superseded(p, i) && kept_entries(p, n)[m] == #[trigger] p[i];
    assert(food_payload(e, sources, categories) == Some(rows[m]));
    lemma_food_delta_latest(p, i);
    lemma_food_delta_has(p, i);
    lemma_payload_stores(p[i], sources, categories, rows[m]);
    let k = food_key(p[i]);
    assert(food_delta(p).contains_key(k) && food_row_stores(rows[m], k, food_delta(p)[k], sources, categories));
}

#[verifier::rlimit(60)]
proof fn lemma_food_has_a_row(
    p: Seq<FoodEntry>,
    sources: Seq<(String, RowId)>,
    categories: Seq<(String, RowId)>,
    rows: Seq<CreateFoodPayload>,
    k: (Seq<char>, i32),
)
    requires
        food_rows(latest_entries(p), sources, categories) == Some(rows),
        food_delta(p).contains_key(k),
    ensures
        stored_by_a_row(p, rows, k, sources, categories),
{
    let q = latest_entries(p);
    lemma_food_rows_shape(q, sources, categories, rows);
    lemma_kept_entries(p, p.len() as int);
    lemma_food_delta(p, k);
    let i0 = choose|i: int| 0 <= i < p.len() && food_key(p[i]) == k && food_delta(p)[k] == food_row(#[trigger] p[i]);
    lemma_last_occurrence(p, i0);
    let j = choose|j: int| 0 <= j < p.len() && !superseded(p, j) && food_key(#[trigger] p[j]) == food_key(p[i0]);
    lemma_food_delta_latest(p, j);
    let m = choose|m: int| 0 <= m < kept_entries(p, p.len() as int).len() && #[trigger] kept_entries(
        p,
        p.len() as int,
    )[m] == p[j];
    assert(q[m] == p[j]);
    assert(food_payload(q[m], sources, categories) == Some(rows[m]));
    lemma_payload_stores(p[j], sources, categories, rows[m]);
    assert(food_row_stores(rows[m], k, food_delta(p)[k], sources, categories));
}

/// The food rows the normalizer builds for a page are the food rows the
/// model says the page writes: each row stores one food of `food_delta`,
/// and each food of `food_delta` is stored by some row.
pub proof fn lemma_food_rows_are_food_delta(
    p: Seq<FoodEntry>,
    sources: Seq<(String, RowId)>,
    categories: Seq<(String, RowId)>,
    rows: Seq<CreateFoodPayload>,
)
    requires
        food_rows(latest_entries(p), sources, categories) == Some(rows),
    ensures
        forall|m: int| 0 <= m < rows.len() ==> #[trigger] stores_a_page_food(p, rows[m], sources, categories),
        forall|k: (Seq<char>, i32)|
            #[trigger] food_delta(p).contains_key(k) ==> stored_by_a_row(p, rows, k, sources, categories),
{
    assert forall|m: int| 0 <= m < rows.len() implies #[trigger] stores_a_page_food(
        p,
        rows[m],
        sources,
        categories,
    ) by {
        lemma_row_stores_a_food(p, sources, categories, rows, m);
    }
    assert forall|k: (Seq<char>, i32)| #[trigger] food_delta(p).contains_key(k) implies stored_by_a_row(
        p,
        rows,
        k,
        sources,
        categories,
    ) by {
        lemma_food_has_a_row(p, sources, categories, rows, k);
    }
}

} // verus!
