use food_aggregator::models::{CreateFoodNutrientPayload, CreateFoodPayload};
use food_aggregator::normalizer::{
    build_food_nutrient_rows, build_food_rows, chunk_rows, collect_dimensions, FoodEntry, FoodEntryNutrient,
    FoodIdTable, IdTable, NUTRIENT_CHUNK_SIZE,
};

fn reading(name: &str, unit: &str, value: Option<f32>) -> FoodEntryNutrient {
    FoodEntryNutrient { name: name.to_string(), unit_name: unit.to_string(), value: value.map(f32::to_bits) }
}

fn entry(id: i32, name: &str, category: Option<(i32, &str)>, nutrients: Vec<FoodEntryNutrient>) -> FoodEntry {
    FoodEntry {
        source: "USDA".to_string(),
        id,
        name: name.to_string(),
        wweia: category.map(|(c, n)| (c, n.to_string())),
        fndds_code: None,
        nutrients,
    }
}

fn table(rows: &[(&str, u128)]) -> IdTable {
    IdTable::new(rows.iter().map(|(n, i)| (n.to_string(), *i)).collect())
}

fn apple_and_banana() -> Vec<FoodEntry> {
    vec![
        entry(101, "Apple", Some((9, "Fruits")), vec![reading("Energy", "KCAL", Some(52.0))]),
        entry(102, "Banana", Some((9, "Fruits")), vec![reading("Energy", "KCAL", Some(89.0))]),
    ]
}

#[test]
fn two_foods_share_every_dimension() {
    let dims = collect_dimensions(&apple_and_banana());
    assert_eq!(dims.sources, vec!["USDA".to_string()]);
    assert_eq!(dims.categories, vec![(9, "Fruits".to_string())]);
    assert_eq!(dims.nutrients, vec!["Energy".to_string()]);
    assert_eq!(dims.units, vec!["KCAL".to_string()]);
}

#[test]
fn empty_page_plans_no_writes() {
    let entries: Vec<FoodEntry> = Vec::new();
    let dims = collect_dimensions(&entries);
    assert!(dims.sources.is_empty() && dims.categories.is_empty());
    assert!(dims.nutrients.is_empty() && dims.units.is_empty());
    let empty = table(&[]);
    assert_eq!(build_food_rows(&entries, &empty, &empty), Some(vec![]));
    let foods = FoodIdTable::new(vec![]);
    assert_eq!(build_food_nutrient_rows(&entries, &foods, &empty, &empty, &empty), Some(vec![]));
    assert!(chunk_rows(&vec![]).is_empty());
}

#[test]
fn category_keeps_first_code() {
    let entries = vec![
        entry(1, "a", Some((9, "Fruits")), vec![]),
        entry(2, "b", Some((10, "Fruits")), vec![]),
        entry(3, "c", Some((4, "Dairy")), vec![]),
    ];
    let dims = collect_dimensions(&entries);
    assert_eq!(dims.categories, vec![(9, "Fruits".to_string()), (4, "Dairy".to_string())]);
}

#[test]
fn id_tables_find_first_match() {
    let t = table(&[("Energy", 7), ("Protein", 8), ("Energy", 9)]);
    assert_eq!(t.get(&"Energy".to_string()), Some(7));
    assert_eq!(t.get(&"Protein".to_string()), Some(8));
    assert_eq!(t.get(&"Fat".to_string()), None);
    let f = FoodIdTable::new(vec![("USDA".to_string(), 101, 500), ("Other".to_string(), 101, 600)]);
    assert_eq!(f.get(&"Other".to_string(), 101), Some(600));
    assert_eq!(f.get(&"USDA".to_string(), 102), None);
}

#[test]
fn food_rows_carry_entry_fields_and_ids() {
    let mut entries = apple_and_banana();
    entries[1].wweia = None;
    entries[1].fndds_code = Some(63107010);
    let sources = table(&[("USDA", 1)]);
    let categories = table(&[("Fruits", 2)]);
    let rows = build_food_rows(&entries, &sources, &categories).unwrap();
    assert_eq!(
        rows,
        vec![
            CreateFoodPayload::new("Apple".to_string(), None, 1, 101, Some(2)),
            CreateFoodPayload::new("Banana".to_string(), Some(63107010), 1, 102, None),
        ]
    );
}

#[test]
fn repeated_food_keeps_last_occurrence() {
    let entries = vec![
        entry(101, "Apple", None, vec![reading("Energy", "KCAL", Some(52.0))]),
        entry(102, "Banana", None, vec![]),
        entry(101, "Apple (updated)", None, vec![reading("Energy", "KCAL", Some(53.0))]),
    ];
    let sources = table(&[("USDA", 1)]);
    let rows = build_food_rows(&entries, &sources, &table(&[])).unwrap();
    assert_eq!(rows.len(), 2);
    assert_eq!(rows[0].external_id, 102);
    assert_eq!(rows[1].name, "Apple (updated)");
    let foods = FoodIdTable::new(vec![("USDA".to_string(), 101, 11), ("USDA".to_string(), 102, 12)]);
    let nrows = build_food_nutrient_rows(&entries, &foods, &sources, &table(&[("Energy", 3)]), &table(&[("KCAL", 4)]))
        .unwrap();
    assert_eq!(nrows, vec![CreateFoodNutrientPayload::new(11, 3, 4, 1, 53.0f32.to_bits())]);
}

#[test]
fn unknown_source_yields_no_food_rows() {
    let entries = apple_and_banana();
    assert_eq!(build_food_rows(&entries, &table(&[("Other", 1)]), &table(&[])), None);
}

#[test]
fn missing_value_is_stored_as_zero() {
    let entries = vec![entry(101, "Apple", None, vec![reading("Energy", "KCAL", None)])];
    let foods = FoodIdTable::new(vec![("USDA".to_string(), 101, 11)]);
    let rows =
        build_food_nutrient_rows(&entries, &foods, &table(&[("USDA", 1)]), &table(&[("Energy", 3)]), &table(&[("KCAL", 4)]))
            .unwrap();
    assert_eq!(rows, vec![CreateFoodNutrientPayload::new(11, 3, 4, 1, 0)]);
    assert_eq!(f32::from_bits(rows[0].value), 0.0);
}

#[test]
fn repeated_reading_keeps_last_value() {
    let entries = vec![entry(
        101,
        "Apple",
        None,
        vec![reading("Energy", "KCAL", Some(1.0)), reading("Protein", "G", Some(0.3)), reading("Energy", "KCAL", Some(2.0))],
    )];
    let foods = FoodIdTable::new(vec![("USDA".to_string(), 101, 11)]);
    let rows = build_food_nutrient_rows(
        &entries,
        &foods,
        &table(&[("USDA", 1)]),
        &table(&[("Energy", 3), ("Protein", 5)]),
        &table(&[("KCAL", 4), ("G", 6)]),
    )
    .unwrap();
    assert_eq!(
        rows,
        vec![
            CreateFoodNutrientPayload::new(11, 5, 6, 1, 0.3f32.to_bits()),
            CreateFoodNutrientPayload::new(11, 3, 4, 1, 2.0f32.to_bits()),
        ]
    );
}

#[test]
fn unknown_unit_or_food_yields_no_nutrient_rows() {
    let entries = apple_and_banana();
    let foods = FoodIdTable::new(vec![("USDA".to_string(), 101, 11), ("USDA".to_string(), 102, 12)]);
    let sources = table(&[("USDA", 1)]);
    let nutrients = table(&[("Energy", 3)]);
    assert_eq!(build_food_nutrient_rows(&entries, &foods, &sources, &nutrients, &table(&[])), None);
    let partial = FoodIdTable::new(vec![("USDA".to_string(), 101, 11)]);
    assert_eq!(build_food_nutrient_rows(&entries, &partial, &sources, &nutrients, &table(&[("KCAL", 4)])), None);
    assert_eq!(
        build_food_nutrient_rows(&entries, &foods, &sources, &nutrients, &table(&[("KCAL", 4)])).map(|r| r.len()),
        Some(2)
    );
}

#[test]
fn rows_are_chunked_by_a_thousand() {
    let rows: Vec<CreateFoodNutrientPayload> =
        (0..2500u128).map(|i| CreateFoodNutrientPayload::new(i, 1, 2, 3, 0)).collect();
    let chunks = chunk_rows(&rows);
    assert_eq!(NUTRIENT_CHUNK_SIZE, 1000);
    assert_eq!(chunks.iter().map(|c| c.len()).collect::<Vec<_>>(), vec![1000, 1000, 500]);
    assert_eq!(chunks.concat(), rows);
    let exact: Vec<CreateFoodNutrientPayload> = rows[..1000].to_vec();
    assert_eq!(chunk_rows(&exact).len(), 1);
}

#[test]
fn replanning_an_updated_page_overwrites_in_place() {
    // the same two foods ingested again, with a new description for 101
    let first = apple_and_banana();
    let mut second = apple_and_banana();
    second[0].name = "Apple (updated)".to_string();
    let sources = table(&[("USDA", 1)]);
    let categories = table(&[("Fruits", 2)]);
    let rows_first = build_food_rows(&first, &sources, &categories).unwrap();
    let rows_second = build_food_rows(&second, &sources, &categories).unwrap();
    assert_eq!(rows_first.len(), rows_second.len());
    assert_eq!(rows_second[0].name, "Apple (updated)");
    assert_eq!(
        (rows_second[0].source_id, rows_second[0].external_id),
        (rows_first[0].source_id, rows_first[0].external_id)
    );
    // the dimension rows and the food-nutrient keys do not change
    let d1 = collect_dimensions(&first);
    let d2 = collect_dimensions(&second);
    assert_eq!((d1.sources, d1.categories, d1.nutrients, d1.units), (d2.sources, d2.categories, d2.nutrients, d2.units));
    let foods = FoodIdTable::new(vec![("USDA".to_string(), 101, 11), ("USDA".to_string(), 102, 12)]);
    let nutrients = table(&[("Energy", 3)]);
    let units = table(&[("KCAL", 4)]);
    assert_eq!(
        build_food_nutrient_rows(&first, &foods, &sources, &nutrients, &units),
        build_food_nutrient_rows(&second, &foods, &sources, &nutrients, &units)
    );
}
