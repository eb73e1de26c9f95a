//! Rows the normalizer asks the database to upsert.
//!
//! Row identifiers are server-assigned UUIDs, held as `u128`. Nutrient values
//! are 32-bit floats carried as their IEEE-754 bit pattern: the library never
//! computes with them, and the pattern of `0.0` is `0`.
use vstd::prelude::*;

verus! {

/// A server-assigned row identifier (the 128 bits of a UUID).
pub type RowId = u128;

/// A food source to insert, unique by name.
#[derive(Debug, Clone, PartialEq, Eq)]
pub struct CreateFoodSourcePayload {
    pub name: String,
}

impl CreateFoodSourcePayload {
    pub fn new(name: String) -> (r: CreateFoodSourcePayload)
        ensures
            r.name == name,
    {
        CreateFoodSourcePayload { name }
    }
}

/// A WWEIA category to insert, unique by name.
#[derive(Debug, Clone, PartialEq, Eq)]
pub struct CreateWWEIACategoryPayload {
    pub code: i32,
    pub name: String,
}

impl CreateWWEIACategoryPayload {
    pub fn new(code: i32, name: String) -> (r: CreateWWEIACategoryPayload)
        ensures
            r.code == code,
            r.name == name,
    {
        CreateWWEIACategoryPayload { code, name }
    }
}

/// A food to upsert, unique by `(source_id, external_id)`.
#[derive(Debug, Clone, PartialEq, Eq)]
pub struct CreateFoodPayload {
    pub name: String,
    pub fndds_code: Option<i32>,
    pub source_id: RowId,
    pub external_id: i32,
    pub wweia_category: Option<RowId>,
}

impl CreateFoodPayload {
    pub fn new(
        name: String,
        fndds_code: Option<i32>,
        source_id: RowId,
        external_id: i32,
        wweia_category: Option<RowId>,
    ) -> (r: CreateFoodPayload)
        ensures
            r == (CreateFoodPayload { name, fndds_code, source_id, external_id, wweia_category }),
    {
        CreateFoodPayload { name, fndds_code, source_id, external_id, wweia_category }
    }
}

/// A food-nutrient association to upsert, unique by
/// `(food_id, nutrient_id, source_id)`; `value` is the bit pattern of an `f32`.
#[derive(Debug, Clone, Copy, PartialEq, Eq, Structural)]
pub struct CreateFoodNutrientPayload {
    pub food_id: RowId,
    pub nutrient_id: RowId,
    pub unit_id: RowId,
    pub source_id: RowId,
    pub value: u32,
}

impl CreateFoodNutrientPayload {
    pub fn new(food_id: RowId, nutrient_id: RowId, unit_id: RowId, source_id: RowId, value: u32) -> (r:
        CreateFoodNutrientPayload)
        ensures
            r == (CreateFoodNutrientPayload { food_id, nutrient_id, unit_id, source_id, value }),
    {
        CreateFoodNutrientPayload { food_id, nutrient_id, unit_id, source_id, value }
    }
}

} // verus!
