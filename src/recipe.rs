//! Plain records of the recipe data that the application stores and shows.

use vstd::prelude::*;

verus! {

/// A saved recipe, as the application keeps it.
#[derive(Default, Debug, Clone, PartialEq)]
pub struct RecipeDetails {
    pub image: String,
    pub url: String,
    pub servings: i32,
    pub time: i32,
    pub calories: i32,
    pub source: Option<String>,
    pub ingredients: Option<Vec<String>>,
    pub instructions: Option<Vec<String>>,
    pub title: String,
    pub id: Option<i32>,
    pub date_added: Option<String>,
}

/// One rendition of a recipe's picture.
#[derive(Default, Debug, Clone, PartialEq)]
pub struct Image {
    pub url: String,
    pub width: i64,
    pub height: i64,
}

/// The renditions of a recipe's picture, by size.
#[derive(Default, Debug, Clone, PartialEq)]
pub struct Images {
    pub thumbnail: Option<Image>,
    pub small: Option<Image>,
    pub regular: Option<Image>,
    pub large: Option<Image>,
}

} // verus!
