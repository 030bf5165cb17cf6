use shaggy::recipe::{
    category_url, first_meal, format_meal, ingredient_url, is_null_meals, lookup_url, no_category_message,
    no_ingredient_message, pick_meal_id, random_meal_url, with_trailing_slash, Meal, MealCategory,
    MealListResponse, MealMin, MealsResponse, MEAL_CARD_COLOR,
};
use shaggy::selector::dedup_key;

fn field(k: &str, v: Option<&str>) -> (String, Option<String>) {
    (k.to_string(), v.map(|s| s.to_string()))
}

fn meal(extra: Vec<(String, Option<String>)>) -> Meal {
    Meal {
        id: Some("52772".into()),
        name: "Teriyaki Chicken Casserole".into(),
        instructions: "Bake it.".into(),
        category: Some("Chicken".into()),
        thumbnail: Some("https://img/x.jpg".into()),
        extra,
    }
}

#[test]
fn ingredients_stop_at_first_gap() {
    let m = meal(vec![
        field("strMeasure2", Some("2 cups")),
        field("strIngredient1", Some("soy sauce")),
        field("strMeasure1", Some("3/4 cup")),
        field("strIngredient2", Some("water")),
        field("strIngredient3", Some("  ")),
        field("strMeasure3", Some("1 tsp")),
        field("strIngredient4", Some("sugar")),
        field("strMeasure4", Some("1 cup")),
    ]);
    assert_eq!(
        m.get_ingredients(),
        vec![("soy sauce".to_string(), "3/4 cup".to_string()), ("water".to_string(), "2 cups".to_string())]
    );
}

#[test]
fn ingredients_need_a_measure() {
    let m = meal(vec![field("strIngredient1", Some("salt")), field("strMeasure1", None)]);
    assert!(m.get_ingredients().is_empty());
    assert!(meal(Vec::new()).get_ingredients().is_empty());
}

#[test]
fn ingredients_capped_at_twenty() {
    let mut extra = Vec::new();
    for i in 1..=22 {
        extra.push(field(&format!("strIngredient{}", i), Some(&format!("item{}", i))));
        extra.push(field(&format!("strMeasure{}", i), Some("1")));
    }
    let ings = meal(extra).get_ingredients();
    assert_eq!(ings.len(), 20);
    assert_eq!(ings[19].0, "item20");
}

#[test]
fn meal_card_layout() {
    let m = meal(vec![
        field("strIngredient1", Some("soy sauce")),
        field("strMeasure1", Some("3/4 cup")),
        field("strIngredient2", Some("water")),
        field("strMeasure2", Some("1/2 cup")),
    ]);
    let card = format_meal(&m, true, true);
    assert_eq!(card.title, "Daily recipe: Teriyaki Chicken Casserole (Repeat)");
    assert_eq!(
        card.description,
        "**Ingredients:**\n- soy sauce (3/4 cup)\n- water (1/2 cup)\n\n**Instructions:**\nBake it."
    );
    assert_eq!(card.color, MEAL_CARD_COLOR);
    assert_eq!(card.color, 0x00FF00);
    assert_eq!(card.thumbnail, "https://img/x.jpg");
    let mut plain = meal(Vec::new());
    plain.thumbnail = None;
    let card = format_meal(&plain, false, false);
    assert_eq!(card.title, "Teriyaki Chicken Casserole");
    assert_eq!(card.description, "**Ingredients:**\n\n\n**Instructions:**\nBake it.");
    assert_eq!(card.thumbnail, "");
}

#[test]
fn meal_candidate_keys() {
    let mut m = meal(vec![field("idMeal", Some("777"))]);
    assert_eq!(dedup_key(&m.candidate()), "52772");
    m.id = None;
    assert_eq!(dedup_key(&m.candidate()), "777");
    m.extra = vec![field("idMeal", None)];
    assert_eq!(dedup_key(&m.candidate()), "Teriyaki Chicken Casserole");
    assert_eq!(m.extra_field("idMeal"), Some(None));
    assert_eq!(m.extra_field("strArea"), None);
}

#[test]
fn catalog_addresses() {
    let base = with_trailing_slash("https://www.themealdb.com/api/json/v1/1".to_string());
    assert_eq!(base, "https://www.themealdb.com/api/json/v1/1/");
    assert_eq!(with_trailing_slash("http://x/".to_string()), "http://x/");
    assert_eq!(with_trailing_slash(String::new()), "/");
    assert_eq!(random_meal_url(&base), "https://www.themealdb.com/api/json/v1/1/random.php");
    assert_eq!(category_url("b/", MealCategory::Seafood), "b/filter.php?c=Seafood");
    assert_eq!(ingredient_url("b/", "mushrooms"), "b/filter.php?i=mushrooms");
    assert_eq!(lookup_url("b/", "52772"), "b/lookup.php?i=52772");
    assert_eq!(MealCategory::Miscellaneous.name(), "Miscellaneous");
    assert_eq!(MealCategory::Goat.name(), "Goat");
}

#[test]
fn null_meal_body_detected() {
    assert!(is_null_meals("{\"meals\":null}"));
    assert!(!is_null_meals("{\"meals\": null}"));
    assert!(!is_null_meals("{\"meals\":[]}"));
}

#[test]
fn picking_from_meal_lists() {
    let none = MealListResponse { meals: None };
    assert_eq!(pick_meal_id(&none), None);
    let empty = MealListResponse { meals: Some(Vec::new()) };
    assert_eq!(pick_meal_id(&empty), None);
    let ids = ["1", "2", "3"];
    let list = MealListResponse { meals: Some(ids.iter().map(|i| MealMin { id: i.to_string() }).collect()) };
    for _ in 0..20 {
        let id = pick_meal_id(&list).unwrap();
        assert!(ids.contains(&id.as_str()));
    }
}

#[test]
fn first_of_full_answers() {
    assert!(first_meal(MealsResponse { meals: None }).is_none());
    assert!(first_meal(MealsResponse { meals: Some(Vec::new()) }).is_none());
    let mut second = meal(Vec::new());
    second.name = "Second".into();
    let got = first_meal(MealsResponse { meals: Some(vec![meal(Vec::new()), second]) }).unwrap();
    assert_eq!(got.name, "Teriyaki Chicken Casserole");
}

#[test]
fn not_found_replies() {
    assert_eq!(no_ingredient_message("mushrooms"), "Couldn't find any recipes with ingredient 'mushrooms'.");
    assert_eq!(no_category_message(MealCategory::Vegan), "Couldn't find any recipes in category 'Vegan'.");
}
