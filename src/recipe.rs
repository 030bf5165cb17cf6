//! Recipes from the meal catalog: the catalog's records, the ingredient list
//! of a meal, the card a meal is shown as, and the catalog addresses.

use vstd::prelude::*;
use crate::text::{decimal, dec_digits, trim, trim_seq, owned, ends_with_char};
use crate::history::same_text;
use crate::selector::CandidateItem;
use crate::chance::choose_index;

verus! {

/// A catalog answer carrying full meals.
#[derive(Debug, Clone)]
pub struct MealsResponse {
    pub meals: Option<Vec<Meal>>,
}

/// A catalog answer carrying meal identifiers only.
#[derive(Debug, Clone)]
pub struct MealListResponse {
    pub meals: Option<Vec<MealMin>>,
}

/// A meal known by its identifier only.
#[derive(Debug, Clone)]
pub struct MealMin {
    pub id: String,
}

/// A meal. `extra` holds the catalog's other fields by name, among them the
/// numbered ingredient and measure fields; the catalog gives each name once
/// (`extra_names_unique`), and a lookup takes the first field of a name.
#[derive(Debug, Clone)]
pub struct Meal {
    pub id: Option<String>,
    pub name: String,
    pub instructions: String,
    pub category: Option<String>,
    pub thumbnail: Option<String>,
    pub extra: Vec<(String, Option<String>)>,
}

/// A catalog answer listing categories.
#[derive(Debug, Clone)]
pub struct CategoriesResponse {
    pub meals: Vec<Category>,
}

/// A meal category as the catalog names it.
#[derive(Debug, Clone)]
pub struct Category {
    pub name: String,
}

/// The categories one can search by.
#[derive(Debug, Clone, Copy, PartialEq, Eq, Structural)]
pub enum MealCategory {
    Beef,
    Chicken,
    Dessert,
    Lamb,
    Miscellaneous,
    Pasta,
    Pork,
    Seafood,
    Side,
    Starter,
    Vegan,
    Vegetarian,
    Breakfast,
    Goat,
}

/// The catalog's name of a category.
pub open spec fn category_name(c: MealCategory) -> Seq<char> {
    match c {
        MealCategory::Beef => "Beef"@,
        MealCategory::Chicken => "Chicken"@,
        MealCategory::Dessert => "Dessert"@,
        MealCategory::Lamb => "Lamb"@,
        MealCategory::Miscellaneous => "Miscellaneous"@,
        MealCategory::Pasta => "Pasta"@,
        MealCategory::Pork => "Pork"@,
        MealCategory::Seafood => "Seafood"@,
        MealCategory::Side => "Side"@,
        MealCategory::Starter => "Starter"@,
        MealCategory::Vegan => "Vegan"@,
        MealCategory::Vegetarian => "Vegetarian"@,
        MealCategory::Breakfast => "Breakfast"@,
        MealCategory::Goat => "Goat"@,
    }
}

impl MealCategory {
    /// The catalog's name of this category.
    pub fn name(&self) -> (r: &'static str)
        ensures
            r@ == category_name(*self),
    {
        match self {
            MealCategory::Beef => "Beef",
            MealCategory::Chicken => "Chicken",
            MealCategory::Dessert => "Dessert",
            MealCategory::Lamb => "Lamb",
            MealCategory::Miscellaneous => "Miscellaneous",
            MealCategory::Pasta => "Pasta",
            MealCategory::Pork => "Pork",
            MealCategory::Seafood => "Seafood",
            MealCategory::Side => "Side",
            MealCategory::Starter => "Starter",
            MealCategory::Vegan => "Vegan",
            MealCategory::Vegetarian => "Vegetarian",
            MealCategory::Breakfast => "Breakfast",
            MealCategory::Goat => "Goat",
        }
    }
}

/// The value of the first field named `k`, if any.
pub open spec fn field_lookup(extra: Seq<(String, Option<String>)>, k: Seq<char>) -> Option<
    Option<String>,
>
    decreases extra.len(),
{
    if extra.len() == 0 {
        None
    } else if extra[0].0@ == k {
        Some(extra[0].1)
    } else {
        field_lookup(extra.drop_first(), k)
    }
}

/// No two extra fields share a name.
pub open spec fn extra_names_unique(extra: Seq<(String, Option<String>)>) -> bool {
    forall|i: int, j: int| 0 <= i < j < extra.len() ==> extra[i].0@ != extra[j].0@
}

/// With names given once, a lookup finds the value of the field of that name,
/// wherever it stands.
pub proof fn lemma_lookup_finds_field(extra: Seq<(String, Option<String>)>, i: int)
    requires
        extra_names_unique(extra),
        0 <= i < extra.len(),
    ensures
        field_lookup(extra, extra[i].0@) == Some(extra[i].1),
    decreases i,
{
    if i > 0 {
        let d = extra.drop_first();
        assert(extra[0].0@ != extra[i].0@);
        assert(d[i - 1] == extra[i]);
        assert(extra_names_unique(d)) by {
            assert forall|a: int, b: int| 0 <= a < b < d.len() implies d[a].0@ != d[b].0@ by {
                assert(d[a] == extra[a + 1] && d[b] == extra[b + 1]);
            }
        }
        lemma_lookup_finds_field(d, i - 1);
    }
}

/// The name of the `i`-th ingredient field.
pub open spec fn ingredient_key(i: nat) -> Seq<char> {
    "strIngredient"@ + dec_digits(i)
}

/// The name of the `i`-th measure field.
pub open spec fn measure_key(i: nat) -> Seq<char> {
    "strMeasure"@ + dec_digits(i)
}

/// The ingredients from number `i` up to number 20: they stop at the first
/// number whose ingredient or measure is missing or whose ingredient is blank.
pub open spec fn ingredients_from(extra: Seq<(String, Option<String>)>, i: nat) -> Seq<
    (String, String),
>
    decreases 21 - i,
{
    if i > 20 {
        Seq::empty()
    } else {
        match (field_lookup(extra, ingredient_key(i)), field_lookup(extra, measure_key(i))) {
            (Some(Some(a)), Some(Some(b))) => if trim_seq(a@).len() > 0 {
                seq![(a, b)] + ingredients_from(extra, i + 1)
            } else {
                Seq::empty()
            },
            _ => Seq::empty(),
        }
    }
}

impl Meal {
    /// The value of the first extra field named `key`.
    pub fn extra_field(&self, key: &str) -> (r: Option<Option<String>>)
        ensures
            r == field_lookup(self.extra@, key@),
    {
        let n = self.extra.len();
        assert(self.extra@.subrange(0, n as int) == self.extra@);
        let mut i: usize = 0;
        while i < n
            invariant
                n == self.extra@.len(),
                i <= n,
                field_lookup(self.extra@, key@) == field_lookup(
                    self.extra@.subrange(i as int, n as int),
                    key@,
                ),
            decreases n - i,
        {
            let ghost rest = self.extra@.subrange(i as int, n as int);
            assert(rest.drop_first() == self.extra@.subrange(i as int + 1, n as int));
            assert(rest[0] == self.extra@[i as int]);
            if same_text(self.extra[i].0.as_str(), key) {
                return match &self.extra[i].1 {
                    Some(v) => Some(Some(v.clone())),
                    None => Some(None),
                };
            }
            i = i + 1;
        }
        None
    }

    /// The meal's (ingredient, measure) pairs, in number order.
    pub fn get_ingredients(&self) -> (r: Vec<(String, String)>)
        ensures
            r@ == ingredients_from(self.extra@, 1),
    {
        let mut out: Vec<(String, String)> = Vec::new();
        let mut i: u64 = 1;
        while i <= 20
            invariant
                1 <= i <= 21,
                out@ + ingredients_from(self.extra@, i as nat) == ingredients_from(self.extra@, 1),
            decreases 21 - i,
        {
            let mut ik = owned("strIngredient");
            let digits = decimal(i);
            ik.append(digits.as_str());
            let mut mk = owned("strMeasure");
            mk.append(digits.as_str());
            let ing = self.extra_field(ik.as_str());
            let mea = self.extra_field(mk.as_str());
            match (ing, mea) {
                (Some(Some(a)), Some(Some(b))) => {
                    if trim(a.as_str()).unicode_len() > 0 {
                        let ghost pair = (a, b);
                        out.push((a, b));
                        assert(out@ + ingredients_from(self.extra@, (i + 1) as nat) == (out@.drop_last()
                            + seq![pair]) + ingredients_from(self.extra@, (i + 1) as nat));
                        assert(out@.drop_last() + (seq![pair] + ingredients_from(self.extra@, (i + 1) as nat))
                            == out@.drop_last() + ingredients_from(self.extra@, i as nat));
                    } else {
                        assert(out@ + Seq::<(String, String)>::empty() == out@);
                        return out;
                    }
                },
                _ => {
                    assert(out@ + Seq::<(String, String)>::empty() == out@);
                    return out;
                },
            }
            i = i + 1;
        }
        assert(out@ + Seq::<(String, String)>::empty() == out@);
        out
    }

    /// The meal as a catalog candidate: its identifier, the `idMeal` field as
    /// the secondary identifier, and its name as the label.
    pub fn candidate(&self) -> (r: CandidateItem)
        ensures
            r.id == self.id,
            r.secondary_id == match field_lookup(self.extra@, "idMeal"@) {
                Some(v) => v,
                None => None,
            },
            r.label == self.name,
    {
        let secondary = match self.extra_field("idMeal") {
            Some(v) => v,
            None => None,
        };
        let id = match &self.id {
            Some(s) => Some(s.clone()),
            None => None,
        };
        CandidateItem { id, secondary_id: secondary, label: self.name.clone() }
    }
}

/// A meal laid out for display.
#[derive(Debug, Clone)]
pub struct MealCard {
    pub title: String,
    pub description: String,
    pub color: u32,
    pub thumbnail: String,
}

/// The colour of a meal card.
pub const MEAL_CARD_COLOR: u32 = 0x00FF00;

/// One ingredient line.
pub open spec fn ingredient_line(p: (String, String)) -> Seq<char> {
    "- "@ + p.0@ + " ("@ + p.1@ + ")"@
}

/// The ingredient lines joined by line breaks.
pub open spec fn ingredient_block(ings: Seq<(String, String)>) -> Seq<char>
    decreases ings.len(),
{
    if ings.len() == 0 {
        Seq::empty()
    } else if ings.len() == 1 {
        ingredient_line(ings[0])
    } else {
        ingredient_block(ings.drop_last()) + "\n"@ + ingredient_line(ings.last())
    }
}

/// The title of a meal card.
pub open spec fn card_title(name: Seq<char>, daily: bool, repeat: bool) -> Seq<char> {
    (if daily {
        "Daily recipe: "@
    } else {
        Seq::empty()
    }) + name + if repeat {
        " (Repeat)"@
    } else {
        Seq::empty()
    }
}

/// The body of a meal card.
pub open spec fn card_description(meal: Meal) -> Seq<char> {
    "**Ingredients:**\n"@ + ingredient_block(ingredients_from(meal.extra@, 1))
        + "\n\n**Instructions:**\n"@ + meal.instructions@
}

/// The card a meal is shown as; `daily` marks the daily announcement and
/// `repeat` an item announced before.
pub fn format_meal(meal: &Meal, daily: bool, repeat: bool) -> (r: MealCard)
    ensures
        r.title@ == card_title(meal.name@, daily, repeat),
        r.description@ == card_description(*meal),
        r.color == MEAL_CARD_COLOR,
        r.thumbnail@ == match meal.thumbnail {
            Some(t) => t@,
            None => Seq::empty(),
        },
{
    let ings = meal.get_ingredients();
    let mut block = String::new();
    let mut k: usize = 0;
    while k < ings.len()
        invariant
            k <= ings@.len(),
            block@ == ingredient_block(ings@.subrange(0, k as int)),
        decreases ings@.len() - k,
    {
        let ghost pre1 = ings@.subrange(0, k as int + 1);
        assert(pre1.drop_last() == ings@.subrange(0, k as int));
        assert(pre1.last() == ings@[k as int]);
        if k > 0 {
            block.append("\n");
        }
        block.append("- ");
        block.append(ings[k].0.as_str());
        block.append(" (");
        block.append(ings[k].1.as_str());
        block.append(")");
        proof {
            if k == 0 {
                assert(pre1.len() == 1);
                assert(pre1[0] == ings@[0]);
            }
        }
        k = k + 1;
    }
    assert(ings@.subrange(0, ings@.len() as int) == ings@);
    let mut title = if daily {
        owned("Daily recipe: ")
    } else {
        String::new()
    };
    title.append(meal.name.as_str());
    if repeat {
        title.append(" (Repeat)");
    }
    let mut description = owned("**Ingredients:**\n");
    description.append(block.as_str());
    description.append("\n\n**Instructions:**\n");
    description.append(meal.instructions.as_str());
    let thumbnail = match &meal.thumbnail {
        Some(t) => t.clone(),
        None => String::new(),
    };
    MealCard { title, description, color: MEAL_CARD_COLOR, thumbnail }
}

// ---------------------------------------------------------------------------
// Catalog addresses
// ---------------------------------------------------------------------------

/// A base address ending in `/`.
pub open spec fn slashed(base: Seq<char>) -> Seq<char> {
    if base.len() > 0 && base.last() == '/' {
        base
    } else {
        base + "/"@
    }
}

/// The catalog's base address with a `/` at its end.
pub fn with_trailing_slash(base: String) -> (r: String)
    ensures
        r@ == slashed(base@),
{
    let mut base = base;
    if !ends_with_char(base.as_str(), '/') {
        base.append("/");
    }
    base
}

/// The address of a random meal.
pub fn random_meal_url(base: &str) -> (r: String)
    ensures
        r@ == base@ + "random.php"@,
{
    let mut s = owned(base);
    s.append("random.php");
    s
}

/// The address of the meals of a category.
pub fn category_url(base: &str, category: MealCategory) -> (r: String)
    ensures
        r@ == base@ + "filter.php?c="@ + category_name(category),
{
    let mut s = owned(base);
    s.append("filter.php?c=");
    s.append(category.name());
    s
}

/// The address of the meals with an ingredient.
pub fn ingredient_url(base: &str, ingredient: &str) -> (r: String)
    ensures
        r@ == base@ + "filter.php?i="@ + ingredient@,
{
    let mut s = owned(base);
    s.append("filter.php?i=");
    s.append(ingredient);
    s
}

/// The address of one meal by identifier.
pub fn lookup_url(base: &str, id: &str) -> (r: String)
    ensures
        r@ == base@ + "lookup.php?i="@ + id@,
{
    let mut s = owned(base);
    s.append("lookup.php?i=");
    s.append(id);
    s
}

/// The body the catalog answers with when a filter matches nothing.
pub fn is_null_meals(body: &str) -> (r: bool)
    ensures
        r == (body@ == "{\"meals\":null}"@),
{
    same_text(body, "{\"meals\":null}")
}

/// The meals of a list answer, empty where the answer holds none.
pub open spec fn listed_meals(resp: MealListResponse) -> Seq<MealMin> {
    match resp.meals {
        Some(v) => v@,
        None => Seq::empty(),
    }
}

/// The identifier of a meal drawn at random from a list answer, or `None`
/// where the list is missing or empty.
pub fn pick_meal_id(resp: &MealListResponse) -> (r: Option<String>)
    ensures
        listed_meals(*resp).len() == 0 ==> r is None,
        listed_meals(*resp).len() > 0 ==> (r matches Some(id) && exists|i: int|
            0 <= i < listed_meals(*resp).len() && (#[trigger] listed_meals(*resp)[i]).id == id),
{
    match &resp.meals {
        Some(v) => match choose_index(v.len()) {
            Some(i) => {
                let id = v[i].id.clone();
                assert(listed_meals(*resp)[i as int].id == id);
                Some(id)
            },
            None => None,
        },
        None => None,
    }
}

/// The first meal of a full answer, or `None` where it holds none.
pub fn first_meal(resp: MealsResponse) -> (r: Option<Meal>)
    ensures
        r == match resp.meals {
            Some(v) => if v@.len() > 0 {
                Some(v@[0])
            } else {
                None
            },
            None => None,
        },
{
    match resp.meals {
        Some(v) => {
            let mut v = v;
            if v.len() > 0 {
                Some(v.remove(0))
            } else {
                None
            }
        },
        None => None,
    }
}

/// The reply when no meal has an ingredient.
pub fn no_ingredient_message(ingredient: &str) -> (r: String)
    ensures
        r@ == "Couldn't find any recipes with ingredient '"@ + ingredient@ + "'."@,
{
    let mut s = owned("Couldn't find any recipes with ingredient '");
    s.append(ingredient);
    s.append("'.");
    s
}

/// The reply when a category holds no meal.
pub fn no_category_message(category: MealCategory) -> (r: String)
    ensures
        r@ == "Couldn't find any recipes in category '"@ + category_name(category) + "'."@,
{
    let mut s = owned("Couldn't find any recipes in category '");
    s.append(category.name());
    s.append("'.");
    s
}

} // verus!
