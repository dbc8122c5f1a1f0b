//! Meals and the days they are served on.
use crate::date::Date;
use crate::info::{info_of, MealInfo, MealInfoView};
use crate::price::{meal_price_of, MealPrice, MealPriceView};
use crate::raw::ApiMeal;
use crate::text::{trim, trimmed};
use vstd::prelude::*;

verus! {

/// One dish. A description, where there is one, is never empty.
#[derive(Debug)]
pub struct MensaMeal {
    title: String,
    description: Option<String>,
    price: Option<MealPrice>,
    info: MealInfo,
    id: String,
}

/// One dish, as texts and numbers.
pub struct MealView {
    pub title: Seq<char>,
    pub description: Option<Seq<char>>,
    pub price: Option<MealPriceView>,
    pub info: MealInfoView,
    pub id: Seq<char>,
}

/// The meals of one category on one day, in the order in which upstream
/// lists them.
#[derive(Debug)]
pub struct Category {
    name: String,
    meals: Vec<MensaMeal>,
}

pub struct CategoryView {
    pub name: Seq<char>,
    pub meals: Seq<MealView>,
}

/// What one facility offers on one date, by category. No two categories of
/// a day have the same name.
#[derive(Debug)]
pub struct MealDay {
    date: Date,
    categories: Vec<Category>,
}

pub struct MealDayView {
    pub date: int,
    pub categories: Seq<CategoryView>,
}

/// A description as it is kept: without the white space around it, and
/// absent where nothing else is left.
pub open spec fn description_of(text: Seq<char>) -> Option<Seq<char>> {
    let t = trimmed(text);
    if t.len() == 0 {
        None
    } else {
        Some(t)
    }
}

/// The dish that an upstream record describes. Prices count only where
/// upstream says that there are prices, and then only all three together.
pub open spec fn meal_of(m: ApiMeal) -> MealView {
    MealView {
        title: m.title_clean@,
        description: description_of(m.description_clean@),
        price: if m.preis_vorhanden {
            meal_price_of(m.preis1@, m.preis2@, m.preis3@)
        } else {
            None
        },
        info: info_of(m.kennzeichnungen@),
        id: m.attributes.artikel_id@,
    }
}

/// The dishes of the category `name` among upstream's records, in their
/// order.
pub open spec fn meals_in(meals: Seq<ApiMeal>, name: Seq<char>) -> Seq<MealView> {
    meals.filter(|m: ApiMeal| m.category@ == name).map_values(|m: ApiMeal| meal_of(m))
}

/// The names of the categories among upstream's records, each once, in the
/// order in which they first occur.
pub open spec fn category_names(meals: Seq<ApiMeal>) -> Seq<Seq<char>>
    decreases meals.len(),
{
    if meals.len() == 0 {
        Seq::empty()
    } else {
        let before = category_names(meals.drop_last());
        let name = meals.last().category@;
        if before.contains(name) {
            before
        } else {
            before.push(name)
        }
    }
}

/// Upstream's records of one day, grouped by category.
pub open spec fn grouped(meals: Seq<ApiMeal>) -> Seq<CategoryView> {
    category_names(meals).map_values(
        |name: Seq<char>| CategoryView { name, meals: meals_in(meals, name) },
    )
}

/// The names of a day's categories, in their order.
pub open spec fn names_of(categories: Seq<CategoryView>) -> Seq<Seq<char>> {
    categories.map_values(|c: CategoryView| c.name)
}

/// The dishes of the category `name`, where the day has that category.
pub open spec fn dishes(categories: Seq<CategoryView>, name: Seq<char>) -> Option<Seq<MealView>> {
    if exists|i: int| 0 <= i < categories.len() && categories[i].name == name {
        let i = choose|i: int| 0 <= i < categories.len() && categories[i].name == name;
        Some(categories[i].meals)
    } else {
        None
    }
}

/// A day's categories after one more dish has been put into the category
/// `name`: at the end of that category where the day has it, else as the
/// only dish of a new last category.
pub open spec fn with_meal(categories: Seq<CategoryView>, name: Seq<char>, meal: MealView) -> Seq<
    CategoryView,
> {
    if names_of(categories).contains(name) {
        let i = names_of(categories).index_of(name);
        categories.update(i, CategoryView { name, meals: categories[i].meals.push(meal) })
    } else {
        categories.push(CategoryView { name, meals: seq![meal] })
    }
}

pub open spec fn meals_view(meals: Seq<MensaMeal>) -> Seq<MealView> {
    meals.map_values(|m: MensaMeal| m@)
}

pub open spec fn categories_view(categories: Seq<Category>) -> Seq<CategoryView> {
    categories.map_values(|c: Category| c@)
}

/// One more record adds its dish to the dishes of its own category and
/// leaves the other categories as they are.
pub proof fn lemma_meals_in_push(meals: Seq<ApiMeal>, m: ApiMeal, name: Seq<char>)
    ensures
        meals_in(meals.push(m), name) == if m.category@ == name {
            meals_in(meals, name).push(meal_of(m))
        } else {
            meals_in(meals, name)
        },
{
    reveal(Seq::filter);
    let pred = |m: ApiMeal| m.category@ == name;
    assert(meals.push(m).drop_last() =~= meals);
    if m.category@ == name {
        assert(meals.push(m).filter(pred) == meals.filter(pred).push(m));
        assert(meals_in(meals.push(m), name) =~= meals_in(meals, name).push(meal_of(m)));
    }
}

/// The names of the categories are those that some record has, each once.
pub proof fn lemma_category_names(meals: Seq<ApiMeal>)
    ensures
        category_names(meals).no_duplicates(),
        forall|name: Seq<char>|
            category_names(meals).contains(name) <==> exists|j: int|
                0 <= j < meals.len() && (#[trigger] meals[j]).category@ == name,
    decreases meals.len(),
{
    if meals.len() > 0 {
        let before = meals.drop_last();
        let names = category_names(before);
        let last = meals.last().category@;
        lemma_category_names(before);
        assert forall|name: Seq<char>|
            category_names(meals).contains(name) <==> exists|j: int|
                0 <= j < meals.len() && (#[trigger] meals[j]).category@ == name by {
            if category_names(meals).contains(name) {
                if names.contains(name) {
                    let j = choose|j: int|
                        0 <= j < before.len() && (#[trigger] before[j]).category@ == name;
                    assert(meals[j].category@ == name);
                } else {
                    let i = choose|i: int|
                        0 <= i < category_names(meals).len() && category_names(meals)[i] == name;
                    assert(name == last);
                    assert(meals[meals.len() - 1].category@ == name);
                }
            }
            if exists|j: int| 0 <= j < meals.len() && (#[trigger] meals[j]).category@ == name {
                let j = choose|j: int|
                    0 <= j < meals.len() && (#[trigger] meals[j]).category@ == name;
                if j < before.len() {
                    assert(before[j].category@ == name);
                    assert(names.contains(name));
                    let i = choose|i: int| 0 <= i < names.len() && names[i] == name;
                    assert(category_names(meals)[i] == name);
                } else {
                    if names.contains(last) {
                    } else {
                        assert(category_names(meals)[names.len() as int] == name);
                    }
                }
            }
        }
    }
}

/// A category that no record has holds no dish.
pub proof fn lemma_meals_in_absent(meals: Seq<ApiMeal>, name: Seq<char>)
    requires
        !category_names(meals).contains(name),
    ensures
        meals_in(meals, name) == Seq::<MealView>::empty(),
    decreases meals.len(),
{
    reveal(Seq::filter);
    lemma_category_names(meals);
    if meals.len() > 0 {
        let before = meals.drop_last();
        lemma_category_names(before);
        assert(meals[meals.len() - 1].category@ != name);
        assert forall|j: int| 0 <= j < before.len() implies (#[trigger] before[j]).category@
            != name by {
            assert(meals[j].category@ != name);
        }
        lemma_meals_in_absent(before, name);
        assert(meals_in(meals, name) =~= meals_in(before, name));
    } else {
        assert(meals_in(meals, name) =~= Seq::<MealView>::empty());
    }
}

/// Grouping one record more is putting its dish into its category.
pub proof fn lemma_grouped_push(meals: Seq<ApiMeal>, m: ApiMeal)
    ensures
        grouped(meals.push(m)) == with_meal(grouped(meals), m.category@, meal_of(m)),
{
    let names = category_names(meals);
    let name = m.category@;
    let after = meals.push(m);
    lemma_category_names(meals);
    assert(after.drop_last() =~= meals);
    assert(names_of(grouped(meals)) =~= names);
    assert forall|n: Seq<char>| true implies meals_in(after, n) == if name == n {
        meals_in(meals, n).push(meal_of(m))
    } else {
        meals_in(meals, n)
    } by {
        lemma_meals_in_push(meals, m, n);
    }
    if names.contains(name) {
        let i = names.index_of(name);
        assert(grouped(after) =~= with_meal(grouped(meals), name, meal_of(m)));
    } else {
        lemma_meals_in_absent(meals, name);
        assert(meals_in(after, name) =~= seq![meal_of(m)]);
        assert(grouped(after) =~= with_meal(grouped(meals), name, meal_of(m)));
    }
}

impl View for MensaMeal {
    type V = MealView;

    closed spec fn view(&self) -> MealView {
        MealView {
            title: self.title@,
            description: match self.description {
                Some(d) => Some(d@),
                None => None,
            },
            price: match self.price {
                Some(p) => Some(p@),
                None => None,
            },
            info: self.info@,
            id: self.id@,
        }
    }
}

impl View for Category {
    type V = CategoryView;

    closed spec fn view(&self) -> CategoryView {
        CategoryView { name: self.name@, meals: meals_view(self.meals@) }
    }
}

impl View for MealDay {
    type V = MealDayView;

    closed spec fn view(&self) -> MealDayView {
        MealDayView { date: self.date@, categories: categories_view(self.categories@) }
    }
}

impl MensaMeal {
    #[verifier::type_invariant]
    spec fn inv(self) -> bool {
        self.description matches Some(d) ==> d@.len() > 0
    }

    /// A dish from its parts. An empty description counts as none.
    pub fn new(
        title: String,
        description: Option<String>,
        price: Option<MealPrice>,
        info: MealInfo,
        id: String,
    ) -> (meal: MensaMeal)
        ensures
            meal@ == (MealView {
                title: title@,
                description: match description {
                    Some(d) => if d@.len() == 0 {
                        None
                    } else {
                        Some(d@)
                    },
                    None => None,
                },
                price: match price {
                    Some(p) => Some(p@),
                    None => None,
                },
                info: info@,
                id: id@,
            }),
    {
        let description = match description {
            Some(d) => if d.as_str().is_empty() {
                None
            } else {
                Some(d)
            },
            None => None,
        };
        MensaMeal { title, description, price, info, id }
    }

    pub fn title(&self) -> (r: &str)
        ensures
            r@ == self@.title,
    {
        self.title.as_str()
    }

    /// The description, which is never empty where there is one.
    pub fn description(&self) -> (r: Option<&str>)
        ensures
            match r {
                Some(d) => self@.description == Some(d@) && d@.len() > 0,
                None => self@.description is None,
            },
    {
        proof {
            use_type_invariant(self);
        }
        match &self.description {
            Some(d) => Some(d.as_str()),
            None => None,
        }
    }

    pub fn price(&self) -> (r: Option<MealPrice>)
        ensures
            match r {
                Some(p) => self@.price == Some(p@),
                None => self@.price is None,
            },
    {
        self.price
    }

    pub fn info(&self) -> (r: &MealInfo)
        ensures
            r@ == self@.info,
    {
        &self.info
    }

    /// The identifier under which upstream lists the dish.
    pub fn id(&self) -> (r: &str)
        ensures
            r@ == self@.id,
    {
        self.id.as_str()
    }

    /// The dish that an upstream record describes, and its category.
    pub fn from_raw(meal: ApiMeal) -> (r: (String, MensaMeal))
        ensures
            r.0@ == meal.category@,
            r.1@ == meal_of(meal),
    {
        let desc = trim(meal.description_clean.as_str());
        let description = if desc.as_str().is_empty() {
            None
        } else {
            Some(desc)
        };
        let price = if meal.preis_vorhanden {
            MealPrice::parse(meal.preis1.as_str(), meal.preis2.as_str(), meal.preis3.as_str())
        } else {
            None
        };
        let info = MealInfo::parse(meal.kennzeichnungen.as_str());
        (
            meal.category,
            MensaMeal {
                title: meal.title_clean,
                description,
                price,
                info,
                id: meal.attributes.artikel_id,
            },
        )
    }
}

impl Clone for MensaMeal {
    fn clone(&self) -> (r: Self)
        ensures
            r@ == self@,
    {
        proof {
            use_type_invariant(self);
        }
        MensaMeal {
            title: self.title.clone(),
            description: match &self.description {
                Some(d) => Some(d.clone()),
                None => None,
            },
            price: self.price,
            info: self.info.clone(),
            id: self.id.clone(),
        }
    }
}

impl MealDay {
    #[verifier::type_invariant]
    spec fn inv(self) -> bool {
        names_of(categories_view(self.categories@)).no_duplicates()
    }

    /// A day on which nothing is offered yet.
    pub fn new(date: Date) -> (day: MealDay)
        ensures
            day@ == (MealDayView { date: date@, categories: Seq::empty() }),
    {
        let day = MealDay { date, categories: Vec::new() };
        assert(categories_view(day.categories@) =~= Seq::empty());
        day
    }

    /// The date of the day.
    pub fn date(&self) -> (date: Date)
        ensures
            date@ == self@.date,
    {
        self.date
    }

    /// The categories, in the order in which they were first put in.
    pub fn categories(&self) -> (r: &Vec<Category>)
        ensures
            categories_view(r@) == self@.categories,
            names_of(self@.categories).no_duplicates(),
    {
        proof {
            use_type_invariant(self);
        }
        &self.categories
    }

    /// The dishes of a category, if the day has that category.
    pub fn meals(&self, category: &str) -> (r: Option<&Vec<MensaMeal>>)
        ensures
            match r {
                Some(meals) => dishes(self@.categories, category@) == Some(meals_view(meals@)),
                None => dishes(self@.categories, category@) is None,
            },
    {
        proof {
            use_type_invariant(self);
        }
        let ghost cats = categories_view(self.categories@);
        let wanted = category.to_owned();
        let mut i: usize = 0;
        while i < self.categories.len()
            invariant
                i <= self.categories.len(),
                cats == categories_view(self.categories@),
                names_of(cats).no_duplicates(),
                wanted@ == category@,
                forall|j: int| 0 <= j < i ==> cats[j].name != category@,
            decreases self.categories.len() - i,
        {
            if self.categories[i].name == wanted {
                proof {
                    assert(cats[i as int].name == category@);
                    let j = choose|j: int| 0 <= j < cats.len() && cats[j].name == category@;
                    if j != i {
                        assert(names_of(cats)[j] == names_of(cats)[i as int]);
                    }
                }
                return Some(&self.categories[i].meals);
            }
            i += 1;
        }
        None
    }

    /// The day that upstream's records of one date describe.
    pub fn from_raw(date: Date, essen: Vec<ApiMeal>) -> (day: MealDay)
        ensures
            day@ == (MealDayView { date: date@, categories: grouped(essen@) }),
    {
        let mut day = MealDay::new(date);
        let ghost all = essen@;
        assert(grouped(all.take(0)) =~= Seq::empty());
        for meal in it: essen
            invariant
                it.seq() == all,
                day@ == (MealDayView {
                    date: date@,
                    categories: grouped(all.take(it.index() as int)),
                }),
        {
            proof {
                lemma_grouped_push(all.take(it.index() as int), meal);
                assert(all.take(it.index() + 1) =~= all.take(it.index() as int).push(meal));
            }
            let (category, dish) = MensaMeal::from_raw(meal);
            day.push_meal(category, dish);
        }
        assert(all.take(all.len() as int) =~= all);
        day
    }

    /// Puts one more dish into a category of the day.
    pub fn push_meal(&mut self, category: String, meal: MensaMeal)
        ensures
            final(self)@ == (MealDayView {
                date: old(self)@.date,
                categories: with_meal(old(self)@.categories, category@, meal@),
            }),
    {
        proof {
            use_type_invariant(&*self);
        }
        let mut categories: Vec<Category> = Vec::new();
        std::mem::swap(&mut categories, &mut self.categories);
        let ghost before = categories_view(categories@);
        let ghost names = names_of(before);
        let mut i: usize = 0;
        while i < categories.len()
            invariant
                i <= categories.len(),
                before == categories_view(categories@),
                names == names_of(before),
                forall|j: int| 0 <= j < i ==> names[j] != category@,
            ensures
                i <= categories.len(),
                i < categories.len() ==> names[i as int] == category@,
                forall|j: int| 0 <= j < i ==> names[j] != category@,
            decreases categories.len() - i,
        {
            if categories[i].name == category {
                break ;
            }
            i += 1;
        }
        if i < categories.len() {
            let ghost meal_view = meal@;
            categories[i].meals.push(meal);
            proof {
                assert(names.index_of(category@) == i);
                assert(meals_view(categories@[i as int].meals@) =~= before[i as int].meals.push(
                    meal_view,
                ));
                assert(categories_view(categories@) =~= with_meal(before, category@, meal_view));
                assert(names_of(categories_view(categories@)) =~= names);
            }
        } else {
            let ghost meal_view = meal@;
            let ghost name = category@;
            let mut meals: Vec<MensaMeal> = Vec::new();
            meals.push(meal);
            categories.push(Category { name: category, meals });
            proof {
                assert(!names.contains(name));
                assert(meals_view(meals@) =~= seq![meal_view]);
                assert(categories_view(categories@) =~= with_meal(before, name, meal_view));
                assert(names_of(categories_view(categories@)) =~= names.push(name));
            }
        }
        self.categories = categories;
    }
}

impl Category {
    pub fn name(&self) -> (r: &str)
        ensures
            r@ == self@.name,
    {
        self.name.as_str()
    }

    /// The dishes, in the order in which they were put in.
    pub fn meals(&self) -> (r: &Vec<MensaMeal>)
        ensures
            meals_view(r@) == self@.meals,
    {
        &self.meals
    }
}

impl Clone for Category {
    fn clone(&self) -> (r: Self)
        ensures
            r@ == self@,
    {
        let meals = self.meals.clone();
        assert(meals_view(meals@) =~= meals_view(self.meals@));
        Category { name: self.name.clone(), meals }
    }
}

impl Clone for MealDay {
    fn clone(&self) -> (r: Self)
        ensures
            r@ == self@,
    {
        proof {
            use_type_invariant(self);
        }
        let categories = self.categories.clone();
        assert(categories_view(categories@) =~= categories_view(self.categories@));
        MealDay { date: self.date, categories }
    }
}

} // verus!
