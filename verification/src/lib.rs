//! Meal plans of cafeterias: the normalised model, its parsers, the sorted
//! day store, the keyed cache and the tiered resolution of queries.
//!
//! The library is verified with Verus. Its modules, from the leaves up:
//!
//! * [`text`]: splitting, trimming and number reading on texts;
//! * [`date`]: calendar dates as day numbers, and the days a query may name;
//! * [`price`], [`info`]: prices and labels, and how they are read;
//! * [`raw`]: upstream's own shapes;
//! * [`meal`]: meals, and days with their meals grouped by category;
//! * [`plan`]: one facility's days, strictly sorted by date;
//! * [`plans`]: the cache of plans, keyed by facility and language;
//! * [`durable`]: the documents of the durable store and what to ask of it;
//! * [`manager`]: the steps by which a query is answered from memory, the
//!   durable store and upstream;
//! * [`config`]: where the durable store is found.
//!
//! The library sends no request and reads no clock. A caller performs what
//! a step asks for and hands the outcome back.
//!
//! Three things are taken on trust: that `char::is_whitespace` answers by
//! the character alone, and that `chrono` reads and writes dates as the
//! two private wrappers in [`date`] say.
pub mod config;
pub mod date;
pub mod durable;
pub mod info;
pub mod manager;
pub mod meal;
pub mod plan;
pub mod plans;
pub mod price;
pub mod raw;
pub mod text;

pub use config::DbConfig;
pub use date::{Date, MensaDate, MensaRelativeDate, Weekday};
pub use durable::{
    DayFilter, DayUpsert, FacilityFilter, FacilityUpsert, MealCollections, MensaData,
    MensaMealDay, RecordId,
};
pub use info::{
    InfoItem, MealAddative, MealAllergen, MealAttribute, MealEnvRating, MealInfo, Rating,
};
pub use manager::{
    DayRequest, DayStep, MealPlanError, MealPlanManager, PlanStep, StoreJob, UpstreamFailure,
};
pub use meal::{Category, MealDay, MensaMeal};
pub use plan::{DayLookup, MealPlan, MealPlanParseError};
pub use plans::MealPlans;
pub use price::{MealPrice, Price};
pub use raw::{ApiDay, ApiMeal, ApiMealAttributes, ApiPlan, ApiQuery, ApiResult};
