//! The upstream service's own shapes: the query it takes and the answer it
//! gives, field for field.
use crate::text::{owned_text, text_of};
use vstd::prelude::*;

verus! {

/// The parameters of one upstream request.
#[derive(Debug)]
pub struct ApiQuery {
    mensa_id: String,
    json: String,
    mode: String,
    lang: Option<String>,
}

/// The parameters of a request, as texts.
pub struct ApiQueryView {
    pub mensa_id: Seq<char>,
    pub json: Seq<char>,
    pub mode: Seq<char>,
    pub lang: Option<Seq<char>>,
}

#[derive(Debug)]
pub struct ApiResult {
    pub result: Vec<ApiPlan>,
    pub mensaname: String,
}

#[derive(Debug)]
pub struct ApiPlan {
    pub tag: ApiDay,
    pub essen: Vec<ApiMeal>,
}

#[derive(Debug)]
pub struct ApiDay {
    /// Seconds since the Unix epoch.
    pub timestamp: u64,
    pub datum_iso: String,
    pub tag_formatiert: String,
    pub tag_formatiert2: String,
    pub tag_formatiert_rel: String,
    pub jahrestag: String,
    pub wochentag: String,
    pub wochentag_short: String,
    pub datum: String,
    pub datum2: String,
    pub wota_index: String,
    pub kw: String,
}

#[derive(Debug)]
pub struct ApiMeal {
    pub category: String,
    pub title: String,
    pub description: String,
    /// The coded labels, set apart by commas.
    pub kennzeichnungen: String,
    pub preis1: String,
    pub preis2: String,
    pub preis3: String,
    pub ampel: String,
    pub co2_wert: String,
    pub co2_bewertung: String,
    pub h2o_wert: String,
    pub h2o_bewertung: String,
    pub attributes: ApiMealAttributes,
    pub title_orig: String,
    pub already_extracted_title: bool,
    pub title_clean: String,
    pub title2: String,
    pub already_extracted_description: bool,
    pub description_clean: String,
    pub md5_source: String,
    pub md5: String,
    pub kat_id: String,
    pub loc_id: String,
    pub a_id: String,
    pub kennz_rest: String,
    pub preis_vorhanden: bool,
}

#[derive(Debug)]
pub struct ApiMealAttributes {
    pub produktion_id: String,
    pub artikel_id: String,
    pub dispo_id: String,
}

/// The request for one facility's plan: the answer is asked for as JSON and
/// in the fixed mode `slsys`; the language is sent only where one is given.
pub open spec fn query_for(mensa: Seq<char>, lang: Option<Seq<char>>) -> ApiQueryView {
    ApiQueryView { mensa_id: mensa, json: "1"@, mode: "slsys"@, lang }
}

impl View for ApiQuery {
    type V = ApiQueryView;

    closed spec fn view(&self) -> ApiQueryView {
        ApiQueryView {
            mensa_id: self.mensa_id@,
            json: self.json@,
            mode: self.mode@,
            lang: owned_text(self.lang),
        }
    }
}

impl ApiQuery {
    pub fn new(mensa: &str, lang: Option<&str>) -> (q: ApiQuery)
        ensures
            q@ == query_for(mensa@, text_of(lang)),
    {
        ApiQuery {
            mensa_id: mensa.to_owned(),
            json: "1".to_owned(),
            mode: "slsys".to_owned(),
            lang: match lang {
                Some(l) => Some(l.to_owned()),
                None => None,
            },
        }
    }

    pub fn mensa_id(&self) -> (r: &str)
        ensures
            r@ == self@.mensa_id,
    {
        self.mensa_id.as_str()
    }

    pub fn json(&self) -> (r: &str)
        ensures
            r@ == self@.json,
    {
        self.json.as_str()
    }

    pub fn mode(&self) -> (r: &str)
        ensures
            r@ == self@.mode,
    {
        self.mode.as_str()
    }

    pub fn lang(&self) -> (r: Option<&str>)
        ensures
            text_of(r) == self@.lang,
    {
        match &self.lang {
            Some(l) => Some(l.as_str()),
            None => None,
        }
    }
}

} // verus!
