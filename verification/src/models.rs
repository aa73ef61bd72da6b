//! The models that can be selected.

use vstd::prelude::*;
use crate::adapter::same_but_models;
use crate::adapter::Adapter;
use crate::json::lemma_added_member;
use crate::json::lemma_other_member;
use crate::json::members_count;
use crate::json::Json;
use crate::json::JsonTree;
use crate::text;
use crate::wording::trimming_drops_white_space_only;

verus! {

/// What asking for the models found: those that `agy models` named, none where it
/// failed, and those of the cache, where there is one that can be used.
pub struct ModelListing {
    pub fetched: Vec<String>,
    pub cached: Option<Vec<String>>,
}

/// The models of last resort.
pub open spec fn fallback_models() -> Seq<Seq<char>> {
    seq!["gemini-2.5-pro"@, "gemini-2.5-flash"@, "gemini-2.0-flash"@]
}

/// The names of a list of models that may be absent.
pub open spec fn opt_models(o: Option<Vec<String>>) -> Option<Seq<Seq<char>>> {
    match o {
        Some(list) => Some(text::texts(list@)),
        None => None,
    }
}

/// The models to offer: those that were fetched, else the cached ones, else the last
/// resort.
pub open spec fn chosen_models(listing: ModelListing) -> Seq<Seq<char>> {
    if listing.fetched@.len() > 0 {
        text::texts(listing.fetched@)
    } else {
        match opt_models(listing.cached) {
            Some(cached) => cached,
            None => fallback_models(),
        }
    }
}

/// The models of a cache that can be used: one that could be read and holds at least one.
pub open spec fn usable(list: Option<Seq<Seq<char>>>) -> Option<Seq<Seq<char>>> {
    match list {
        Some(models) => if models.len() > 0 {
            Some(models)
        } else {
            None
        },
        None => None,
    }
}

/// The models of an adapter: those it knows, else the ones to offer.
pub open spec fn known_models(
    available: Option<Vec<String>>,
    listing: ModelListing,
) -> Seq<Seq<char>> {
    match opt_models(available) {
        Some(models) => models,
        None => chosen_models(listing),
    }
}

/// The lines of an output that are not blank, each without the white space around it.
pub open spec fn listed_models(output: Seq<Seq<char>>) -> Seq<Seq<char>>
    decreases output.len(),
{
    if output.len() == 0 {
        seq![]
    } else {
        let line = text::trim(output.last());
        if line.len() > 0 {
            listed_models(output.drop_last()).push(line)
        } else {
            listed_models(output.drop_last())
        }
    }
}

/// The choice that stands for a model.
pub open spec fn model_option(model: Seq<char>) -> JsonTree {
    JsonTree::object().with("value"@, JsonTree::Text(model)).with("name"@, JsonTree::Text(model))
}

/// The model selector: nothing where there are no models, else a list of one option whose
/// current value is the selected model or, where none is selected, the first one.
pub open spec fn config_options(
    models: Seq<Seq<char>>,
    model_id: Option<Seq<char>>,
) -> JsonTree {
    if models.len() == 0 {
        JsonTree::Array(seq![])
    } else {
        let current = match model_id {
            Some(m) => m,
            None => models[0],
        };
        JsonTree::Array(
            seq![
                JsonTree::object().with("id"@, JsonTree::Text("model"@)).with(
                    "name"@,
                    JsonTree::Text("Model"@),
                ).with("category"@, JsonTree::Text("model"@)).with(
                    "type"@,
                    JsonTree::Text("select"@),
                ).with("currentValue"@, JsonTree::Text(current)).with(
                    "options"@,
                    JsonTree::Array(models.map_values(|m: Seq<char>| model_option(m))),
                ),
            ],
        )
    }
}

/// How the run of `agy models` stands.
pub enum ModelRun {
    /// It has exited.
    Exited { success: bool },
    /// It still runs.
    Running,
    /// Asking for its state failed.
    Unknown,
}

/// What is done about the run of `agy models`.
pub enum ModelStep {
    /// Its output is read.
    Read,
    /// It is given up.
    GiveUp,
    /// It is ended, and given up.
    Kill,
    /// It is looked at again after a while.
    Wait,
}

/// The time that `agy models` is given, in nanoseconds.
pub const MODEL_TIMEOUT: u128 = 5_000_000_000;

/// What is done about a run of `agy models` that began so many nanoseconds ago.
pub open spec fn model_step(run: ModelRun, elapsed: u128) -> ModelStep {
    match run {
        ModelRun::Exited { success: true } => ModelStep::Read,
        ModelRun::Exited { success: false } => ModelStep::GiveUp,
        ModelRun::Running => if elapsed > MODEL_TIMEOUT {
            ModelStep::Kill
        } else {
            ModelStep::Wait
        },
        ModelRun::Unknown => ModelStep::GiveUp,
    }
}

/// What `serde_json::from_str::<Vec<String>>` reads from a text: nothing where it reports
/// an error.
pub uninterp spec fn models_read(text: Seq<char>) -> Option<Seq<Seq<char>>>;

/// `serde_json::from_str::<Vec<String>>`: reads a JSON array of strings, and drops the
/// error where the text is not one. What it reads is a function of the text.
#[verifier::external_body]
fn models_from_text(content: &str) -> (r: Option<Vec<String>>)
    ensures
        opt_models(r) == models_read(content@),
{
    serde_json::from_str::<Vec<String>>(content).ok()
}

/// What `serde_json::to_string` writes for a list of strings.
pub uninterp spec fn models_written(models: Seq<Seq<char>>) -> Seq<char>;

/// `serde_json::to_string` on a list of strings: it writes a JSON array, which never fails
/// on strings, is a function of the list, and is read back as the same list.
#[verifier::external_body]
fn text_from_models(models: &Vec<String>) -> (r: Option<String>)
    ensures
        r is Some,
        r->0@ == models_written(text::texts(models@)),
        models_read(r->0@) == Some(text::texts(models@)),
{
    serde_json::to_string(models).ok()
}

impl Adapter {
    /// The models of last resort.
    pub fn static_fallback_models() -> (r: Vec<String>)
        ensures
            text::texts(r@) == fallback_models(),
    {
        let r = vec![
            "gemini-2.5-pro".to_owned(),
            "gemini-2.5-flash".to_owned(),
            "gemini-2.0-flash".to_owned(),
        ];
        assert(text::texts(r@) =~= fallback_models());
        r
    }

    /// The models that a cache file with this content holds: nothing where there is no
    /// file, its content is not a list of names, or the list is empty.
    pub fn load_cached_models(content: Option<&str>) -> (r: Option<Vec<String>>)
        ensures
            opt_models(r) == (match content {
                Some(c) => usable(models_read(c@)),
                None => None,
            }),
    {
        match content {
            Some(c) => Self::usable_models(models_from_text(c)),
            None => None,
        }
    }

    /// The models of a cache, where it could be read and holds at least one.
    pub fn usable_models(parsed: Option<Vec<String>>) -> (r: Option<Vec<String>>)
        ensures
            opt_models(r) == usable(opt_models(parsed)),
    {
        match parsed {
            Some(models) => if models.len() > 0 {
                Some(models)
            } else {
                None
            },
            None => None,
        }
    }

    /// The content of the cache file for these models.
    pub fn models_cache_content(models: &Vec<String>) -> (r: Option<String>)
        ensures
            r is Some,
            r->0@ == models_written(text::texts(models@)),
            models_read(r->0@) == Some(text::texts(models@)),
    {
        text_from_models(models)
    }

    /// Decides what is done about a run of `agy models` that began so many nanoseconds ago.
    pub fn fetch_step(run: ModelRun, elapsed: u128) -> (r: ModelStep)
        ensures
            r == model_step(run, elapsed),
    {
        match run {
            ModelRun::Exited { success } => if success {
                ModelStep::Read
            } else {
                ModelStep::GiveUp
            },
            ModelRun::Running => if elapsed > MODEL_TIMEOUT {
                ModelStep::Kill
            } else {
                ModelStep::Wait
            },
            ModelRun::Unknown => ModelStep::GiveUp,
        }
    }

    /// The models that the output of `agy models` names, one in each line.
    pub fn parse_models(output: &str) -> (r: Vec<String>)
        ensures
            text::texts(r@) == listed_models(text::lines(output@)),
    {
        let lines = text::split_lines(output);
        let ghost all = text::lines(output@);
        let mut r: Vec<String> = Vec::new();
        let mut i: usize = 0;
        assert(text::texts(r@) =~= Seq::<Seq<char>>::empty());
        while i < lines.len()
            invariant
                i <= lines@.len(),
                text::texts(lines@) == all,
                text::texts(r@) == listed_models(all.take(i as int)),
            decreases lines@.len() - i,
        {
            let line = text::trimmed(lines[i].as_str());
            let ghost before = text::texts(r@);
            assert(all.take(i + 1).drop_last() == all.take(i as int));
            assert(all.take(i + 1).last() == lines@[i as int]@);
            if !line.as_str().is_empty() {
                r.push(line);
                assert(text::texts(r@) == before.push(line@));
            }
            i += 1;
        }
        assert(all.take(i as int) == all);
        r
    }

    /// Whether the models have still to be asked for.
    pub fn needs_models(&self) -> (r: bool)
        ensures
            r == (self.available_models is None),
    {
        self.available_models.is_none()
    }

    /// Settles the models where they are not known yet; whether the cache is to be written
    /// anew, which is so where they were fetched just now.
    pub fn get_available_models(&mut self, listing: &ModelListing) -> (r: bool)
        ensures
            same_but_models(*old(self), *final(self)),
            opt_models(final(self).available_models) == Some(
                known_models(old(self).available_models, *listing),
            ),
            old(self).available_models is Some ==> final(self).available_models == old(
                self,
            ).available_models,
            r == (old(self).available_models is None && listing.fetched@.len() > 0),
    {
        if self.available_models.is_some() {
            return false;
        }
        if listing.fetched.len() > 0 {
            self.available_models = Some(text::copied(&listing.fetched));
            return true;
        }
        match &listing.cached {
            Some(cached) => {
                self.available_models = Some(text::copied(cached));
            },
            None => {
                self.available_models = Some(Self::static_fallback_models());
            },
        }
        false
    }

    /// The configuration options of a session with this model: the model selector.
    pub fn config_options_json(
        &mut self,
        model_id: Option<&str>,
        listing: &ModelListing,
    ) -> (r: Json)
        ensures
            same_but_models(*old(self), *final(self)),
            opt_models(final(self).available_models) == Some(
                known_models(old(self).available_models, *listing),
            ),
            r@ == config_options(
                known_models(old(self).available_models, *listing),
                text::opt_str(model_id),
            ),
    {
        self.get_available_models(listing);
        match &self.available_models {
            Some(models) => model_selector(models, model_id),
            None => Json::array(Vec::new()),
        }
    }
}

/// The model selector over these models.
pub fn model_selector(models: &Vec<String>, model_id: Option<&str>) -> (r: Json)
    ensures
        r@ == config_options(text::texts(models@), text::opt_str(model_id)),
{
    if models.len() == 0 {
        let r = Json::array(Vec::new());
        assert(r@->Array_0 =~= Seq::<JsonTree>::empty());
        return r;
    }
    let ghost names = text::texts(models@);
    let ghost expected = names.map_values(|m: Seq<char>| model_option(m));
    let current = match model_id {
        Some(m) => m,
        None => models[0].as_str(),
    };
    let mut options: Vec<Json> = Vec::new();
    let mut i: usize = 0;
    while i < models.len()
        invariant
            i <= models@.len(),
            names == text::texts(models@),
            expected == names.map_values(|m: Seq<char>| model_option(m)),
            options@.len() == i,
            forall|j: int| 0 <= j < i ==> (#[trigger] options@[j])@ == expected[j],
        decreases models@.len() - i,
    {
        let name = models[i].as_str();
        let option = Json::object().with("value", Json::text(name)).with("name", Json::text(name));
        assert(option@ == model_option(names[i as int]));
        options.push(option);
        i += 1;
    }
    let options = Json::array(options);
    assert(options@->Array_0 =~= expected);
    let selector = Json::object().with("id", Json::text("model")).with("name", Json::text("Model"))
        .with("category", Json::text("model")).with("type", Json::text("select")).with(
        "currentValue",
        Json::text(current),
    ).with("options", options);
    let mut list: Vec<Json> = Vec::new();
    list.push(selector);
    let r = Json::array(list);
    assert(r@->Array_0 =~= seq![selector@]);
    r
}

/// A cache that is used holds at least one model; so there is always a model to select,
/// unless the adapter was told that there is none.
pub proof fn there_is_a_model(available: Option<Vec<String>>, listing: ModelListing)
    requires
        opt_models(available) matches Some(models) ==> models.len() > 0,
        opt_models(listing.cached) matches Some(models) ==> models.len() > 0,
    ensures
        known_models(available, listing).len() > 0,
        config_options(known_models(available, listing), None) != JsonTree::Array(
            Seq::<JsonTree>::empty(),
        ),
{
    let models = known_models(available, listing);
    assert(models.len() > 0);
    assert(config_options(models, None)->Array_0.len() == 1);
}

/// The models of a listing are trimmed and not empty.
pub proof fn listed_models_are_names(output: Seq<Seq<char>>, i: int)
    requires
        0 <= i < listed_models(output).len(),
    ensures
        listed_models(output)[i].len() > 0,
        exists|j: int|
            0 <= j < output.len() && text::trim(#[trigger] output[j]) == listed_models(output)[i],
    decreases output.len(),
{
    let before = output.drop_last();
    if i < listed_models(before).len() {
        listed_models_are_names(before, i);
        let j = choose|j: int|
            0 <= j < before.len() && text::trim(#[trigger] before[j]) == listed_models(before)[i];
        assert(output[j] == before[j]);
    } else {
        assert(text::trim(output[output.len() - 1]) == listed_models(output)[i]);
    }
}

/// The selector offers exactly one choice for each model, in their order, and each choice
/// has the model for its value and for its name; the current value is the selected model or,
/// where none is selected, the value of the first choice.
pub proof fn selectors_offer_the_models(models: Seq<Seq<char>>, model_id: Option<Seq<char>>)
    ensures
        models.len() == 0 ==> config_options(models, model_id) == JsonTree::Array(
            Seq::<JsonTree>::empty(),
        ),
        models.len() > 0 ==> {
            let list = config_options(models, model_id)->Array_0;
            let choices = list[0].get("options"@)->0->Array_0;
            &&& config_options(models, model_id) is Array
            &&& list.len() == 1
            &&& members_count(list[0], 6)
            &&& list[0].text_member("id"@) == Some("model"@)
            &&& list[0].text_member("name"@) == Some("Model"@)
            &&& list[0].text_member("category"@) == Some("model"@)
            &&& list[0].text_member("type"@) == Some("select"@)
            &&& list[0].text_member("currentValue"@) is Some
            &&& model_id is Some ==> list[0].text_member("currentValue"@) == model_id
            &&& model_id is None ==> list[0].text_member("currentValue"@)
                == choices[0].text_member("value"@)
            &&& list[0].get("options"@) == Some(JsonTree::Array(choices))
            &&& choices.len() == models.len()
            &&& forall|i: int|
                #![trigger choices[i]]
                #![trigger models[i]]
                0 <= i < models.len() ==> choices[i].text_member("value"@) == Some(models[i])
                    && choices[i].text_member("name"@) == Some(models[i]) && members_count(
                    choices[i],
                    2,
                )
        },
{
    broadcast use {lemma_added_member, lemma_other_member};

    if models.len() > 0 {
        reveal_strlit("id");
        reveal_strlit("name");
        reveal_strlit("category");
        reveal_strlit("type");
        reveal_strlit("currentValue");
        reveal_strlit("options");
        reveal_strlit("value");
        assert("id"@.len() == 2 && "name"@.len() == 4 && "category"@.len() == 8);
        assert("type"@.len() == 4 && "currentValue"@.len() == 12 && "options"@.len() == 7);
        assert("value"@.len() == 5);
        assert("name"@[0] != "type"@[0]);
        let list = config_options(models, model_id)->Array_0;
        let choices = models.map_values(|m: Seq<char>| model_option(m));
        let current = match model_id {
            Some(m) => m,
            None => models[0],
        };
        let o = JsonTree::object().with("id"@, JsonTree::Text("model"@)).with(
            "name"@,
            JsonTree::Text("Model"@),
        ).with("category"@, JsonTree::Text("model"@)).with("type"@, JsonTree::Text("select"@));
        let c = o.with("currentValue"@, JsonTree::Text(current));
        let selector = c.with("options"@, JsonTree::Array(choices));
        assert(list[0] == selector);
        assert(selector.get("options"@) == Some(JsonTree::Array(choices)));
        assert(selector.get("currentValue"@) == Some(JsonTree::Text(current)));
        assert(selector.get("type"@) == Some(JsonTree::Text("select"@)));
        assert(selector.get("category"@) == Some(JsonTree::Text("model"@)));
        assert(selector.get("name"@) == Some(JsonTree::Text("Model"@)));
        assert(selector.get("id"@) == Some(JsonTree::Text("model"@)));
        assert forall|i: int| 0 <= i < models.len() implies (#[trigger] choices[i]).text_member(
            "value"@,
        ) == Some(models[i]) && choices[i].text_member("name"@) == Some(models[i])
            && members_count(choices[i], 2) by {
            assert(choices[i] == model_option(models[i]));
        }
        assert(choices[0].text_member("value"@) == Some(models[0]));
    }
}

/// A line names the model that is left of it once it is trimmed, and none where nothing is
/// left; the models of a listing are those of its lines, in their order.
pub proof fn listings_add_up(a: Seq<Seq<char>>, b: Seq<Seq<char>>, line: Seq<char>)
    ensures
        listed_models(a + b) == listed_models(a) + listed_models(b),
        text::is_blank(line) ==> listed_models(seq![line]) == Seq::<Seq<char>>::empty(),
        !text::is_blank(line) ==> listed_models(seq![line]) == seq![text::trim(line)],
    decreases b.len(),
{
    let one = seq![line];
    trimming_drops_white_space_only(line);
    assert(one.drop_last() =~= Seq::<Seq<char>>::empty());
    assert(listed_models(one.drop_last()) =~= Seq::<Seq<char>>::empty());
    if b.len() == 0 {
        assert(a + b =~= a);
        assert(listed_models(a) + listed_models(b) =~= listed_models(a));
    } else {
        let c = b.drop_last();
        assert((a + b).drop_last() =~= a + c);
        assert((a + b).last() == b.last());
        listings_add_up(a, c, line);
        assert(listed_models(a + b) =~= listed_models(a) + listed_models(b));
    }
}

/// The models that are known stay; else those that were fetched are taken, whatever the
/// cache holds; else those of the cache; else the last resort, which is three models.
pub proof fn models_have_their_order(available: Option<Vec<String>>, listing: ModelListing)
    ensures
        available is Some ==> known_models(available, listing) == text::texts(available->0@),
        available is None && listing.fetched@.len() > 0 ==> known_models(available, listing)
            == text::texts(listing.fetched@),
        available is None && listing.fetched@.len() == 0 && listing.cached is Some
            ==> known_models(available, listing) == text::texts(listing.cached->0@),
        available is None && listing.fetched@.len() == 0 && listing.cached is None ==> {
            let models = known_models(available, listing);
            &&& models.len() == 3
            &&& models[0] == "gemini-2.5-pro"@
            &&& models[1] == "gemini-2.5-flash"@
            &&& models[2] == "gemini-2.0-flash"@
        },
{
}

/// `agy models` is given five seconds: its output is read only once it has exited with
/// success, and it is ended exactly if it still runs after that time.
pub proof fn listing_models_is_bounded(run: ModelRun, elapsed: u128)
    ensures
        model_step(run, elapsed) is Read <==> run == (ModelRun::Exited { success: true }),
        model_step(run, elapsed) is Kill <==> run is Running && elapsed > 5_000_000_000,
        model_step(run, elapsed) is Wait <==> run is Running && elapsed <= 5_000_000_000,
{
}

/// A cache with models is used as it is; an empty one, and one that could not be read, are
/// as if there were none.
pub proof fn caches_with_models_are_used(models: Seq<Seq<char>>)
    ensures
        models.len() > 0 ==> usable(Some(models)) == Some(models),
        models.len() == 0 ==> usable(Some(models)) is None,
        usable(None) is None,
{
}

/// The names of a list of models are those of its items, in their order.
pub proof fn model_lists_say_their_names(list: Vec<String>, i: int)
    ensures
        opt_models(None) is None,
        opt_models(Some(list)) is Some,
        opt_models(Some(list))->0.len() == list@.len(),
        0 <= i < list@.len() ==> opt_models(Some(list))->0[i] == list@[i]@,
{
}

} // verus!
