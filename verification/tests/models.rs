use agy_acp::adapter::Adapter;
use agy_acp::json::Json;
use agy_acp::models::model_selector;
use agy_acp::models::ModelListing;
use agy_acp::models::ModelRun;
use agy_acp::models::ModelStep;

fn names(list: &[&str]) -> Vec<String> {
    list.iter().map(|n| n.to_string()).collect()
}

fn settle(available: Option<Vec<String>>, listing: ModelListing) -> (bool, Option<Vec<String>>) {
    let mut adapter = Adapter::new(None, None);
    adapter.available_models = available;
    let fetched = adapter.get_available_models(&listing);
    (fetched, adapter.available_models)
}

#[test]
fn the_last_resort_is_three_models() {
    assert_eq!(
        Adapter::static_fallback_models(),
        names(&["gemini-2.5-pro", "gemini-2.5-flash", "gemini-2.0-flash"])
    );
}

#[test]
fn models_are_listed_one_in_each_line() {
    assert_eq!(
        Adapter::parse_models("  one \r\n\n\ttwo words\n \u{3000}\nthree"),
        names(&["one", "two words", "three"])
    );
    assert_eq!(Adapter::parse_models(""), names(&[]));
    assert_eq!(Adapter::parse_models("\n \n"), names(&[]));
}

#[test]
fn cached_models_are_read_back() {
    let models = names(&["a", "\"quoted\"", "größe\n"]);
    let content = Adapter::models_cache_content(&models).unwrap();
    assert_eq!(content, "[\"a\",\"\\\"quoted\\\"\",\"größe\\n\"]");
    assert_eq!(Adapter::load_cached_models(Some(&content)), Some(models));
}

#[test]
fn a_cache_that_says_nothing_is_not_used() {
    assert_eq!(Adapter::load_cached_models(None), None);
    assert_eq!(Adapter::load_cached_models(Some("")), None);
    assert_eq!(Adapter::load_cached_models(Some("[]")), None);
    assert_eq!(Adapter::load_cached_models(Some("[1]")), None);
    assert_eq!(Adapter::load_cached_models(Some("{}")), None);
    assert_eq!(Adapter::load_cached_models(Some(" [\"x\"] ")), Some(names(&["x"])));
    assert_eq!(Adapter::usable_models(Some(names(&[]))), None);
    assert_eq!(Adapter::usable_models(Some(names(&["x"]))), Some(names(&["x"])));
    assert_eq!(Adapter::usable_models(None), None);
}

#[test]
fn fetched_models_come_before_cached_ones() {
    let listing = |fetched: &[&str], cached: Option<&[&str]>| ModelListing {
        fetched: names(fetched),
        cached: cached.map(names),
    };
    assert_eq!(settle(None, listing(&["f"], Some(&["c"]))), (true, Some(names(&["f"]))));
    assert_eq!(settle(None, listing(&[], Some(&["c"]))), (false, Some(names(&["c"]))));
    assert_eq!(
        settle(None, listing(&[], None)),
        (false, Some(Adapter::static_fallback_models()))
    );
    assert_eq!(
        settle(Some(names(&["k"])), listing(&["f"], Some(&["c"]))),
        (false, Some(names(&["k"])))
    );
    assert_eq!(settle(Some(names(&[])), listing(&["f"], None)), (false, Some(names(&[]))));
    assert!(Adapter::new(None, None).needs_models());
}

#[test]
fn the_selector_shows_the_selected_model() {
    let models = names(&["a", "b"]);
    let current = |model_id: Option<&str>| match model_selector(&models, model_id) {
        Json::Array(list) => list[0].text_member("currentValue").unwrap().to_string(),
        _ => panic!("not a list"),
    };
    assert_eq!(current(None), "a");
    assert_eq!(current(Some("b")), "b");
    assert_eq!(current(Some("unlisted")), "unlisted");
    assert_eq!(model_selector(&names(&[]), Some("b")), Json::array(vec![]));
    let mut adapter = Adapter::new(None, None);
    let listing = ModelListing { fetched: names(&["a", "b"]), cached: None };
    assert_eq!(
        adapter.config_options_json(Some("b"), &listing),
        model_selector(&models, Some("b"))
    );
}

#[test]
fn listing_models_takes_at_most_five_seconds() {
    let second: u128 = 1_000_000_000;
    assert!(matches!(Adapter::fetch_step(ModelRun::Running, 0), ModelStep::Wait));
    assert!(matches!(Adapter::fetch_step(ModelRun::Running, 5 * second), ModelStep::Wait));
    assert!(matches!(Adapter::fetch_step(ModelRun::Running, 5 * second + 1), ModelStep::Kill));
    let exited = |success: bool| ModelRun::Exited { success };
    assert!(matches!(Adapter::fetch_step(exited(true), 9 * second), ModelStep::Read));
    assert!(matches!(Adapter::fetch_step(exited(false), 0), ModelStep::GiveUp));
    assert!(matches!(Adapter::fetch_step(ModelRun::Unknown, 0), ModelStep::GiveUp));
}

#[test]
fn files_stand_under_the_home_directory() {
    let adapter = Adapter::new(Some("/home/u"), Some("/w"));
    assert_eq!(adapter.working_dir, "/w");
    assert_eq!(adapter.conversations_dir, "/home/u/.gemini/antigravity-cli/conversations");
    assert_eq!(adapter.state_file, "/home/u/.openab/agy-acp/sessions.json");
    assert_eq!(adapter.models_cache_path(), "/home/u/.openab/agy-acp/models_cache.json");
    let lost = Adapter::new(None, None);
    assert_eq!(lost.working_dir, "/tmp");
    assert_eq!(lost.state_file, "/tmp/.openab/agy-acp/sessions.json");
    for home in ["/", "", ".", "..", "a/", "./x"] {
        let adapter = Adapter::new(Some(home), None);
        let path = std::path::Path::new(home).join(".openab/agy-acp").join("sessions.json");
        assert_eq!(adapter.state_file, path.to_str().unwrap());
        assert_eq!(
            adapter.models_cache_path(),
            path.with_file_name("models_cache.json").to_str().unwrap()
        );
    }
}
