use speech_pipeline::settings::{
    choose_sampling, plan_decoding, plan_live_decoding, SamplingPlan, SamplingStrategyConfig,
    TranscriptionSettings,
};

fn config(strategy_type: &str, best_of: Option<i32>, beam_size: Option<i32>) -> SamplingStrategyConfig {
    SamplingStrategyConfig { strategy_type: strategy_type.to_string(), best_of, beam_size }
}

#[test]
fn the_settings_of_a_caller_who_set_nothing() {
    let s = TranscriptionSettings::balanced();
    assert_eq!(s.preset, "balanced");
    assert_eq!(s.sampling_strategy.strategy_type, "greedy");
    assert_eq!(s.sampling_strategy.best_of, Some(5));
    assert_eq!(s.sampling_strategy.beam_size, None);
    assert_eq!(s.thread_count.as_deref(), Some("auto"));
    assert!(s.no_context);
    assert_eq!(s.initial_prompt, None);
    assert_eq!(s.max_text_context, None);
}

#[test]
fn the_search_that_settings_ask_for() {
    assert_eq!(choose_sampling(&config("greedy", Some(3), Some(9))), SamplingPlan::Greedy { best_of: 3 });
    assert_eq!(choose_sampling(&config("greedy", None, Some(9))), SamplingPlan::Greedy { best_of: 5 });
    assert_eq!(
        choose_sampling(&config("beam_search", Some(3), Some(9))),
        SamplingPlan::BeamSearch { beam_size: 9 }
    );
    assert_eq!(
        choose_sampling(&config("beam_search", Some(3), None)),
        SamplingPlan::BeamSearch { beam_size: 5 }
    );
    assert_eq!(choose_sampling(&config("Beam_Search", None, Some(9))), SamplingPlan::Greedy { best_of: 5 });
    assert_eq!(choose_sampling(&config("", Some(-2), None)), SamplingPlan::Greedy { best_of: -2 });
}

#[test]
fn the_plan_for_a_recording() {
    let mut settings = TranscriptionSettings::balanced();
    settings.initial_prompt = Some("Names: Ada, Grace.".to_string());
    settings.no_context = false;
    settings.sampling_strategy = config("beam_search", None, Some(8));
    let plan = plan_decoding(settings, false, 12);
    assert_eq!(plan.sampling, SamplingPlan::BeamSearch { beam_size: 8 });
    assert_eq!(plan.language, "en");
    assert_eq!(plan.threads, 12);
    assert!(!plan.no_context);
    assert_eq!(plan.initial_prompt.as_deref(), Some("Names: Ada, Grace."));
}

#[test]
fn an_empty_prompt_is_no_prompt() {
    let mut settings = TranscriptionSettings::balanced();
    settings.initial_prompt = Some(String::new());
    let plan = plan_decoding(settings, true, 4);
    assert_eq!(plan.initial_prompt, None);
    assert_eq!(plan.language, "auto");
    assert_eq!(plan.sampling, SamplingPlan::Greedy { best_of: 5 });
    assert!(plan.no_context);
    let mut settings = TranscriptionSettings::balanced();
    settings.initial_prompt = Some(" ".to_string());
    assert_eq!(plan_decoding(settings, true, 4).initial_prompt.as_deref(), Some(" "));
}

#[test]
fn the_plan_for_a_live_chunk() {
    let plan = plan_live_decoding(6);
    assert_eq!(plan.sampling, SamplingPlan::Greedy { best_of: 1 });
    assert_eq!(plan.language, "auto");
    assert_eq!(plan.threads, 6);
    assert!(plan.no_context);
    assert_eq!(plan.initial_prompt, None);
}
