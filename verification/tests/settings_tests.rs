use ragchat::settings::ContentSettings;

fn settings() -> ContentSettings {
    ContentSettings::new(
        "initial".to_string(),
        "initial".to_string(),
        "post".to_string(),
        "error".to_string(),
        "no answer".to_string(),
        "corpus".to_string(),
    )
}

#[test]
fn new_stores_every_field() {
    let cs = settings();
    assert_eq!(cs.post_prompt(), "post");
    assert_eq!(cs.error_mesg(), "error");
    assert_eq!(cs.no_answer_mesg(), "no answer");
    assert_eq!(cs.collection_name(), "corpus");
    assert_eq!(cs.system_prompt, "initial");
}

#[test]
fn update_appends_to_the_working_prompt() {
    let mut cs = settings();
    cs.update(" more".to_string());
    assert_eq!(cs.system_prompt, "initial more");
    cs.update(" again".to_string());
    assert_eq!(cs.system_prompt, "initial more again");
}

#[test]
fn mutate_replaces_the_working_prompt() {
    let mut cs = settings();
    cs.mutate("other".to_string());
    assert_eq!(cs.system_prompt, "other");
}

#[test]
fn reset_restores_the_initial_prompt() {
    let mut cs = settings();
    cs.mutate("other".to_string());
    cs.update(" and more".to_string());
    cs.reset();
    assert_eq!(cs.system_prompt, "initial");
}
