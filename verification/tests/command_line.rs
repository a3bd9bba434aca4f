use reforger_launcher::command::{build, default_fixed_args, preview, show_line, show_tokens};

fn texts(items: &[&str]) -> Vec<String> {
    items.iter().map(|s| s.to_string()).collect()
}

#[test]
fn build_puts_executable_fixed_args_flag_and_config_in_order() {
    let argv = build("/srv/Server.exe", &texts(&["-maxFPS", "120"]), "/cfgs/a.json");
    assert_eq!(argv, texts(&["/srv/Server.exe", "-maxFPS", "120", "-config", "/cfgs/a.json"]));
}

#[test]
fn build_gives_the_same_vector_on_every_call() {
    let fixed = texts(&["-maxFPS", "120"]);
    let first = build("exe", &fixed, "/cfgs/a.json");
    let second = build("exe", &fixed, "/cfgs/a.json");
    assert_eq!(first, second);
    assert_eq!(first.len(), 5);
}

#[test]
fn build_without_fixed_args_has_three_tokens() {
    let argv = build("exe", &Vec::new(), "cfg.json");
    assert_eq!(argv, texts(&["exe", "-config", "cfg.json"]));
}

#[test]
fn build_keeps_a_config_path_with_spaces_as_one_token() {
    let argv = build("exe", &texts(&["-a"]), "/my cfgs/server one.json");
    assert_eq!(argv.len(), 4);
    assert_eq!(argv[3], "/my cfgs/server one.json");
}

#[test]
fn build_keeps_the_order_of_many_fixed_args() {
    let argv = build("exe", &texts(&["-a", "1", "-b", "2", "-c"]), "x.json");
    assert_eq!(argv, texts(&["exe", "-a", "1", "-b", "2", "-c", "-config", "x.json"]));
}

#[test]
fn default_fixed_args_limit_the_frame_rate() {
    assert_eq!(default_fixed_args(), texts(&["-maxFPS", "120"]));
}

#[test]
fn preview_quotes_only_the_config_path() {
    let text = preview("/srv/Server.exe", &texts(&["-maxFPS", "120"]), "/cfgs/my server.json");
    assert_eq!(text, "/srv/Server.exe -maxFPS 120 -config \"/cfgs/my server.json\"");
}

#[test]
fn preview_without_fixed_args() {
    assert_eq!(preview("exe", &Vec::new(), "a.json"), "exe -config \"a.json\"");
}

#[test]
fn show_line_puts_one_space_between_tokens() {
    assert_eq!(show_line(&texts(&["a", "b", "c"])), "a b c");
    assert_eq!(show_line(&texts(&["only"])), "only");
    assert_eq!(show_line(&Vec::new()), "");
}

#[test]
fn show_tokens_renders_a_prefix() {
    let tokens = texts(&["a", "b", "c"]);
    assert_eq!(show_tokens(&tokens, 0), "");
    assert_eq!(show_tokens(&tokens, 2), "a b");
    assert_eq!(show_tokens(&tokens, 3), "a b c");
}
