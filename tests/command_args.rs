use jj_config::command_args::{FullCommandArgs, NonEmptyCommandArgsVec};

/// Reads a command line from the configuration the way an untagged
/// string-or-list field is read: a string first, else a non-empty list.
fn get_args(config: &config::Config, key: &str) -> Result<FullCommandArgs, String> {
    if let Ok(s) = config.get::<String>(key) {
        return Ok(FullCommandArgs::from_text(&s));
    }
    let v: Vec<String> = config.get(key).map_err(|e| e.to_string())?;
    NonEmptyCommandArgsVec::try_from(v)
        .map(FullCommandArgs::Vec)
        .map_err(|e| e.to_string())
}

fn words(items: &[&str]) -> Vec<String> {
    items.iter().map(|s| s.to_string()).collect()
}

#[test]
fn test_command_args() {
    let config = config::Config::builder()
        .set_override("empty_array", Vec::<String>::new())
        .unwrap()
        .set_override("empty_string", "")
        .unwrap()
        .set_override("array", vec!["emacs", "-nw"])
        .unwrap()
        .set_override("string", "emacs -nw")
        .unwrap()
        .build()
        .unwrap();

    assert!(get_args(&config, "empty_array").is_err());

    let args = get_args(&config, "empty_string").unwrap();
    assert_eq!(args, FullCommandArgs::String("".to_owned()));
    assert_eq!(args.args(), [""].as_ref());

    let args = get_args(&config, "array").unwrap();
    assert_eq!(
        args,
        FullCommandArgs::Vec(
            NonEmptyCommandArgsVec::try_from(["emacs", "-nw",].map(|s| s.to_owned()).to_vec())
                .unwrap()
        )
    );
    assert_eq!(args.args(), ["emacs", "-nw"].as_ref());

    let args = get_args(&config, "string").unwrap();
    assert_eq!(args, FullCommandArgs::String("emacs -nw".to_owned()));
    assert_eq!(args.args(), ["emacs", "-nw"].as_ref());
}

#[test]
fn empty_list_is_refused_with_message() {
    let r = NonEmptyCommandArgsVec::try_from(Vec::new());
    assert_eq!(r.unwrap_err(), "command arguments should not be empty");
}

#[test]
fn list_keeps_its_words() {
    let v = NonEmptyCommandArgsVec::try_from(words(&["vim", "", "-d"])).unwrap();
    assert_eq!(v.as_slice(), ["vim", "", "-d"].as_ref());
    assert_eq!(v.clone(), v);
    let args = FullCommandArgs::Vec(v);
    assert_eq!(args.args(), ["vim", "", "-d"].as_ref());
}

#[test]
fn string_splits_at_every_space() {
    let args = FullCommandArgs::from_text("a  b ");
    assert_eq!(args.args(), ["a", "", "b", ""].as_ref());
    let args = FullCommandArgs::from_text(" ");
    assert_eq!(args.args(), ["", ""].as_ref());
    let args = FullCommandArgs::from_text("üñï côdé");
    assert_eq!(args.args(), ["üñï", "côdé"].as_ref());
}

#[test]
fn display_string_of_each_form() {
    assert_eq!(FullCommandArgs::from_text("emacs -nw").to_display_string(), "emacs -nw");
    let v = NonEmptyCommandArgsVec::try_from(words(&["emacs", "-nw", "x"])).unwrap();
    assert_eq!(FullCommandArgs::Vec(v).to_display_string(), "emacs -nw x");
    let v = NonEmptyCommandArgsVec::try_from(words(&["one"])).unwrap();
    assert_eq!(FullCommandArgs::Vec(v).to_display_string(), "one");
}

#[test]
fn split_then_join_gives_text_back() {
    for text in ["", "a", "a b", "  x  ", "emacs -nw --foo"] {
        let args = FullCommandArgs::from_text(text);
        assert_eq!(args.args().join(" "), text);
    }
}
