use starbase_process::id::{Id, IdError};

fn symbols() -> Vec<&'static str> {
    vec![".", "-", "_", "/"]
}

#[test]
fn ascii() {
    for s in symbols() {
        assert!(Id::new(&format!("abc{s}123")).is_ok());
    }

    assert!(Id::new("a.b-c_d/e").is_ok());
    assert!(Id::new("@a1").is_ok());
}

#[test]
fn unicode() {
    for s in symbols() {
        assert!(Id::new(&format!("ąęóąśłżźń{s}123")).is_ok());
    }

    assert!(Id::new("ą.ó-ą_ł/ń").is_ok());
    assert!(Id::new("@ż9").is_ok());
}

#[test]
fn no_punc() {
    for p in ["'", "\"", "?", "?", "[", "}", "~", "`", "!", "@", "$"] {
        assert!(Id::new(&format!("sbc{p}123")).is_err());
    }
}

#[test]
fn doesnt_error_if_starts_with_a() {
    assert!(Id::new("@abc").is_ok());
}

#[test]
fn errors_if_empty() {
    assert!(Id::new("").is_err());
}

#[test]
fn can_be_1_char() {
    assert!(Id::new("a").is_ok());
}

#[test]
fn can_end_with_symbol() {
    for s in symbols() {
        assert!(Id::new(&format!("abc{s}")).is_ok());
    }
}

#[test]
fn supports_file_paths() {
    assert!(Id::new("packages/core/cli").is_ok());
}

#[test]
fn supports_npm_package() {
    assert!(Id::new("@moonrepo/cli").is_ok());
}

#[test]
fn invalid_id_error_holds_the_input() {
    let error = Id::new("a b").unwrap_err();
    assert_eq!(error, IdError("a b".to_owned()));
    assert_eq!(
        error.message(),
        "Invalid identifier format for `a b`. May only contain alpha-numeric characters, dashes (-), slashes (/), underscores (_), and periods (.)."
    );
}

#[test]
fn valid_id_keeps_its_text() {
    let id = Id::new("@moonrepo/cli").unwrap();
    assert_eq!(id.as_str(), "@moonrepo/cli");
    assert_eq!(id.to_string(), "@moonrepo/cli");
    assert!(id.eq_str("@moonrepo/cli"));
    assert!(!id.eq_str("@moonrepo/cl"));
    assert_eq!(id.into_string(), "@moonrepo/cli");
}

#[test]
fn clean_replaces_unsupported_runs_and_trims_symbols() {
    let id = Id::clean("--foo bar!!baz..").unwrap();
    assert_eq!(id.as_str(), "foo-bar-baz");
}

#[test]
fn clean_of_only_symbols_is_refused() {
    assert!(Id::clean("  ").is_err());
}

#[test]
fn raw_skips_validation() {
    assert_eq!(Id::raw("a b").as_str(), "a b");
}

#[test]
fn env_var_name_uppercases_and_maps_dashes() {
    let id = Id::new("my-app.v2/web_ui").unwrap();
    assert_eq!(id.to_env_var(), "MY_APPV2WEB_UI");
    assert_eq!(id.into_env_var(), "MY_APPV2WEB_UI");
}
