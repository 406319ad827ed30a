use usage_derive::value_enum::{choice_for, value_enum_plan, ChoiceAlias, ChoiceDecl, ValueEnumDecl};

fn choice(name: &str, hide: bool, aliases: &[(&str, bool)]) -> ChoiceDecl {
    ChoiceDecl {
        ident: name.to_uppercase(),
        name: name.to_string(),
        help: None,
        hide,
        aliases: aliases
            .iter()
            .map(|(a, h)| ChoiceAlias { name: a.to_string(), hide: *h })
            .collect(),
    }
}

fn color(ignore_case: bool) -> ValueEnumDecl {
    ValueEnumDecl {
        ident: "Color".to_string(),
        variants: vec![
            choice("always", false, &[("yes", false), ("force", true)]),
            choice("never", true, &[("no", false)]),
            choice("auto", false, &[]),
        ],
        ignore_case,
    }
}

fn words(ws: &[usage_derive::value_enum::ChoiceWord]) -> Vec<(usize, String)> {
    ws.iter().map(|w| (w.variant, w.text.clone())).collect()
}

#[test]
fn value_enum_shows_visible_words_and_accepts_all() {
    let plan = value_enum_plan(&color(false));
    assert_eq!(
        words(&plan.choices),
        vec![(0, "always".to_string()), (0, "yes".to_string()), (1, "no".to_string()), (2, "auto".to_string())]
    );
    assert_eq!(
        words(&plan.accepted),
        vec![
            (0, "always".to_string()),
            (0, "yes".to_string()),
            (0, "force".to_string()),
            (1, "never".to_string()),
            (1, "no".to_string()),
            (2, "auto".to_string()),
        ]
    );
    let pairs: Vec<(usize, String, String)> = plan
        .aliases
        .iter()
        .map(|p| (p.variant, p.canonical.clone(), p.alias.clone()))
        .collect();
    assert_eq!(
        pairs,
        vec![
            (0, "always".to_string(), "yes".to_string()),
            (0, "always".to_string(), "force".to_string()),
            (1, "never".to_string(), "no".to_string()),
        ]
    );
    assert!(!plan.ignore_case);
}

#[test]
fn value_enum_hidden_words_still_select() {
    let decl = color(false);
    assert_eq!(choice_for(&decl, "force"), Some(0));
    assert_eq!(choice_for(&decl, "never"), Some(1));
    assert_eq!(choice_for(&decl, "auto"), Some(2));
    assert_eq!(choice_for(&decl, "sometimes"), None);
}

#[test]
fn value_enum_case_is_ignored_only_when_asked() {
    assert_eq!(choice_for(&color(false), "ALWAYS"), None);
    assert_eq!(choice_for(&color(true), "ALWAYS"), Some(0));
    assert_eq!(choice_for(&color(true), "No"), Some(1));
    assert_eq!(choice_for(&color(true), "Ñever"), None);
}

#[test]
fn value_enum_every_shown_word_is_accepted() {
    for ignore_case in [false, true] {
        let plan = value_enum_plan(&color(ignore_case));
        let accepted = words(&plan.accepted);
        for shown in words(&plan.choices) {
            assert!(accepted.contains(&shown), "{shown:?}");
        }
    }
}
