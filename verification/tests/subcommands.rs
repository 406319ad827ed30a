use usage_derive::subcommands::{subcommands_plan, SubVariant, SubcommandsDecl};

fn variant(name: &str, ty: &str) -> SubVariant {
    SubVariant {
        ident: name.to_string(),
        name: name.to_lowercase(),
        ty: ty.to_string(),
        unit: false,
        inline: false,
        external: false,
        aliases: Vec::new(),
        hidden_aliases: Vec::new(),
        help: None,
        long_help: None,
        has_examples: false,
        surface: None,
        has_available_if: false,
        hide: false,
    }
}

#[test]
fn subcommands_plan_lists_commands_and_the_external_one() {
    let mut build = variant("Build", "BuildArgs");
    build.aliases = vec!["b".to_string()];
    build.hidden_aliases = vec!["compile".to_string()];
    build.help = Some("Build it".to_string());
    let mut clean = variant("Clean", "__UsageCliClean");
    clean.unit = true;
    let mut plugin = variant("Plugin", "Plugin");
    plugin.external = true;
    let mut other = variant("Other", "Other");
    other.external = true;
    let mut init = variant("Init", "InitArgs");
    init.inline = true;
    init.has_examples = true;
    let subs = SubcommandsDecl {
        ident: "Cli".to_string(),
        variants: vec![build, clean, plugin, init, other],
    };
    let plan = subcommands_plan(&subs);
    let commands: Vec<usize> = plan.commands.iter().map(|c| c.variant).collect();
    assert_eq!(commands, vec![0, 1, 3]);
    assert_eq!(plan.external, Some(2));
    assert_eq!(plan.commands[0].table_aliases, vec!["b".to_string(), "compile".to_string()]);
    assert!(plan.commands[0].about_from_variant);
    assert!(!plan.commands[1].about_from_variant);
    assert!(plan.commands[2].examples_from_variant);
    let generated: Vec<(usize, bool)> = plan.generated.iter().map(|g| (g.variant, g.doc_hidden)).collect();
    assert_eq!(generated, vec![(1, true), (3, false)]);
}

#[test]
fn subcommands_plan_without_external() {
    let subs = SubcommandsDecl { ident: "Cli".to_string(), variants: vec![variant("Run", "RunArgs")] };
    let plan = subcommands_plan(&subs);
    assert_eq!(plan.external, None);
    assert!(plan.generated.is_empty());
    assert_eq!(plan.commands.len(), 1);
}
