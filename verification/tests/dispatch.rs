use usage_derive::dispatch::{
    arm_kind, dispatch_arms, first_command, wants_lazy, Dispatch, DispatchTrait, Subcommands, Variant,
};

fn variant(run_sync: bool, no_ctx: bool, external: bool) -> Variant {
    Variant { run_sync, no_ctx, external }
}

#[test]
fn the_four_traits_in_order() {
    let all = DispatchTrait::all(Dispatch { run: true, run_with: false, run_async: true, run_async_with: false });
    let names: Vec<_> = all.iter().map(|t| (t.name, t.method, t.ctx, t.is_async, t.wanted)).collect();
    assert_eq!(
        names,
        vec![
            ("Run", "run", false, false, true),
            ("RunWith", "run_with", true, false, false),
            ("RunAsync", "run_async", false, true, true),
            ("RunAsyncWith", "run_async_with", true, true, false),
        ]
    );
}

#[test]
fn an_arm_may_drop_async_or_the_context() {
    let all = DispatchTrait::all(Dispatch { run: true, run_with: true, run_async: true, run_async_with: true });
    let sync = arm_kind(&all[3], &variant(true, false, false));
    assert_eq!((sync.name, sync.method, sync.ctx, sync.is_async, sync.wanted), ("RunWith", "run_with", true, false, true));
    let bare = arm_kind(&all[3], &variant(true, true, false));
    assert_eq!((bare.name, bare.method), ("Run", "run"));
    let plain = arm_kind(&all[2], &variant(false, false, false));
    assert_eq!((plain.name, plain.method), ("RunAsync", "run_async"));
    let no_ctx_sync_enum = arm_kind(&all[0], &variant(false, true, false));
    assert_eq!(no_ctx_sync_enum.name, "Run");
}

#[test]
fn the_first_command_skips_external_variants() {
    let subs = Subcommands { variants: vec![variant(false, false, true), variant(true, false, false), variant(false, true, false)] };
    let first = first_command(&subs).unwrap();
    assert!(first.run_sync);
    let none = Subcommands { variants: vec![variant(false, false, true)] };
    assert!(first_command(&none).is_none());
    assert!(first_command(&Subcommands { variants: vec![] }).is_none());
}

#[test]
fn dispatch_arms_say_what_each_variant_is_called_through() {
    let all = DispatchTrait::all(Dispatch { run: false, run_with: false, run_async: false, run_async_with: true });
    let subs = Subcommands {
        variants: vec![variant(false, false, true), variant(false, true, false), variant(true, false, false)],
    };
    let arms = dispatch_arms(&all[3], &subs, false);
    assert_eq!(arms.len(), 3);
    assert!(arms[0].external);
    assert_eq!((arms[1].arm.name, arms[1].drops_ctx, arms[1].bound_with_output), ("RunAsync", true, false));
    assert_eq!((arms[2].arm.name, arms[2].drops_ctx, arms[2].bound_with_output), ("RunWith", false, true));
    let named = dispatch_arms(&all[3], &subs, true);
    assert!(named[1].bound_with_output);
    assert!(wants_lazy(Dispatch { run: false, run_with: true, run_async: false, run_async_with: false }, &subs));
    assert!(!wants_lazy(Dispatch { run: true, run_with: false, run_async: true, run_async_with: false }, &subs));
    let eager = Subcommands { variants: vec![variant(false, false, false)] };
    assert!(!wants_lazy(Dispatch { run: false, run_with: true, run_async: false, run_async_with: true }, &eager));
}
