use lithe::extract::{extract_handlers, Binding, HandlerArg};

fn click(arg: HandlerArg) -> Binding {
    Binding { method: "on_click".to_string(), args: vec![arg] }
}

#[test]
fn identical_inline_handlers_get_distinct_names() {
    // two structurally identical inline handlers in the same owning function
    let body = "{ foo(); }";
    let bindings = vec![
        click(HandlerArg::Inline(body.to_string())),
        click(HandlerArg::Inline(body.to_string())),
    ];
    let (rewritten, handlers) = extract_handlers("page1", bindings);
    assert_eq!(handlers.len(), 2);
    assert_ne!(handlers[0].export_name, handlers[1].export_name);
    // distinguished by the per-owner ordinal, starting at 1
    assert_eq!(handlers[0].export_name, "page1_anon_1_7273e2ba3ee2d0ad");
    assert_eq!(handlers[1].export_name, "page1_anon_2_7273e2ba3ee2d0ad");
    assert_eq!(handlers[0].body, body);
    assert_eq!(handlers[1].body, body);
    assert_eq!(
        rewritten[0].args[0],
        HandlerArg::Dispatch("Lithe.dispatch('page1_anon_1_7273e2ba3ee2d0ad')".to_string())
    );
    assert_eq!(
        rewritten[1].args[0],
        HandlerArg::Dispatch("Lithe.dispatch('page1_anon_2_7273e2ba3ee2d0ad')".to_string())
    );
}

#[test]
fn named_reference_rewrites_to_hashed_dispatch() {
    let bindings = vec![click(HandlerArg::NamedRef("crate::login".to_string()))];
    let (rewritten, handlers) = extract_handlers("page1", bindings);
    assert!(handlers.is_empty());
    assert_eq!(
        rewritten[0].args[0],
        HandlerArg::Dispatch("Lithe.dispatch('h_cfdf61893043b781')".to_string())
    );
}

#[test]
fn ordinals_are_per_owner_and_skip_named_handlers() {
    let bindings = vec![
        click(HandlerArg::NamedRef("crate::login".to_string())),
        click(HandlerArg::Inline("{ a(); }".to_string())),
        click(HandlerArg::NamedRef("crate::logout".to_string())),
        click(HandlerArg::Inline("{ b(); }".to_string())),
    ];
    let (_, handlers) = extract_handlers("home", bindings);
    assert_eq!(handlers.len(), 2);
    assert!(handlers[0].export_name.starts_with("home_anon_1_"));
    assert!(handlers[1].export_name.starts_with("home_anon_2_"));
}

#[test]
fn untouched_bindings_stay_untouched() {
    let bindings = vec![
        // zero arguments: left alone
        Binding { method: "on_click".to_string(), args: vec![] },
        // two arguments: left alone
        Binding {
            method: "on_click".to_string(),
            args: vec![HandlerArg::Opaque, HandlerArg::Opaque],
        },
        // an argument that is neither a reference nor an inline handler
        click(HandlerArg::Opaque),
        // a different method
        Binding {
            method: "set_attribute".to_string(),
            args: vec![HandlerArg::Inline("{ x(); }".to_string())],
        },
    ];
    let (rewritten, handlers) = extract_handlers("page", bindings);
    assert!(handlers.is_empty());
    assert_eq!(rewritten.len(), 4);
    assert!(rewritten[0].args.is_empty());
    assert_eq!(rewritten[1].args.len(), 2);
    assert_eq!(rewritten[2].args[0], HandlerArg::Opaque);
    assert_eq!(
        rewritten[3].args[0],
        HandlerArg::Inline("{ x(); }".to_string())
    );
}

#[test]
fn ordinals_reset_per_owning_function() {
    let one = vec![click(HandlerArg::Inline("{ a(); }".to_string()))];
    let two = vec![click(HandlerArg::Inline("{ a(); }".to_string()))];
    let (_, h1) = extract_handlers("alpha", one);
    let (_, h2) = extract_handlers("beta", two);
    assert!(h1[0].export_name.starts_with("alpha_anon_1_"));
    assert!(h2[0].export_name.starts_with("beta_anon_1_"));
}
