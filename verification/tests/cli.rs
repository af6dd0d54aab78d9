use kiosk::cli::{
    log_filter, parse_binding, split_binding, Binding, BindingError, Cli, ModifiersState,
    LOG_TARGET, NO_SYMBOL,
};

const BACKSPACE: u32 = 0xff08;
const ESCAPE: u32 = 0xff1b;
const DELETE: u32 = 0xffff;
const Q: u32 = 0x71;

/// A few keysyms, looked up as xkb does: in any case.
fn keysym(name: &str) -> u32 {
    match name.to_ascii_lowercase().as_str() {
        "backspace" => BACKSPACE,
        "escape" => ESCAPE,
        "delete" => DELETE,
        "q" => Q,
        _ => NO_SYMBOL,
    }
}

fn parse(spec: &str) -> Result<Binding, BindingError> {
    parse_binding(spec, keysym)
}

fn mods(ctrl: bool, alt: bool, shift: bool, logo: bool) -> ModifiersState {
    ModifiersState { ctrl, alt, shift, logo, ..Default::default() }
}

fn cli() -> Cli {
    Cli {
        output: None,
        list_outputs: false,
        exit_key: None,
        log_file: None,
        verbose: 0,
        command: Vec::new(),
    }
}

#[test]
fn log_filter_saturates() {
    assert_eq!(log_filter(0), "kiosk=info,warn");
    assert_eq!(log_filter(1), "kiosk=debug,info");
    assert_eq!(log_filter(2), "kiosk=trace,debug");
    assert_eq!(log_filter(3), "trace");
    assert_eq!(log_filter(9), "trace");
}

/// The directives are worthless if they name a target no event carries. A directive
/// must match the crate root, the name under which the items above are imported.
#[test]
fn the_filter_target_matches_this_crates_real_module_path() {
    let crate_root = "kiosk";
    assert_eq!(
        crate_root, LOG_TARGET,
        "log directives target {LOG_TARGET:?} but events are emitted as {crate_root:?}"
    );
    for verbose in 0..=2 {
        assert!(
            log_filter(verbose).starts_with(crate_root),
            "-v{verbose} directive {:?} does not match target {crate_root:?}",
            log_filter(verbose)
        );
    }
}

#[test]
fn missing_command_is_rejected_unless_listing_outputs() {
    let err = cli().validate().unwrap_err();
    assert_eq!(
        err.message(),
        "no command given; usage: kiosk [OPTIONS] -- <COMMAND> [ARGS...]"
    );
    assert!(Cli { list_outputs: true, ..cli() }.validate().is_ok());
    assert!(Cli { command: vec!["foot".to_string()], ..cli() }.validate().is_ok());
}

#[test]
fn parses_modifier_combinations() {
    let b = parse("Ctrl+Alt+BackSpace").unwrap();
    assert!(b.ctrl && b.alt && !b.shift && !b.logo);
    assert_eq!(b.keysym, BACKSPACE);

    let b = parse("super+q").unwrap();
    assert!(b.logo && !b.ctrl && !b.alt && !b.shift);
    assert_eq!(b.keysym, Q);

    // Bare keysym, no modifiers.
    let b = parse("Escape").unwrap();
    assert!(!b.ctrl && !b.alt && !b.shift && !b.logo);
    assert_eq!(b.keysym, ESCAPE);
}

#[test]
fn modifier_names_are_case_insensitive() {
    assert_eq!(parse("CTRL+ALT+Delete").unwrap(), parse("ctrl+alt+Delete").unwrap());
    assert_eq!(parse("Super+q").unwrap(), parse("Logo+q").unwrap());
}

#[test]
fn every_name_of_a_modifier_is_known() {
    let bare = parse("q").unwrap();
    for name in ["ctrl", "Control"] {
        assert_eq!(parse(&format!("{name}+q")).unwrap(), Binding { ctrl: true, ..bare });
    }
    assert_eq!(parse("Alt+q").unwrap(), Binding { alt: true, ..bare });
    assert_eq!(parse("SHIFT+q").unwrap(), Binding { shift: true, ..bare });
    for name in ["super", "logo", "MOD4"] {
        assert_eq!(parse(&format!("{name}+q")).unwrap(), Binding { logo: true, ..bare });
    }
    // Naming one twice is not an error.
    assert_eq!(parse("Ctrl+Control+q").unwrap(), Binding { ctrl: true, ..bare });
}

#[test]
fn the_order_of_modifiers_does_not_matter() {
    assert_eq!(parse("Ctrl+Alt+Shift+q").unwrap(), parse("Shift+Ctrl+Alt+q").unwrap());
    assert_eq!(parse("Alt+Mod4+Alt+q").unwrap(), parse("Super+Alt+q").unwrap());
}

#[test]
fn components_are_trimmed() {
    assert_eq!(parse(" Ctrl \t+\u{a0}q\u{3000}").unwrap(), parse("Ctrl+q").unwrap());
    let said = split_binding("Shift + Page Up").unwrap();
    assert!(said.shift && !said.ctrl && !said.alt && !said.logo);
    assert_eq!(said.key, "Page Up");
}

#[test]
fn rejects_bad_bindings_with_a_discriminating_message() {
    // Assert the message, not just is_err: collapsing these into one generic
    // error would otherwise go unnoticed, and the message is what the user
    // sees when a unit file has a typo.
    for (spec, expected) in [
        ("Hyper+q", "unknown modifier"),
        ("Ctrl+NotAKey", "unknown keysym"),
        ("", "empty component"),
        ("Ctrl+", "empty component"),
        ("Ctrl++q", "empty component"),
    ] {
        let err = parse(spec).unwrap_err().message();
        assert!(err.contains(expected), "{spec:?} gave the wrong error: {err}");
    }
}

#[test]
fn the_messages_of_bad_bindings() {
    let message = |spec: &str| parse(spec).unwrap_err().message();
    assert_eq!(
        message("Hyper+q"),
        "unknown modifier \"hyper\" in binding \"Hyper+q\" \
         (expected Ctrl, Alt, Shift, or Super)"
    );
    assert_eq!(message("Ctrl+NotAKey"), "unknown keysym \"NotAKey\" in binding \"Ctrl+NotAKey\"");
    assert_eq!(message("Ctrl+\t+q"), "empty component in binding \"Ctrl+\\t+q\"");
    // The first component in error decides.
    assert!(message("Hyper++NotAKey").starts_with("unknown modifier"));
    assert!(message("+Hyper+NotAKey").starts_with("empty component"));
}

#[test]
fn a_key_is_looked_up_only_once_everything_else_is_in_order() {
    let asked = std::cell::Cell::new(false);
    let parsed = parse_binding("Hyper+q", |_: &str| {
        asked.set(true);
        Q
    });
    assert!(parsed.is_err());
    assert!(!asked.get());
}

#[test]
fn matches_requires_exact_modifiers() {
    let b = parse("Ctrl+Alt+BackSpace").unwrap();
    assert!(b.matches(&mods(true, true, false, false), BACKSPACE));
    // Wrong keysym.
    assert!(!b.matches(&mods(true, true, false, false), Q));
    // Missing a required modifier.
    assert!(!b.matches(&mods(true, false, false, false), BACKSPACE));
    // Extra modifier held.
    assert!(!b.matches(&mods(true, true, true, false), BACKSPACE));
}

#[test]
fn lock_modifiers_do_not_block_a_match() {
    let b = parse("Ctrl+q").unwrap();
    let state =
        ModifiersState { ctrl: true, caps_lock: true, num_lock: true, ..Default::default() };
    assert!(b.matches(&state, Q));
}
