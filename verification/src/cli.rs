//! Command line interface.
//!
//! Also owns parsing of the `--exit-key` binding syntax, since that is argument
//! validation: an unparseable binding is a startup error, not a silently dead
//! keybind.

use vstd::prelude::*;

use crate::text::{
    characters, lemma_split_is_not_empty, lower, lowered, pieces, quote, quoted, same_ignoring_case,
    spells, split, text_of, trim, trimmed,
};

verus! {

/// The parsed command line.
#[derive(Debug, Clone)]
pub struct Cli {
    /// Use this connector, e.g. DP-1 (case-insensitive).
    ///
    /// If the connector is unknown or disconnected, startup fails rather than
    /// falling back to another output.
    pub output: Option<String>,
    /// Print the available connectors and exit.
    pub list_outputs: bool,
    /// Keybind that exits the compositor, e.g. Ctrl+Alt+Backspace.
    ///
    /// Default is none, so every key reaches the client.
    pub exit_key: Option<String>,
    /// Write logs to this file instead of stderr.
    pub log_file: Option<Vec<u8>>,
    /// How often `-v` was given. Overridden by RUST_LOG.
    pub verbose: u8,
    /// The application to run, and its arguments.
    pub command: Vec<String>,
}

/// The command line names no application.
#[derive(Debug, Clone, Copy, PartialEq, Eq, Structural)]
pub struct NoCommand;

impl NoCommand {
    /// What the user is told.
    pub fn message(&self) -> (text: String)
        ensures
            text@ == "no command given; usage: kiosk [OPTIONS] -- <COMMAND> [ARGS...]"@,
    {
        "no command given; usage: kiosk [OPTIONS] -- <COMMAND> [ARGS...]".to_owned()
    }
}

impl Cli {
    /// Reject argument combinations that the argument grammar cannot express: a
    /// command is needed, except to list the outputs.
    pub fn validate(&self) -> (valid: Result<(), NoCommand>)
        ensures
            valid == (if !self.list_outputs && self.command@.len() == 0 {
                Err(NoCommand)
            } else {
                Ok(())
            }),
    {
        if !self.list_outputs && self.command.len() == 0 {
            return Err(NoCommand);
        }
        Ok(())
    }
}

/// The `tracing` target our own events carry.
///
/// This is the *crate* name. Filtering on anything else matches nothing, which
/// silently reduces every directive below to its bare global level.
pub const LOG_TARGET: &'static str = "kiosk";

/// The filter directive implied by a `-v` count.
pub open spec fn filter_of(verbose: nat) -> Seq<char> {
    if verbose == 0 {
        "kiosk=info,warn"@
    } else if verbose == 1 {
        "kiosk=debug,info"@
    } else if verbose == 2 {
        "kiosk=trace,debug"@
    } else {
        "trace"@
    }
}

/// The filter directive implied by a `-v` count.
///
/// `RUST_LOG` takes precedence over this and is handled by
/// [`crate::logging::filter_directive`].
pub fn log_filter(verbose: u8) -> (directive: &'static str)
    ensures
        directive@ == filter_of(verbose as nat),
{
    match verbose {
        0 => "kiosk=info,warn",
        1 => "kiosk=debug,info",
        2 => "kiosk=trace,debug",
        _ => "trace",
    }
}

/// The modifiers held or locked at a key press.
#[derive(Debug, Clone, Copy, PartialEq, Eq, Structural)]
pub struct ModifiersState {
    pub ctrl: bool,
    pub alt: bool,
    pub shift: bool,
    pub logo: bool,
    pub caps_lock: bool,
    pub num_lock: bool,
    pub iso_level3_shift: bool,
    pub iso_level5_shift: bool,
}

impl Default for ModifiersState {
    /// Nothing held and nothing locked.
    fn default() -> (mods: Self)
        ensures
            mods == (ModifiersState {
                ctrl: false,
                alt: false,
                shift: false,
                logo: false,
                caps_lock: false,
                num_lock: false,
                iso_level3_shift: false,
                iso_level5_shift: false,
            }),
    {
        ModifiersState {
            ctrl: false,
            alt: false,
            shift: false,
            logo: false,
            caps_lock: false,
            num_lock: false,
            iso_level3_shift: false,
            iso_level5_shift: false,
        }
    }
}

/// A parsed `--exit-key` binding: a set of required modifiers plus a keysym.
#[derive(Debug, Clone, Copy, PartialEq, Eq, Structural)]
pub struct Binding {
    pub ctrl: bool,
    pub alt: bool,
    pub shift: bool,
    pub logo: bool,
    /// The number of the keysym.
    pub keysym: u32,
}

/// The number that stands for no keysym at all.
pub const NO_SYMBOL: u32 = 0;

impl Binding {
    /// Does this binding match? Modifiers must match exactly, so `Ctrl+q` does not
    /// fire on `Ctrl+Alt+q`. Lock modifiers are ignored.
    pub open spec fn fires(self, mods: ModifiersState, keysym: u32) -> bool {
        &&& self.keysym == keysym
        &&& self.ctrl == mods.ctrl
        &&& self.alt == mods.alt
        &&& self.shift == mods.shift
        &&& self.logo == mods.logo
    }

    /// Does this binding match the given modifier state and keysym?
    pub fn matches(&self, mods: &ModifiersState, keysym: u32) -> (fires: bool)
        ensures
            fires == self.fires(*mods, keysym),
    {
        self.keysym == keysym && self.ctrl == mods.ctrl && self.alt == mods.alt && self.shift
            == mods.shift && self.logo == mods.logo
    }
}

/// Caps lock, num lock and the level shifts neither block a match nor make one.
pub proof fn law_locks_are_ignored(
    binding: Binding,
    mods: ModifiersState,
    others: ModifiersState,
    keysym: u32,
)
    requires
        mods.ctrl == others.ctrl,
        mods.alt == others.alt,
        mods.shift == others.shift,
        mods.logo == others.logo,
    ensures
        binding.fires(mods, keysym) == binding.fires(others, keysym),
{
}

/// A binding fires on its own key with its own modifiers held and no others, and on
/// nothing else.
pub proof fn law_a_binding_fires_on_exactly_its_press(
    binding: &Binding,
    mods: &ModifiersState,
    keysym: u32,
    fires: bool,
)
    requires
        call_ensures(Binding::matches, (binding, mods, keysym), fires),
    ensures
        fires == binding.fires(*mods, keysym),
        fires ==> keysym == binding.keysym,
        fires ==> mods.ctrl == binding.ctrl,
        fires ==> mods.alt == binding.alt,
        fires ==> mods.shift == binding.shift,
        fires ==> mods.logo == binding.logo,
        !fires ==> {
            ||| keysym != binding.keysym
            ||| mods.ctrl != binding.ctrl
            ||| mods.alt != binding.alt
            ||| mods.shift != binding.shift
            ||| mods.logo != binding.logo
        },
{
}

/// Two bindings that both match the same press are the same binding: a press with
/// a modifier more or less than a binding asks for never fires it.
pub proof fn law_modifiers_match_exactly(
    binding: Binding,
    other: Binding,
    mods: ModifiersState,
    keysym: u32,
)
    requires
        binding.fires(mods, keysym),
        other.fires(mods, keysym),
    ensures
        binding == other,
{
}

/// The components of a binding: what stands between its `+` signs, trimmed.
pub open spec fn components(spec: Seq<char>) -> Seq<Seq<char>> {
    split(spec, '+').map_values(|piece: Seq<char>| trim(piece))
}

/// The modifiers that a binding may name.
#[derive(Debug, Clone, Copy, PartialEq, Eq, Structural)]
pub enum Modifier {
    Ctrl,
    Alt,
    Shift,
    Logo,
}

/// The modifier of that name, which is in lower case.
pub open spec fn modifier_of(folded: Seq<char>) -> Option<Modifier> {
    if folded == "ctrl"@ || folded == "control"@ {
        Some(Modifier::Ctrl)
    } else if folded == "alt"@ {
        Some(Modifier::Alt)
    } else if folded == "shift"@ {
        Some(Modifier::Shift)
    } else if folded == "super"@ || folded == "logo"@ || folded == "mod4"@ {
        Some(Modifier::Logo)
    } else {
        None
    }
}

/// The modifier of that name, whatever the case of its letters.
pub open spec fn modifier_named(name: Seq<char>) -> Option<Modifier> {
    modifier_of(lower(name))
}

/// Is component `i` in error: empty, or before the last one and no modifier?
pub open spec fn troubled(parts: Seq<Seq<char>>, i: int) -> bool {
    ||| parts[i].len() == 0
    ||| i < parts.len() - 1 && modifier_named(parts[i]) is None
}

/// Is `i` the first component in error?
pub open spec fn first_trouble(parts: Seq<Seq<char>>, i: int) -> bool {
    &&& 0 <= i < parts.len()
    &&& troubled(parts, i)
    &&& forall|j: int| 0 <= j < i ==> !#[trigger] troubled(parts, j)
}

/// Does one of the first `n` components name `modifier`?
pub open spec fn asks_for(parts: Seq<Seq<char>>, n: int, modifier: Modifier) -> bool {
    exists|i: int| 0 <= i < n && modifier_named(#[trigger] parts[i]) == Some(modifier)
}

/// The modifiers of a binding and the name of its key.
#[derive(Debug)]
pub struct Combination {
    pub ctrl: bool,
    pub alt: bool,
    pub shift: bool,
    pub logo: bool,
    pub key: String,
}

impl Combination {
    /// Is this what the components say: the modifiers named before the last one, and
    /// the last one as the key?
    pub open spec fn is_said_by(self, parts: Seq<Seq<char>>) -> bool {
        let n = parts.len() - 1;
        &&& self.ctrl == asks_for(parts, n, Modifier::Ctrl)
        &&& self.alt == asks_for(parts, n, Modifier::Alt)
        &&& self.shift == asks_for(parts, n, Modifier::Shift)
        &&& self.logo == asks_for(parts, n, Modifier::Logo)
        &&& self.key@ == parts[n]
    }

    /// The binding of these modifiers to `keysym`.
    pub open spec fn bound_to(self, keysym: u32) -> Binding {
        Binding { ctrl: self.ctrl, alt: self.alt, shift: self.shift, logo: self.logo, keysym }
    }

    /// Bind the key once its keysym is known. A name that no keysym has is an error.
    pub fn bind(self, keysym: u32, spec: &str) -> (bound: Result<Binding, BindingError>)
        ensures
            match bound {
                Ok(binding) => keysym != NO_SYMBOL && binding == self.bound_to(keysym),
                Err(BindingError::UnknownKeysym { key, spec: given }) => {
                    &&& keysym == NO_SYMBOL
                    &&& key@ == self.key@
                    &&& given@ == spec@
                },
                Err(_) => false,
            },
    {
        if keysym == NO_SYMBOL {
            return Err(BindingError::UnknownKeysym { key: self.key, spec: spec.to_owned() });
        }
        Ok(
            Binding {
                ctrl: self.ctrl,
                alt: self.alt,
                shift: self.shift,
                logo: self.logo,
                keysym,
            },
        )
    }
}

/// Why a binding could not be parsed.
#[derive(Debug)]
pub enum BindingError {
    /// There is nothing before, between or after two `+` signs.
    EmptyComponent { spec: String },
    /// A component before the last one is no modifier. The name is in lower case.
    UnknownModifier { name: String, spec: String },
    /// The last component is the name of no keysym.
    UnknownKeysym { key: String, spec: String },
}

impl BindingError {
    /// What the user is told.
    pub open spec fn text(self) -> Seq<char> {
        match self {
            BindingError::EmptyComponent { spec } => "empty component in binding "@ + quoted(spec@),
            BindingError::UnknownModifier { name, spec } => "unknown modifier "@ + quoted(name@)
                + " in binding "@ + quoted(spec@) + " (expected Ctrl, Alt, Shift, or Super)"@,
            BindingError::UnknownKeysym { key, spec } => "unknown keysym "@ + quoted(key@)
                + " in binding "@ + quoted(spec@),
        }
    }

    /// What the user is told.
    pub fn message(&self) -> (text: String)
        ensures
            text@ == self.text(),
    {
        match self {
            BindingError::EmptyComponent { spec } => {
                let mut text = "empty component in binding ".to_owned();
                text.append(quote(spec.as_str()).as_str());
                text
            },
            BindingError::UnknownModifier { name, spec } => {
                let mut text = "unknown modifier ".to_owned();
                text.append(quote(name.as_str()).as_str());
                text.append(" in binding ");
                text.append(quote(spec.as_str()).as_str());
                text.append(" (expected Ctrl, Alt, Shift, or Super)");
                text
            },
            BindingError::UnknownKeysym { key, spec } => {
                let mut text = "unknown keysym ".to_owned();
                text.append(quote(key.as_str()).as_str());
                text.append(" in binding ");
                text.append(quote(spec.as_str()).as_str());
                text
            },
        }
    }
}

fn read_modifier(folded: &Vec<char>) -> (modifier: Option<Modifier>)
    ensures
        modifier == modifier_of(folded@),
{
    if spells(folded, "ctrl") || spells(folded, "control") {
        Some(Modifier::Ctrl)
    } else if spells(folded, "alt") {
        Some(Modifier::Alt)
    } else if spells(folded, "shift") {
        Some(Modifier::Shift)
    } else if spells(folded, "super") || spells(folded, "logo") || spells(folded, "mod4") {
        Some(Modifier::Logo)
    } else {
        None
    }
}

/// Take `Mod+Mod+Keysym` apart: the last component is the name of a key, and
/// everything before it is a modifier. The first component in error decides.
pub fn split_binding(spec: &str) -> (said: Result<Combination, BindingError>)
    ensures
        ({
            let parts = components(spec@);
            match said {
                Ok(combination) => {
                    &&& forall|i: int| 0 <= i < parts.len() ==> !#[trigger] troubled(parts, i)
                    &&& combination.is_said_by(parts)
                },
                Err(BindingError::EmptyComponent { spec: given }) => {
                    &&& given@ == spec@
                    &&& exists|i: int| #[trigger] first_trouble(parts, i) && parts[i].len() == 0
                },
                Err(BindingError::UnknownModifier { name, spec: given }) => {
                    &&& given@ == spec@
                    &&& exists|i: int| #[trigger]
                        first_trouble(parts, i) && parts[i].len() > 0 && name@ == lower(parts[i])
                },
                Err(BindingError::UnknownKeysym { .. }) => false,
            }
        }),
{
    let pieces = pieces(&characters(spec), '+');
    let ghost parts = components(spec@);
    let n: usize = pieces.len();
    proof {
        lemma_split_is_not_empty(spec@, '+');
        assert(pieces@.map_values(|p: Vec<char>| p@).len() == n);
        assert(parts.len() == n);
        assert forall|i: int| 0 <= i < n implies parts[i] == trim(#[trigger] pieces@[i]@) by {
            assert(pieces@.map_values(|p: Vec<char>| p@)[i] == split(spec@, '+')[i]);
        }
    }
    let mut ctrl = false;
    let mut alt = false;
    let mut shift = false;
    let mut logo = false;
    for i in 0..n - 1
        invariant
            n == pieces.len(),
            n == parts.len(),
            n > 0,
            parts == components(spec@),
            forall|j: int| 0 <= j < n ==> parts[j] == trim(#[trigger] pieces@[j]@),
            forall|j: int| 0 <= j < i ==> !#[trigger] troubled(parts, j),
            ctrl == asks_for(parts, i as int, Modifier::Ctrl),
            alt == asks_for(parts, i as int, Modifier::Alt),
            shift == asks_for(parts, i as int, Modifier::Shift),
            logo == asks_for(parts, i as int, Modifier::Logo),
    {
        let part = trimmed(&pieces[i]);
        assert(part@ == parts[i as int]);
        if part.len() == 0 {
            assert(first_trouble(parts, i as int));
            return Err(BindingError::EmptyComponent { spec: spec.to_owned() });
        }
        let folded = lowered(&part);
        let modifier = read_modifier(&folded);
        let ghost after = i + 1;
        assert forall|m: Modifier| asks_for(parts, after, m) == (asks_for(parts, i as int, m)
            || modifier == Some(m)) by {
            if asks_for(parts, after, m) {
                let k = choose|k: int|
                    0 <= k < after && modifier_named(#[trigger] parts[k]) == Some(m);
                assert(k == i || 0 <= k < i);
            }
            if modifier == Some(m) {
                assert(modifier_named(parts[i as int]) == Some(m));
            }
        }
        match modifier {
            Some(Modifier::Ctrl) => {
                ctrl = true;
            },
            Some(Modifier::Alt) => {
                alt = true;
            },
            Some(Modifier::Shift) => {
                shift = true;
            },
            Some(Modifier::Logo) => {
                logo = true;
            },
            None => {
                assert(first_trouble(parts, i as int));
                return Err(
                    BindingError::UnknownModifier { name: text_of(&folded), spec: spec.to_owned() },
                );
            },
        }
    }
    let key = trimmed(&pieces[n - 1]);
    assert(key@ == parts[n - 1]);
    if key.len() == 0 {
        assert(first_trouble(parts, n - 1));
        return Err(BindingError::EmptyComponent { spec: spec.to_owned() });
    }
    Ok(Combination { ctrl, alt, shift, logo, key: text_of(&key) })
}

/// Is `parsed` what parsing the binding `spec` gives, where `keysym_from_name` looks up
/// the name of its key? Everything but an unknown keysym is decided by the binding
/// alone.
pub open spec fn parses<F: FnOnce(&str) -> u32>(
    spec: Seq<char>,
    keysym_from_name: F,
    parsed: Result<Binding, BindingError>,
) -> bool {
    let parts = components(spec);
    match parsed {
        Ok(binding) => {
            &&& forall|i: int| 0 <= i < parts.len() ==> !#[trigger] troubled(parts, i)
            &&& exists|combination: Combination, key: &str|
                {
                    &&& #[trigger] combination.is_said_by(parts)
                    &&& key@ == combination.key@
                    &&& #[trigger] call_ensures(keysym_from_name, (key,), binding.keysym)
                    &&& binding == combination.bound_to(binding.keysym)
                }
            &&& binding.keysym != NO_SYMBOL
        },
        Err(BindingError::EmptyComponent { spec: given }) => {
            &&& given@ == spec
            &&& exists|i: int| #[trigger] first_trouble(parts, i) && parts[i].len() == 0
        },
        Err(BindingError::UnknownModifier { name, spec: given }) => {
            &&& given@ == spec
            &&& exists|i: int| #[trigger]
                first_trouble(parts, i) && parts[i].len() > 0 && name@ == lower(parts[i])
        },
        Err(BindingError::UnknownKeysym { key, spec: given }) => {
            &&& given@ == spec
            &&& forall|i: int| 0 <= i < parts.len() ==> !#[trigger] troubled(parts, i)
            &&& key@ == parts.last()
            &&& exists|asked: &str|
                asked@ == parts.last() && #[trigger] call_ensures(
                    keysym_from_name,
                    (asked,),
                    NO_SYMBOL,
                )
        },
    }
}

/// Is `key` the last component of `spec`, and everything before it in order?
pub open spec fn is_key_of(spec: Seq<char>, key: Seq<char>) -> bool {
    let parts = components(spec);
    &&& key == parts.last()
    &&& forall|i: int| 0 <= i < parts.len() ==> !#[trigger] troubled(parts, i)
}

/// Parse `Mod+Mod+Keysym`, e.g. `Ctrl+Alt+Backspace` or `Super+q`.
///
/// Modifier names are case-insensitive; the final component is an xkb keysym
/// name, which `keysym_from_name` looks up, giving [`NO_SYMBOL`] for an unknown one.
/// It is asked for that name alone, and only once everything else is in order.
pub fn parse_binding<F: FnOnce(&str) -> u32>(spec: &str, keysym_from_name: F) -> (parsed: Result<
    Binding,
    BindingError,
>)
    requires
        forall|key: &str|
            is_key_of(spec@, key@) ==> #[trigger] call_requires(keysym_from_name, (key,)),
    ensures
        parses(spec@, keysym_from_name, parsed),
{
    match split_binding(spec) {
        Err(err) => Err(err),
        Ok(combination) => {
            proof {
                lemma_split_is_not_empty(spec@, '+');
            }
            let keysym: u32 = keysym_from_name(combination.key.as_str());
            let ghost said = combination;
            assert(said.is_said_by(components(spec@)));
            combination.bind(keysym, spec)
        },
    }
}

/// The case of the letters of a modifier's name does not matter: two bindings that
/// differ in it alone ask for the same modifiers, or fail at the same component.
pub proof fn law_modifier_names_ignore_case(spec: Seq<char>, other: Seq<char>)
    requires
        components(spec).len() == components(other).len(),
        components(spec).last() == components(other).last(),
        forall|i: int|
            0 <= i < components(spec).len() ==> same_ignoring_case(
                #[trigger] components(spec)[i],
                components(other)[i],
            ),
    ensures
        forall|i: int|
            0 <= i < components(spec).len() ==> #[trigger] troubled(components(spec), i)
                == troubled(components(other), i),
        forall|said: Combination| #[trigger]
            said.is_said_by(components(spec)) ==> said.is_said_by(components(other)),
{
    let parts = components(spec);
    let others = components(other);
    assert forall|i: int| 0 <= i < parts.len() implies modifier_named(#[trigger] parts[i])
        == modifier_named(others[i]) && parts[i].len() == others[i].len() by {
        assert(lower(parts[i]).len() == parts[i].len());
        assert(lower(others[i]).len() == others[i].len());
    }
    lemma_split_is_not_empty(spec, '+');
    let n = parts.len() - 1;
    assert forall|m: Modifier| asks_for(parts, n, m) == asks_for(others, n, m) by {
        if asks_for(parts, n, m) {
            let i = choose|i: int| 0 <= i < n && modifier_named(#[trigger] parts[i]) == Some(m);
            assert(modifier_named(others[i]) == Some(m));
        }
        if asks_for(others, n, m) {
            let i = choose|i: int| 0 <= i < n && modifier_named(#[trigger] others[i]) == Some(m);
            assert(modifier_named(parts[i]) == Some(m));
        }
    }
}

/// Do two bindings name the same modifiers before their keys?
pub open spec fn same_modifiers(parts: Seq<Seq<char>>, others: Seq<Seq<char>>) -> bool {
    forall|m: Modifier| #[trigger]
        asks_for(parts, parts.len() - 1, m) == asks_for(others, others.len() - 1, m)
}

/// A binding names a set of modifiers: neither the order in which they come, nor how
/// often, nor under which of its names each makes a difference. Two bindings without
/// error that name the same modifiers before the same key parse to the same.
pub proof fn law_modifiers_are_a_set<F: FnOnce(&str) -> u32>(
    spec: Seq<char>,
    other: Seq<char>,
    keysym_from_name: F,
    binding: Binding,
)
    requires
        components(spec).last() == components(other).last(),
        same_modifiers(components(spec), components(other)),
        forall|i: int|
            0 <= i < components(spec).len() ==> !#[trigger] troubled(components(spec), i),
        forall|i: int|
            0 <= i < components(other).len() ==> !#[trigger] troubled(components(other), i),
    ensures
        parses(spec, keysym_from_name, Ok(binding)) == parses(other, keysym_from_name, Ok(binding)),
{
    if parses(spec, keysym_from_name, Ok(binding)) {
        lemma_same_modifiers_parse(spec, other, keysym_from_name, binding);
    }
    if parses(other, keysym_from_name, Ok(binding)) {
        lemma_same_modifiers_parse(other, spec, keysym_from_name, binding);
    }
}

proof fn lemma_same_modifiers_parse<F: FnOnce(&str) -> u32>(
    spec: Seq<char>,
    other: Seq<char>,
    keysym_from_name: F,
    binding: Binding,
)
    requires
        components(spec).last() == components(other).last(),
        same_modifiers(components(spec), components(other)),
        forall|i: int|
            0 <= i < components(other).len() ==> !#[trigger] troubled(components(other), i),
        parses(spec, keysym_from_name, Ok(binding)),
    ensures
        parses(other, keysym_from_name, Ok(binding)),
{
    let parts = components(spec);
    let others = components(other);
    lemma_split_is_not_empty(spec, '+');
    lemma_split_is_not_empty(other, '+');
    let (said, key) = choose|combination: Combination, key: &str|
        {
            &&& #[trigger] combination.is_said_by(parts)
            &&& key@ == combination.key@
            &&& #[trigger] call_ensures(keysym_from_name, (key,), binding.keysym)
            &&& binding == combination.bound_to(binding.keysym)
        };
    assert(said.is_said_by(others)) by {
        assert(asks_for(parts, parts.len() - 1, Modifier::Ctrl) == said.ctrl);
        assert(asks_for(parts, parts.len() - 1, Modifier::Alt) == said.alt);
        assert(asks_for(parts, parts.len() - 1, Modifier::Shift) == said.shift);
        assert(asks_for(parts, parts.len() - 1, Modifier::Logo) == said.logo);
    }
}

/// The names of a modifier are interchangeable, whatever the case of their letters: a
/// binding in which a modifier stands under another of its names parses to the same.
pub proof fn law_modifier_names_are_synonyms<F: FnOnce(&str) -> u32>(
    spec: Seq<char>,
    other: Seq<char>,
    keysym_from_name: F,
    binding: Binding,
)
    requires
        components(spec).len() == components(other).len(),
        components(spec).last() == components(other).last(),
        forall|i: int|
            0 <= i < components(spec).len() - 1 ==> {
                &&& modifier_named(#[trigger] components(spec)[i]) is Some
                &&& modifier_named(components(spec)[i]) == modifier_named(components(other)[i])
            },
    ensures
        parses(spec, keysym_from_name, Ok(binding)) == parses(other, keysym_from_name, Ok(binding)),
{
    let parts = components(spec);
    let others = components(other);
    let n = parts.len() - 1;
    lemma_split_is_not_empty(spec, '+');
    assert forall|m: Modifier| asks_for(parts, n, m) == #[trigger] asks_for(others, n, m) by {
        if asks_for(parts, n, m) {
            let i = choose|i: int| 0 <= i < n && modifier_named(#[trigger] parts[i]) == Some(m);
            assert(modifier_named(others[i]) == Some(m));
        }
        if asks_for(others, n, m) {
            let i = choose|i: int| 0 <= i < n && modifier_named(#[trigger] others[i]) == Some(m);
            assert(modifier_named(parts[i]) == Some(m));
        }
    }
    assert(same_modifiers(parts, others));
    assert forall|i: int| 0 <= i < n implies parts[i].len() > 0 && others[i].len() > 0 by {
        assert(modifier_named(parts[i]) is Some);
        lemma_a_modifier_has_a_name(parts[i]);
        lemma_a_modifier_has_a_name(others[i]);
    }
    if parts[n].len() > 0 {
        assert forall|i: int| 0 <= i < parts.len() implies !#[trigger] troubled(parts, i) by {
            assert(i == n || modifier_named(parts[i]) is Some);
        }
        assert forall|i: int| 0 <= i < parts.len() implies !#[trigger] troubled(others, i) by {
            assert(i == n || modifier_named(parts[i]) is Some);
        }
        law_modifiers_are_a_set(spec, other, keysym_from_name, binding);
    } else {
        assert(troubled(parts, n));
        assert(troubled(others, n));
    }
}

/// Super, Logo and Mod4 are one modifier, and so are Ctrl and Control.
pub proof fn law_names_of_the_modifiers(name: Seq<char>)
    ensures
        modifier_named(name) == Some(Modifier::Ctrl) <==> {
            ||| lower(name) == "ctrl"@
            ||| lower(name) == "control"@
        },
        modifier_named(name) == Some(Modifier::Alt) <==> lower(name) == "alt"@,
        modifier_named(name) == Some(Modifier::Shift) <==> lower(name) == "shift"@,
        modifier_named(name) == Some(Modifier::Logo) <==> {
            ||| lower(name) == "super"@
            ||| lower(name) == "logo"@
            ||| lower(name) == "mod4"@
        },
{
    reveal_strlit("ctrl");
    reveal_strlit("control");
    reveal_strlit("alt");
    reveal_strlit("shift");
    reveal_strlit("super");
    reveal_strlit("logo");
    reveal_strlit("mod4");
    assert("ctrl"@[0] == 'c' && "control"@[0] == 'c' && "alt"@[0] == 'a' && "shift"@[1] == 'h');
    assert("super"@[1] == 'u' && "logo"@[0] == 'l' && "mod4"@[0] == 'm');
}

proof fn lemma_a_modifier_has_a_name(name: Seq<char>)
    requires
        modifier_named(name) is Some,
    ensures
        name.len() > 0,
{
    reveal_strlit("ctrl");
    reveal_strlit("control");
    reveal_strlit("alt");
    reveal_strlit("shift");
    reveal_strlit("super");
    reveal_strlit("logo");
    reveal_strlit("mod4");
    assert(lower(name).len() == name.len());
}

} // verus!
