//! Arguments: what a binding says, what is logged, where logs may go, and what is checked
//! before the screen is taken.

use vstd::prelude::*;

use crate::child::SpawnError;
use crate::cli::{
    asks_for, components, first_trouble, law_names_of_the_modifiers, log_filter, modifier_named,
    parse_binding, split_binding, troubled, Binding, BindingError, Cli, Combination, Modifier,
};
use crate::logging::{
    check_log_file, filter_directive, open_log_sink, settle_log_file, SinkError, SinkStat,
};
use crate::run::{check_arguments, ArgumentError};
use crate::text::{
    is_space, lemma_split_is_not_empty, lossy, lower, quoted, decimal, split, trim,
};

verus! {

/// Is `name` a name of the Ctrl modifier, whatever the case of its letters?
pub open spec fn names_ctrl(name: Seq<char>) -> bool {
    lower(name) == "ctrl"@ || lower(name) == "control"@
}

/// Is `name` a name of the Alt modifier, whatever the case of its letters?
pub open spec fn names_alt(name: Seq<char>) -> bool {
    lower(name) == "alt"@
}

/// Is `name` a name of the Shift modifier, whatever the case of its letters?
pub open spec fn names_shift(name: Seq<char>) -> bool {
    lower(name) == "shift"@
}

/// Is `name` a name of the Logo modifier, whatever the case of its letters?
pub open spec fn names_logo(name: Seq<char>) -> bool {
    lower(name) == "super"@ || lower(name) == "logo"@ || lower(name) == "mod4"@
}

/// Is `name` a name of a modifier?
pub open spec fn names_a_modifier(name: Seq<char>) -> bool {
    names_ctrl(name) || names_alt(name) || names_shift(name) || names_logo(name)
}

/// Does one of `parts`, the last left out, satisfy `wanted`?
pub open spec fn one_before_last(
    parts: Seq<Seq<char>>,
    wanted: spec_fn(Seq<char>) -> bool,
) -> bool {
    exists|i: int| 0 <= i < parts.len() - 1 && wanted(#[trigger] parts[i])
}

/// Is component `i` as it has to be: not empty, and the name of a modifier unless it is
/// the last one?
pub open spec fn is_in_order(parts: Seq<Seq<char>>, i: int) -> bool {
    &&& parts[i].len() > 0
    &&& i < parts.len() - 1 ==> names_a_modifier(parts[i])
}

/// Is component `i` the first that is not as it has to be?
pub open spec fn is_first_out_of_order(parts: Seq<Seq<char>>, i: int) -> bool {
    &&& 0 <= i < parts.len()
    &&& !is_in_order(parts, i)
    &&& forall|j: int| 0 <= j < i ==> #[trigger] is_in_order(parts, j)
}

/// Are all components as they have to be?
pub open spec fn all_in_order(parts: Seq<Seq<char>>) -> bool {
    forall|j: int| 0 <= j < parts.len() ==> #[trigger] is_in_order(parts, j)
}

/// The components of a binding are what stands between its `+` signs, trimmed.
pub proof fn law_the_components_of_a_binding(spec: Seq<char>)
    ensures
        components(spec).len() == split(spec, '+').len(),
        components(spec).len() > 0,
        forall|i: int|
            0 <= i < components(spec).len() ==> #[trigger] components(spec)[i] == trim(
                split(spec, '+')[i],
            ),
{
    lemma_split_is_not_empty(spec, '+');
}

proof fn lemma_order(parts: Seq<Seq<char>>)
    ensures
        forall|i: int| #[trigger] troubled(parts, i) == !is_in_order(parts, i),
        forall|i: int| #[trigger]
            first_trouble(parts, i) == is_first_out_of_order(parts, i),
{
    assert forall|i: int| #[trigger] troubled(parts, i) == !is_in_order(parts, i) by {
        law_names_of_the_modifiers(parts[i]);
    }
    assert forall|i: int| #[trigger] first_trouble(parts, i) == is_first_out_of_order(
        parts,
        i,
    ) by {
        assert forall|j: int| troubled(parts, j) == !#[trigger] is_in_order(parts, j) by {
            law_names_of_the_modifiers(parts[j]);
        }
    }
}

proof fn lemma_asks_for(parts: Seq<Seq<char>>)
    ensures
        asks_for(parts, parts.len() - 1, Modifier::Ctrl) == one_before_last(
            parts,
            |name: Seq<char>| names_ctrl(name),
        ),
        asks_for(parts, parts.len() - 1, Modifier::Alt) == one_before_last(
            parts,
            |name: Seq<char>| names_alt(name),
        ),
        asks_for(parts, parts.len() - 1, Modifier::Shift) == one_before_last(
            parts,
            |name: Seq<char>| names_shift(name),
        ),
        asks_for(parts, parts.len() - 1, Modifier::Logo) == one_before_last(
            parts,
            |name: Seq<char>| names_logo(name),
        ),
{
    assert forall|name: Seq<char>|
        {
            &&& (#[trigger] modifier_named(name) == Some(Modifier::Ctrl)) == names_ctrl(name)
            &&& (modifier_named(name) == Some(Modifier::Alt)) == names_alt(name)
            &&& (modifier_named(name) == Some(Modifier::Shift)) == names_shift(name)
            &&& (modifier_named(name) == Some(Modifier::Logo)) == names_logo(name)
        } by {
        law_names_of_the_modifiers(name);
    }
    let n = parts.len() - 1;
    let ctrl = |name: Seq<char>| names_ctrl(name);
    let alt = |name: Seq<char>| names_alt(name);
    let shift = |name: Seq<char>| names_shift(name);
    let logo = |name: Seq<char>| names_logo(name);
    lemma_one(parts, ctrl, Modifier::Ctrl);
    lemma_one(parts, alt, Modifier::Alt);
    lemma_one(parts, shift, Modifier::Shift);
    lemma_one(parts, logo, Modifier::Logo);
}

proof fn lemma_one(parts: Seq<Seq<char>>, wanted: spec_fn(Seq<char>) -> bool, modifier: Modifier)
    requires
        forall|name: Seq<char>|
            wanted(name) == (#[trigger] modifier_named(name) == Some(modifier)),
    ensures
        asks_for(parts, parts.len() - 1, modifier) == one_before_last(parts, wanted),
{
    let n = parts.len() - 1;
    if asks_for(parts, n, modifier) {
        let i = choose|i: int|
            0 <= i < n && modifier_named(#[trigger] parts[i]) == Some(modifier);
        assert(wanted(parts[i]));
    }
    if one_before_last(parts, wanted) {
        let i = choose|i: int| 0 <= i < n && wanted(#[trigger] parts[i]);
        assert(modifier_named(parts[i]) == Some(modifier));
    }
}

/// A binding has exactly the modifiers that are named before its last component, whose
/// key it is bound to; it is refused at the first component that is empty or no modifier,
/// and otherwise only for a key that nobody knows.
pub proof fn law_what_a_binding_says<F: FnOnce(&str) -> u32>(
    spec: &str,
    keysym_from_name: F,
    parsed: Result<Binding, BindingError>,
)
    requires
        call_ensures(parse_binding::<F>, (spec, keysym_from_name), parsed),
    ensures
        ({
            let parts = components(spec@);
            let key = parts[parts.len() - 1];
            match parsed {
                Ok(binding) => {
                    &&& all_in_order(parts)
                    &&& binding.ctrl == one_before_last(parts, |name: Seq<char>| names_ctrl(name))
                    &&& binding.alt == one_before_last(parts, |name: Seq<char>| names_alt(name))
                    &&& binding.shift == one_before_last(
                        parts,
                        |name: Seq<char>| names_shift(name),
                    )
                    &&& binding.logo == one_before_last(parts, |name: Seq<char>| names_logo(name))
                    &&& binding.keysym != 0
                    &&& exists|asked: &str|
                        asked@ == key && #[trigger] call_ensures(
                            keysym_from_name,
                            (asked,),
                            binding.keysym,
                        )
                },
                Err(BindingError::EmptyComponent { spec: given }) => {
                    &&& given@ == spec@
                    &&& exists|i: int| #[trigger]
                        is_first_out_of_order(parts, i) && parts[i].len() == 0
                },
                Err(BindingError::UnknownModifier { name, spec: given }) => {
                    &&& given@ == spec@
                    &&& exists|i: int| #[trigger]
                        is_first_out_of_order(parts, i) && parts[i].len() > 0 && name@ == lower(
                            parts[i],
                        )
                },
                Err(BindingError::UnknownKeysym { key: unknown, spec: given }) => {
                    &&& given@ == spec@
                    &&& all_in_order(parts)
                    &&& unknown@ == key
                    &&& exists|asked: &str|
                        asked@ == key && #[trigger] call_ensures(keysym_from_name, (asked,), 0)
                },
            }
        }),
{
    let parts = components(spec@);
    law_the_components_of_a_binding(spec@);
    lemma_order(parts);
    lemma_asks_for(parts);
    if parsed is Ok || (parsed matches Err(err) && err is UnknownKeysym) {
        assert forall|j: int| 0 <= j < parts.len() implies #[trigger] is_in_order(parts, j) by {
            assert(!troubled(parts, j));
        }
    }
    match parsed {
        Ok(binding) => {
            let (said, key) = choose|combination: Combination, key: &str|
                {
                    &&& #[trigger] combination.is_said_by(parts)
                    &&& key@ == combination.key@
                    &&& #[trigger] call_ensures(keysym_from_name, (key,), binding.keysym)
                    &&& binding == combination.bound_to(binding.keysym)
                };
            assert(call_ensures(keysym_from_name, (key,), binding.keysym));
        },
        Err(BindingError::EmptyComponent { .. }) => {
            let i = choose|i: int| #[trigger] first_trouble(parts, i) && parts[i].len() == 0;
            assert(is_first_out_of_order(parts, i));
        },
        Err(BindingError::UnknownModifier { name, .. }) => {
            let i = choose|i: int| #[trigger]
                first_trouble(parts, i) && parts[i].len() > 0 && name@ == lower(parts[i]);
            assert(is_first_out_of_order(parts, i));
        },
        Err(BindingError::UnknownKeysym { .. }) => {},
    }
}

/// Taking a binding apart gives its modifiers and its key.
pub proof fn law_what_taking_a_binding_apart_gives(
    spec: &str,
    said: Result<Combination, BindingError>,
)
    requires
        call_ensures(split_binding, (spec,), said),
    ensures
        ({
            let parts = components(spec@);
            match said {
                Ok(combination) => {
                    &&& all_in_order(parts)
                    &&& combination.ctrl == one_before_last(
                        parts,
                        |name: Seq<char>| names_ctrl(name),
                    )
                    &&& combination.alt == one_before_last(
                        parts,
                        |name: Seq<char>| names_alt(name),
                    )
                    &&& combination.shift == one_before_last(
                        parts,
                        |name: Seq<char>| names_shift(name),
                    )
                    &&& combination.logo == one_before_last(
                        parts,
                        |name: Seq<char>| names_logo(name),
                    )
                    &&& combination.key@ == parts[parts.len() - 1]
                },
                Err(_) => !all_in_order(parts),
            }
        }),
{
    let parts = components(spec@);
    law_the_components_of_a_binding(spec@);
    lemma_order(parts);
    lemma_asks_for(parts);
    match said {
        Ok(_) => {
            assert forall|j: int| 0 <= j < parts.len() implies #[trigger] is_in_order(parts, j) by {
                assert(!troubled(parts, j));
            }
        },
        Err(BindingError::EmptyComponent { .. }) => {
            let i = choose|i: int| #[trigger] first_trouble(parts, i) && parts[i].len() == 0;
            assert(is_first_out_of_order(parts, i));
        },
        Err(BindingError::UnknownModifier { name, .. }) => {
            let i = choose|i: int| #[trigger]
                first_trouble(parts, i) && parts[i].len() > 0 && name@ == lower(parts[i]);
            assert(is_first_out_of_order(parts, i));
        },
        Err(BindingError::UnknownKeysym { .. }) => {},
    }
}

/// A combination is bound as it stands to a keysym that there is.
pub proof fn law_how_a_combination_is_bound(
    said: Combination,
    keysym: u32,
    spec: &str,
    bound: Result<Binding, BindingError>,
)
    requires
        call_ensures(Combination::bind, (said, keysym, spec), bound),
    ensures
        match bound {
            Ok(binding) => {
                &&& keysym != 0
                &&& binding.keysym == keysym
                &&& binding.ctrl == said.ctrl
                &&& binding.alt == said.alt
                &&& binding.shift == said.shift
                &&& binding.logo == said.logo
            },
            Err(err) => keysym == 0 && err is UnknownKeysym,
        },
{
}

/// What the user is told about a binding.
pub proof fn law_what_binding_failures_say(err: &BindingError, text: String)
    requires
        call_ensures(BindingError::message, (err,), text),
    ensures
        text@ == (match *err {
            BindingError::EmptyComponent { spec } => "empty component in binding "@ + quoted(
                spec@,
            ),
            BindingError::UnknownModifier { name, spec } => "unknown modifier "@ + quoted(name@)
                + " in binding "@ + quoted(spec@) + " (expected Ctrl, Alt, Shift, or Super)"@,
            BindingError::UnknownKeysym { key, spec } => "unknown keysym "@ + quoted(key@)
                + " in binding "@ + quoted(spec@),
        }),
{
}

/// Each `-v` makes the log more talkative, up to the third.
pub proof fn law_how_talkative_the_log_is(verbose: u8, directive: &'static str)
    requires
        call_ensures(log_filter, (verbose,), directive),
    ensures
        verbose == 0 ==> directive@ == "kiosk=info,warn"@,
        verbose == 1 ==> directive@ == "kiosk=debug,info"@,
        verbose == 2 ==> directive@ == "kiosk=trace,debug"@,
        verbose >= 3 ==> directive@ == "trace"@,
{
}

/// A filter that is set and not blank wins; otherwise the number of `-v` decides.
pub proof fn law_a_set_filter_wins(
    rust_log: Option<&str>,
    verbose: u8,
    directive: String,
    implied: &'static str,
)
    requires
        call_ensures(filter_directive, (rust_log, verbose), directive),
        call_ensures(log_filter, (verbose,), implied),
    ensures
        match rust_log {
            Some(value) => if exists|i: int|
                0 <= i < value@.len() && !is_space(#[trigger] value@[i]) {
                directive@ == value@
            } else {
                directive@ == implied@
            },
            None => directive@ == implied@,
        },
{
}

/// Is the file a regular one, of `user`'s own, with no other path to it?
pub open spec fn is_ours_alone(stat: SinkStat, user: u32) -> bool {
    &&& stat.mode & 0o170000 == 0o100000
    &&& stat.links <= 1
    &&& stat.uid == user
}

/// A log file is written only if it is a regular file of our own with one path to it, and
/// either could be tightened or was private already; only such a file is tightened at
/// all. Each refusal says what is wrong.
pub proof fn law_which_log_files_are_written<F: FnOnce() -> bool>(
    path: &Vec<u8>,
    stat: &SinkStat,
    user: u32,
    tighten: F,
    admitted: Result<(), SinkError>,
)
    requires
        call_ensures(open_log_sink::<F>, (path, stat, user, tighten), admitted),
    ensures
        match admitted {
            Ok(()) => {
                &&& is_ours_alone(*stat, user)
                &&& call_ensures(tighten, (), true) || (call_ensures(tighten, (), false)
                    && stat.mode & 0o077 == 0)
            },
            Err(SinkError::NotRegular { path: named }) => named@ == path@ && stat.mode & 0o170000
                != 0o100000,
            Err(SinkError::HardLinked { path: named, links }) => named@ == path@ && links
                == stat.links && stat.links > 1,
            Err(SinkError::ForeignOwner { path: named, owner, user: us }) => {
                &&& named@ == path@
                &&& owner == stat.uid
                &&& us == user
                &&& stat.uid != user
            },
            Err(SinkError::NotRestricted) => {
                &&& is_ours_alone(*stat, user)
                &&& call_ensures(tighten, (), false)
                &&& stat.mode & 0o077 != 0
            },
        },
{
}

/// The two halves of that decision: what the file is, and what became of its permissions.
pub proof fn law_the_halves_of_the_decision(
    path: &Vec<u8>,
    stat: &SinkStat,
    user: u32,
    tightened: bool,
    decided: Result<(), SinkError>,
)
    ensures
        call_ensures(check_log_file, (path, stat, user), decided) ==> (decided is Ok
            <==> is_ours_alone(*stat, user)),
        call_ensures(check_log_file, (path, stat, user), decided) ==> (decided matches Err(err)
            ==> {
            &&& err is NotRegular <==> stat.mode & 0o170000 != 0o100000
            &&& err is HardLinked <==> stat.mode & 0o170000 == 0o100000 && stat.links > 1
        }),
        call_ensures(settle_log_file, (stat, tightened), decided) ==> (decided is Ok <==> tightened
            || stat.mode & 0o077 == 0),
{
}

/// What the user is told about a log file.
pub proof fn law_what_log_failures_say(err: &SinkError, text: String)
    requires
        call_ensures(SinkError::message, (err,), text),
    ensures
        text@ == (match *err {
            SinkError::NotRegular { path } => "log file "@ + lossy(path@)
                + " is not a regular file"@,
            SinkError::HardLinked { path, links } => "log file "@ + lossy(path@) + " has "@
                + decimal(links as nat)
                + " hard links; refusing to write a log another path can read"@,
            SinkError::ForeignOwner { path, owner, user } => "log file "@ + lossy(path@)
                + " is owned by uid "@ + decimal(owner as nat) + ", not "@ + decimal(user as nat)
                + "; refusing to write a log its owner can re-open"@,
            SinkError::NotRestricted => "failed to restrict the log file's permissions"@,
        }),
{
}

/// The arguments are in order exactly if there is a command that can be started, or the
/// outputs are listed, and the exit key, where one is given, can be parsed. What is wrong
/// first is reported.
pub proof fn law_what_is_checked_before_the_screen_is_taken<
    P: FnOnce(&Vec<String>) -> Result<(), SpawnError>,
    K: FnOnce(&str) -> u32,
>(cli: &Cli, preflight: P, keysym_from_name: K, checked: Result<Option<Binding>, ArgumentError>)
    requires
        call_ensures(check_arguments::<P, K>, (cli, preflight, keysym_from_name), checked),
    ensures
        (checked matches Err(err) && err is NoCommand) <==> (!cli.list_outputs
            && cli.command@.len() == 0),
        checked matches Err(ArgumentError::Preflight(err)) ==> !cli.list_outputs && call_ensures(
            preflight,
            (&cli.command,),
            Err(err),
        ),
        checked matches Err(ArgumentError::ExitKey(_)) ==> cli.exit_key is Some,
        checked matches Ok(binding) ==> {
            &&& binding is Some <==> cli.exit_key is Some
            &&& !cli.list_outputs ==> cli.command@.len() > 0 && call_ensures(
                preflight,
                (&cli.command,),
                Ok(()),
            )
        },
        checked matches Ok(Some(binding)) ==> (cli.exit_key matches Some(spec)
            && crate::cli::parses(spec@, keysym_from_name, Ok(binding))),
{
}

/// What the user is told about the arguments.
pub proof fn law_what_argument_failures_say(err: &ArgumentError, text: String)
    requires
        call_ensures(ArgumentError::message, (err,), text),
    ensures
        *err is NoCommand ==> text@
            == "no command given; usage: kiosk [OPTIONS] -- <COMMAND> [ARGS...]"@,
        *err matches ArgumentError::Preflight(inner) ==> text@ == inner.text(),
        *err matches ArgumentError::ExitKey(inner) ==> text@ == inner.text(),
{
}

/// The limits and intervals are as documented.
pub proof fn law_the_limits()
    ensures
        crate::frames::MAX_CONSECUTIVE_DROPS == 60,
        crate::frames::RETRY_INTERVAL_MS == 16,
        crate::handlers::xdg_shell::MAX_TOPLEVELS == 32,
        crate::handlers::xdg_shell::MAX_POPUPS == 64,
        crate::handlers::xdg_shell::MAX_POPUP_DEPTH == 8,
        crate::child::TERMINATE_GRACE_NS == 2_000_000_000,
        crate::child::REAP_FAILURE_STATUS == 125,
        crate::logging::LOG_FILE_MODE == 0o600,
        crate::backend::input::EXIT_KEY_STATUS == 0,
        crate::run::EXIT_FAILURE == 1,
        crate::cli::NO_SYMBOL == 0,
        crate::cli::LOG_TARGET@ == "kiosk"@,
{
}

} // verus!
