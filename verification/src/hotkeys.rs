//! Hotkey bindings: the direction and key-combination vocabulary, and the
//! parsing of binding strings into engine commands.

use vstd::prelude::*;

verus! {

#[derive(Debug, Clone, Copy, PartialEq, Eq, Structural)]
pub enum Direction {
    Left,
    Right,
    Up,
    Down,
}

#[derive(Debug, Clone, PartialEq, Eq, Hash)]
pub struct KeyCombination {
    pub modifiers: Vec<ModifierKey>,
    pub key: String,
}

#[derive(Debug, Clone, Copy, PartialEq, Eq, Hash, Structural)]
pub enum ModifierKey {
    Alt,
    Ctrl,
    Shift,
    Cmd,
}


/// What a binding's action resolves to: an engine command, or a program to
/// launch (which the host shell performs).
#[derive(Debug)]
pub enum ParsedAction {
    Run(crate::window_manager::Command),
    Exec(String),
}

/// The modifier a key-combination piece names, if any.
pub open spec fn spec_modifier_of(s: Seq<char>) -> Option<ModifierKey> {
    if crate::text::spec_lower(s) == "alt"@ || crate::text::spec_lower(s) == "option"@ {
        Some(ModifierKey::Alt)
    } else if crate::text::spec_lower(s) == "ctrl"@ || crate::text::spec_lower(s) == "control"@ {
        Some(ModifierKey::Ctrl)
    } else if crate::text::spec_lower(s) == "shift"@ {
        Some(ModifierKey::Shift)
    } else if crate::text::spec_lower(s) == "cmd"@ || crate::text::spec_lower(s) == "command"@ {
        Some(ModifierKey::Cmd)
    } else {
        None
    }
}

/// Resolve one key-combination piece to a modifier.
fn modifier_of(piece: &Vec<char>) -> (r: Option<ModifierKey>)
    ensures
        r == spec_modifier_of(piece@),
{
    let mut low: Vec<char> = Vec::new();
    let n = piece.len();
    let mut i: usize = 0;
    while i < n
        invariant
            i <= n,
            n == piece@.len(),
            low@.len() == i,
            forall|j: int| 0 <= j < i ==> low@[j] == crate::text::spec_lower_char(piece@[j]),
        decreases n - i,
    {
        low.push(crate::text::lower_char(piece[i]));
        i += 1;
    }
    proof {
        assert(low@ =~= crate::text::spec_lower(piece@));
    }
    if crate::text::chars_eq_str(&low, "alt") || crate::text::chars_eq_str(&low, "option") {
        Some(ModifierKey::Alt)
    } else if crate::text::chars_eq_str(&low, "ctrl") || crate::text::chars_eq_str(
        &low,
        "control",
    ) {
        Some(ModifierKey::Ctrl)
    } else if crate::text::chars_eq_str(&low, "shift") {
        Some(ModifierKey::Shift)
    } else if crate::text::chars_eq_str(&low, "cmd") || crate::text::chars_eq_str(
        &low,
        "command",
    ) {
        Some(ModifierKey::Cmd)
    } else {
        None
    }
}

/// Parse a key combination of the form `mod+...+key`: every piece before the
/// last must name a modifier; the last piece is the key.
pub fn parse_key_combination(combo: &str) -> (r: Option<KeyCombination>)
    ensures
        ({
            let parts = crate::text::spec_split(combo@, '+');
            match r {
                Some(kc) => {
                    &&& kc.key@ == parts.last()
                    &&& kc.modifiers@.len() == parts.len() - 1
                    &&& forall|i: int|
                        0 <= i < parts.len() - 1 ==> Some((#[trigger] kc.modifiers@[i]))
                            == spec_modifier_of(parts[i])
                },
                None => exists|i: int|
                    0 <= i < parts.len() - 1 && spec_modifier_of(#[trigger] parts[i]) is None,
            }
        }),
{
    let parts = crate::text::split_str(combo, '+');
    let ghost parts_spec = crate::text::spec_split(combo@, '+');
    proof {
        assert(parts@.map_values(|p: Vec<char>| p@) =~= parts_spec);
    }
    let pn = parts.len();
    let mut modifiers: Vec<ModifierKey> = Vec::new();
    let mut i: usize = 0;
    while i + 1 < pn
        invariant
            pn == parts@.len(),
            pn >= 1,
            parts@.map_values(|p: Vec<char>| p@) == parts_spec,
            parts_spec == crate::text::spec_split(combo@, '+'),
            i < pn,
            modifiers@.len() == i,
            forall|j: int|
                0 <= j < i ==> Some((#[trigger] modifiers@[j])) == spec_modifier_of(
                    parts_spec[j],
                ),
        decreases pn - i,
    {
        proof {
            assert(parts_spec[i as int] == parts@[i as int]@);
        }
        match modifier_of(&parts[i]) {
            Some(m) => {
                modifiers.push(m);
            },
            None => {
                return None;
            },
        }
        i += 1;
    }
    proof {
        assert(parts_spec[pn - 1] == parts@[pn - 1]@);
    }
    let key = crate::text::chars_to_string(&parts[pn - 1]);
    Some(KeyCombination { modifiers, key })
}

/// The command a recognized action name stands for.
pub open spec fn spec_command_of(name: Seq<char>) -> Option<crate::window_manager::Command> {
    if name == "focus_left"@ {
        Some(crate::window_manager::Command::FocusDirection(Direction::Left))
    } else if name == "focus_right"@ {
        Some(crate::window_manager::Command::FocusDirection(Direction::Right))
    } else if name == "focus_up"@ {
        Some(crate::window_manager::Command::FocusDirection(Direction::Up))
    } else if name == "focus_down"@ {
        Some(crate::window_manager::Command::FocusDirection(Direction::Down))
    } else if name == "move_left"@ {
        Some(crate::window_manager::Command::MoveDirection(Direction::Left))
    } else if name == "move_right"@ {
        Some(crate::window_manager::Command::MoveDirection(Direction::Right))
    } else if name == "move_up"@ {
        Some(crate::window_manager::Command::MoveDirection(Direction::Up))
    } else if name == "move_down"@ {
        Some(crate::window_manager::Command::MoveDirection(Direction::Down))
    } else if name == "close_window"@ {
        Some(crate::window_manager::Command::CloseFocusedWindow)
    } else if name == "toggle_layout"@ {
        Some(crate::window_manager::Command::ToggleLayout)
    } else if name == "toggle_float"@ {
        Some(crate::window_manager::Command::ToggleFloat)
    } else if name == "toggle_fullscreen"@ {
        Some(crate::window_manager::Command::ToggleFullscreen)
    } else if name == "swap_main"@ {
        Some(crate::window_manager::Command::SwapMain)
    } else if name == "restart"@ {
        Some(crate::window_manager::Command::ReloadConfig)
    } else {
        None
    }
}

/// Parse an action string: a recognized action name, or `exec` with the
/// program to launch after the colon.
pub fn parse_action(action: &str) -> (r: Result<ParsedAction, String>)
    ensures
        ({
            let parts = crate::text::spec_split(action@, ':');
            match r {
                Ok(pa) => match pa {
                    ParsedAction::Run(c) => Some(c) == spec_command_of(parts[0]),
                    ParsedAction::Exec(prog) => parts[0] == "exec"@ && parts.len() >= 2
                        && prog@ == parts[1],
                },
                Err(_) => spec_command_of(parts[0]) is None && !(parts[0] == "exec"@
                    && parts.len() >= 2),
            }
        }),
{
    proof {
        reveal_strlit("exec");
    }
    let parts = crate::text::split_str(action, ':');
    let ghost parts_spec = crate::text::spec_split(action@, ':');
    proof {
        assert(parts@.map_values(|p: Vec<char>| p@) =~= parts_spec);
        assert(parts_spec[0] == parts@[0]@);
        if parts@.len() >= 2 {
            assert(parts_spec[1] == parts@[1]@);
        }
    }
    let name = &parts[0];
    if crate::text::chars_eq_str(name, "focus_left") {
        Ok(ParsedAction::Run(crate::window_manager::Command::FocusDirection(Direction::Left)))
    } else if crate::text::chars_eq_str(name, "focus_right") {
        Ok(ParsedAction::Run(crate::window_manager::Command::FocusDirection(Direction::Right)))
    } else if crate::text::chars_eq_str(name, "focus_up") {
        Ok(ParsedAction::Run(crate::window_manager::Command::FocusDirection(Direction::Up)))
    } else if crate::text::chars_eq_str(name, "focus_down") {
        Ok(ParsedAction::Run(crate::window_manager::Command::FocusDirection(Direction::Down)))
    } else if crate::text::chars_eq_str(name, "move_left") {
        Ok(ParsedAction::Run(crate::window_manager::Command::MoveDirection(Direction::Left)))
    } else if crate::text::chars_eq_str(name, "move_right") {
        Ok(ParsedAction::Run(crate::window_manager::Command::MoveDirection(Direction::Right)))
    } else if crate::text::chars_eq_str(name, "move_up") {
        Ok(ParsedAction::Run(crate::window_manager::Command::MoveDirection(Direction::Up)))
    } else if crate::text::chars_eq_str(name, "move_down") {
        Ok(ParsedAction::Run(crate::window_manager::Command::MoveDirection(Direction::Down)))
    } else if crate::text::chars_eq_str(name, "close_window") {
        Ok(ParsedAction::Run(crate::window_manager::Command::CloseFocusedWindow))
    } else if crate::text::chars_eq_str(name, "toggle_layout") {
        Ok(ParsedAction::Run(crate::window_manager::Command::ToggleLayout))
    } else if crate::text::chars_eq_str(name, "toggle_float") {
        Ok(ParsedAction::Run(crate::window_manager::Command::ToggleFloat))
    } else if crate::text::chars_eq_str(name, "toggle_fullscreen") {
        Ok(ParsedAction::Run(crate::window_manager::Command::ToggleFullscreen))
    } else if crate::text::chars_eq_str(name, "swap_main") {
        Ok(ParsedAction::Run(crate::window_manager::Command::SwapMain))
    } else if crate::text::chars_eq_str(name, "restart") {
        Ok(ParsedAction::Run(crate::window_manager::Command::ReloadConfig))
    } else if crate::text::chars_eq_str(name, "exec") {
        if parts.len() >= 2 {
            Ok(ParsedAction::Exec(crate::text::chars_to_string(&parts[1])))
        } else {
            Err("exec action requires an argument".to_string())
        }
    } else {
        Err("unknown action".to_string())
    }
}

/// Parse every binding line whose key combination is well formed; lines that
/// fail to parse are skipped, as the host logs and ignores them.
pub fn parse_bindings(bindings: &Vec<(String, String)>) -> (r: Vec<(KeyCombination, String)>)
    ensures
        r@.len() <= bindings@.len(),
{
    let n = bindings.len();
    let mut out: Vec<(KeyCombination, String)> = Vec::new();
    let mut i: usize = 0;
    while i < n
        invariant
            i <= n,
            n == bindings@.len(),
            out@.len() <= i,
        decreases n - i,
    {
        match parse_key_combination(bindings[i].0.as_str()) {
            Some(kc) => {
                out.push((kc, bindings[i].1.clone()));
            },
            None => {},
        }
        i += 1;
    }
    out
}

} // verus!
