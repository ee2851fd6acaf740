//! Configuration records and their validation rules. Reading and writing the
//! configuration file is the host shell's business; the rules about what a
//! configuration may say live here.

use vstd::prelude::*;
use crate::text::{chars_eq_str, spec_lower, spec_split, split_str, to_lower_chars};

verus! {

#[derive(Debug, Clone)]
pub struct GeneralConfig {
    /// Gap between tiles, in pixels.
    pub gap: i64,
    pub border_width: i64,
    pub border_color: String,
    pub active_border_color: String,
}

#[derive(Debug, Clone)]
pub struct LayoutConfig {
    pub default_layout: String,
    /// Master split ratio, in thousandths.
    pub split_ratio: i64,
}

#[derive(Debug, Clone)]
pub struct FocusConfig {
    pub follows_mouse: bool,
    pub mouse_delay_ms: u64,
}

#[derive(Debug, Clone)]
pub struct HotkeyConfig {
    pub mod_key: String,
    pub bindings: Vec<(String, String)>,
}

#[derive(Debug, Clone)]
pub struct IpcConfig {
    pub socket_path: String,
}

#[derive(Debug, Clone)]
pub struct PluginConfig {
    pub enabled: Vec<String>,
    pub plugin_dir: String,
}

#[derive(Debug, Clone)]
pub struct Config {
    pub general: GeneralConfig,
    pub layout: LayoutConfig,
    pub focus: FocusConfig,
    pub hotkeys: HotkeyConfig,
    pub ipc: IpcConfig,
    pub plugins: PluginConfig,
}

pub fn default_gap() -> (r: i64)
    ensures
        r == 10,
{
    10
}

pub fn default_border_width() -> (r: i64)
    ensures
        r == 2,
{
    2
}

pub fn default_border_color() -> (r: String)
    ensures
        r@ == "#cccccc"@,
{
    let s: &str = "#cccccc";
    s.to_string()
}

pub fn default_active_border_color() -> (r: String)
    ensures
        r@ == "#0080ff"@,
{
    let s: &str = "#0080ff";
    s.to_string()
}

pub fn default_layout_type() -> (r: String)
    ensures
        r@ == "bsp"@,
{
    let s: &str = "bsp";
    s.to_string()
}

pub fn default_split_ratio() -> (r: i64)
    ensures
        r == 500,
{
    500
}

pub fn default_focus_follows_mouse() -> (r: bool)
    ensures
        r == true,
{
    true
}

pub fn default_mouse_delay() -> (r: u64)
    ensures
        r == 100,
{
    100
}

pub fn default_socket_path() -> (r: String)
    ensures
        r@ == "/tmp/skew.sock"@,
{
    let s: &str = "/tmp/skew.sock";
    s.to_string()
}

/// The built-in key bindings.
pub fn default_hotkeys() -> (r: Vec<(String, String)>)
    ensures
        r@.len() == 15,
        r@[0].0@ == "alt+h"@ && r@[0].1@ == "focus_left"@,
        r@[1].0@ == "alt+j"@ && r@[1].1@ == "focus_down"@,
        r@[2].0@ == "alt+k"@ && r@[2].1@ == "focus_up"@,
        r@[3].0@ == "alt+l"@ && r@[3].1@ == "focus_right"@,
        r@[4].0@ == "alt+shift+h"@ && r@[4].1@ == "move_left"@,
        r@[5].0@ == "alt+shift+j"@ && r@[5].1@ == "move_down"@,
        r@[6].0@ == "alt+shift+k"@ && r@[6].1@ == "move_up"@,
        r@[7].0@ == "alt+shift+l"@ && r@[7].1@ == "move_right"@,
        r@[8].0@ == "ctrl+alt+space"@ && r@[8].1@ == "toggle_layout"@,
        r@[9].0@ == "ctrl+alt+f"@ && r@[9].1@ == "toggle_float"@,
        r@[10].0@ == "ctrl+alt+r"@ && r@[10].1@ == "toggle_layout"@,
        r@[11].0@ == "alt+return"@ && r@[11].1@ == "exec:terminal"@,
        r@[12].0@ == "alt+w"@ && r@[12].1@ == "close_window"@,
        r@[13].0@ == "alt+m"@ && r@[13].1@ == "toggle_fullscreen"@,
        r@[14].0@ == "alt+shift+space"@ && r@[14].1@ == "swap_main"@,
{
    let mut b: Vec<(String, String)> = Vec::new();
    b.push(("alt+h".to_string(), "focus_left".to_string()));
    b.push(("alt+j".to_string(), "focus_down".to_string()));
    b.push(("alt+k".to_string(), "focus_up".to_string()));
    b.push(("alt+l".to_string(), "focus_right".to_string()));
    b.push(("alt+shift+h".to_string(), "move_left".to_string()));
    b.push(("alt+shift+j".to_string(), "move_down".to_string()));
    b.push(("alt+shift+k".to_string(), "move_up".to_string()));
    b.push(("alt+shift+l".to_string(), "move_right".to_string()));
    b.push(("ctrl+alt+space".to_string(), "toggle_layout".to_string()));
    b.push(("ctrl+alt+f".to_string(), "toggle_float".to_string()));
    b.push(("ctrl+alt+r".to_string(), "toggle_layout".to_string()));
    b.push(("alt+return".to_string(), "exec:terminal".to_string()));
    b.push(("alt+w".to_string(), "close_window".to_string()));
    b.push(("alt+m".to_string(), "toggle_fullscreen".to_string()));
    b.push(("alt+shift+space".to_string(), "swap_main".to_string()));
    b
}

impl Default for Config {
    /// The configuration used when no file is found.
    fn default() -> (c: Config)
        ensures
            c.general.gap == 10,
            c.general.border_width == 2,
            c.layout.default_layout@ == "bsp"@,
            c.layout.split_ratio == 500,
            c.focus.follows_mouse == true,
            c.focus.mouse_delay_ms == 100,
            c.hotkeys.mod_key@ == "alt"@,
            c.hotkeys.bindings@.len() == 15,
            c.ipc.socket_path@ == "/tmp/skew.sock"@,
    {
        let c = Config {
            general: GeneralConfig {
                gap: default_gap(),
                border_width: default_border_width(),
                border_color: default_border_color(),
                active_border_color: default_active_border_color(),
            },
            layout: LayoutConfig {
                default_layout: default_layout_type(),
                split_ratio: default_split_ratio(),
            },
            focus: FocusConfig {
                follows_mouse: default_focus_follows_mouse(),
                mouse_delay_ms: default_mouse_delay(),
            },
            hotkeys: HotkeyConfig { mod_key: "alt".to_string(), bindings: default_hotkeys() },
            ipc: IpcConfig { socket_path: default_socket_path() },
            plugins: PluginConfig { enabled: Vec::new(), plugin_dir: String::new() },
        };
        c
    }
}

/// A colour is a seven-character hex string beginning with a hash.
pub open spec fn spec_color_valid(s: Seq<char>) -> bool {
    s.len() == 7 && s[0] == '#'
}

pub open spec fn spec_general_valid(c: GeneralConfig) -> bool {
    &&& 0 <= c.gap <= 100
    &&& 0 <= c.border_width <= 20
    &&& spec_color_valid(c.border_color@)
    &&& spec_color_valid(c.active_border_color@)
}

/// The recognized layout names, lowered.
pub open spec fn spec_layout_name_valid(s: Seq<char>) -> bool {
    ||| spec_lower(s) == "bsp"@
    ||| spec_lower(s) == "stack"@
    ||| spec_lower(s) == "float"@
    ||| spec_lower(s) == "grid"@
    ||| spec_lower(s) == "spiral"@
    ||| spec_lower(s) == "column"@
    ||| spec_lower(s) == "monocle"@
}

pub open spec fn spec_layout_valid(c: LayoutConfig) -> bool {
    &&& spec_layout_name_valid(c.default_layout@)
    &&& 0 < c.split_ratio < 1000
}

pub open spec fn spec_focus_valid(c: FocusConfig) -> bool {
    c.mouse_delay_ms <= 10000
}

/// The recognized modifier names, lowered.
pub open spec fn spec_modifier_valid(s: Seq<char>) -> bool {
    ||| spec_lower(s) == "alt"@
    ||| spec_lower(s) == "option"@
    ||| spec_lower(s) == "ctrl"@
    ||| spec_lower(s) == "control"@
    ||| spec_lower(s) == "shift"@
    ||| spec_lower(s) == "cmd"@
    ||| spec_lower(s) == "command"@
}

/// The recognized action names.
pub open spec fn spec_action_name_valid(s: Seq<char>) -> bool {
    ||| s == "focus_left"@
    ||| s == "focus_right"@
    ||| s == "focus_up"@
    ||| s == "focus_down"@
    ||| s == "move_left"@
    ||| s == "move_right"@
    ||| s == "move_up"@
    ||| s == "move_down"@
    ||| s == "close_window"@
    ||| s == "toggle_layout"@
    ||| s == "toggle_float"@
    ||| s == "toggle_fullscreen"@
    ||| s == "swap_main"@
    ||| s == "restart"@
    ||| s == "exec"@
}

/// One binding line is valid: a non-empty key combination whose leading
/// pieces are modifiers, and a recognized action, with an argument when the
/// action is a program launch.
pub open spec fn spec_binding_valid(combo: Seq<char>, action: Seq<char>) -> bool {
    let parts = spec_split(combo, '+');
    let action_parts = spec_split(action, ':');
    &&& combo.len() > 0
    &&& forall|i: int| 0 <= i < parts.len() - 1 ==> spec_modifier_valid(#[trigger] parts[i])
    &&& action.len() > 0
    &&& spec_action_name_valid(action_parts[0])
    &&& (action_parts[0] == "exec"@ ==> action_parts.len() >= 2)
}

pub open spec fn spec_hotkeys_valid(c: HotkeyConfig) -> bool {
    &&& spec_modifier_valid(c.mod_key@)
    &&& forall|i: int|
        0 <= i < c.bindings@.len() ==> spec_binding_valid(
            (#[trigger] c.bindings@[i]).0@,
            c.bindings@[i].1@,
        )
}

pub open spec fn spec_ipc_valid(c: IpcConfig) -> bool {
    c.socket_path@.len() > 0
}

pub open spec fn spec_config_valid(c: Config) -> bool {
    &&& spec_general_valid(c.general)
    &&& spec_layout_valid(c.layout)
    &&& spec_focus_valid(c.focus)
    &&& spec_hotkeys_valid(c.hotkeys)
    &&& spec_ipc_valid(c.ipc)
}

/// Test a colour string.
fn color_valid(s: &String) -> (r: bool)
    ensures
        r == spec_color_valid(s@),
{
    proof {
        reveal_strlit("#");
    }
    let head = crate::text::starts_with_str(s.as_str(), "#");
    let ok_len = s.as_str().unicode_len() == 7;
    proof {
        assert("#"@.len() == 1);
        if head {
            assert(s@.subrange(0, 1)[0] == s@[0]);
            assert(s@[0] == '#');
        }
        if ok_len && s@[0] == '#' {
            assert(s@.subrange(0, 1) =~= "#"@);
        }
    }
    head && ok_len
}

impl GeneralConfig {
    /// Accept exactly the configurations whose gap and border width sit in
    /// their documented bands and whose colours are seven-character hex
    /// strings.
    pub fn validate(&self) -> (r: Result<(), String>)
        ensures
            r is Ok <==> spec_general_valid(*self),
    {
        if self.gap < 0 || self.gap > 100 {
            return Err("gap must be between 0 and 100".to_string());
        }
        if self.border_width < 0 || self.border_width > 20 {
            return Err("border_width must be between 0 and 20".to_string());
        }
        if !color_valid(&self.border_color) {
            return Err("border_color must be a seven-character hex color".to_string());
        }
        if !color_valid(&self.active_border_color) {
            return Err("active_border_color must be a seven-character hex color".to_string());
        }
        Ok(())
    }
}

/// Test a layout name.
fn layout_name_valid(s: &String) -> (r: bool)
    ensures
        r == spec_layout_name_valid(s@),
{
    let low = to_lower_chars(s.as_str());
    chars_eq_str(&low, "bsp") || chars_eq_str(&low, "stack") || chars_eq_str(&low, "float")
        || chars_eq_str(&low, "grid") || chars_eq_str(&low, "spiral") || chars_eq_str(
        &low,
        "column",
    ) || chars_eq_str(&low, "monocle")
}

impl LayoutConfig {
    /// Accept exactly the configurations naming a known layout with a split
    /// ratio strictly inside the unit.
    pub fn validate(&self) -> (r: Result<(), String>)
        ensures
            r is Ok <==> spec_layout_valid(*self),
    {
        if !layout_name_valid(&self.default_layout) {
            return Err("default_layout must name a known layout".to_string());
        }
        if self.split_ratio <= 0 || self.split_ratio >= 1000 {
            return Err("split_ratio must be strictly between 0 and 1000".to_string());
        }
        Ok(())
    }
}

impl FocusConfig {
    /// Accept exactly the configurations whose mouse delay stays within ten
    /// seconds; the error names the offending value.
    pub fn validate(&self) -> (r: Result<(), String>)
        ensures
            r is Ok <==> spec_focus_valid(*self),
            r matches Err(m) ==> m@ == "mouse_delay_ms should not exceed 10000, got "@
                + crate::text::spec_decimal(self.mouse_delay_ms as nat),
    {
        if self.mouse_delay_ms > 10000 {
            let head: &str = "mouse_delay_ms should not exceed 10000, got ";
            let rendered = crate::text::u64_to_string(self.mouse_delay_ms);
            return Err(head.to_string().concat(rendered.as_str()));
        }
        Ok(())
    }
}

/// Test a modifier name.
pub fn modifier_valid(s: &Vec<char>) -> (r: bool)
    ensures
        r == spec_modifier_valid(s@),
{
    let low = lower_chars_vec(s);
    chars_eq_str(&low, "alt") || chars_eq_str(&low, "option") || chars_eq_str(&low, "ctrl")
        || chars_eq_str(&low, "control") || chars_eq_str(&low, "shift") || chars_eq_str(
        &low,
        "cmd",
    ) || chars_eq_str(&low, "command")
}

/// Lower a character vector.
fn lower_chars_vec(s: &Vec<char>) -> (r: Vec<char>)
    ensures
        r@ == spec_lower(s@),
{
    let n = s.len();
    let mut out: Vec<char> = Vec::new();
    let mut i: usize = 0;
    while i < n
        invariant
            i <= n,
            n == s@.len(),
            out@.len() == i,
            forall|j: int| 0 <= j < i ==> out@[j] == crate::text::spec_lower_char(s@[j]),
        decreases n - i,
    {
        out.push(crate::text::lower_char(s[i]));
        i += 1;
    }
    proof {
        assert(out@ =~= spec_lower(s@));
    }
    out
}

/// Test an action name.
pub fn action_name_valid(s: &Vec<char>) -> (r: bool)
    ensures
        r == spec_action_name_valid(s@),
{
    chars_eq_str(s, "focus_left") || chars_eq_str(s, "focus_right") || chars_eq_str(s, "focus_up")
        || chars_eq_str(s, "focus_down") || chars_eq_str(s, "move_left") || chars_eq_str(
        s,
        "move_right",
    ) || chars_eq_str(s, "move_up") || chars_eq_str(s, "move_down") || chars_eq_str(
        s,
        "close_window",
    ) || chars_eq_str(s, "toggle_layout") || chars_eq_str(s, "toggle_float") || chars_eq_str(
        s,
        "toggle_fullscreen",
    ) || chars_eq_str(s, "swap_main") || chars_eq_str(s, "restart") || chars_eq_str(s, "exec")
}

/// Test one binding line.
pub fn binding_valid(combo: &String, action: &String) -> (r: bool)
    ensures
        r == spec_binding_valid(combo@, action@),
{
    proof {
        reveal_strlit("exec");
    }
    if combo.as_str().unicode_len() == 0 {
        return false;
    }
    if action.as_str().unicode_len() == 0 {
        return false;
    }
    let parts = split_str(combo.as_str(), '+');
    let ghost parts_spec = spec_split(combo@, '+');
    let mut i: usize = 0;
    let pn = parts.len();
    proof {
        assert(parts@.map_values(|p: Vec<char>| p@) =~= parts_spec);
        assert(parts_spec.len() == pn);
    }
    while i + 1 < pn
        invariant
            pn == parts@.len(),
            parts@.map_values(|p: Vec<char>| p@) == parts_spec,
            parts_spec == spec_split(combo@, '+'),
            combo@.len() > 0,
            action@.len() > 0,
            i < pn,
            forall|j: int| 0 <= j < i ==> spec_modifier_valid(#[trigger] parts_spec[j]),
        decreases pn - i,
    {
        proof {
            assert(parts_spec[i as int] == parts@[i as int]@);
        }
        if !modifier_valid(&parts[i]) {
            return false;
        }
        i += 1;
    }
    let action_parts = split_str(action.as_str(), ':');
    let ghost ap_spec = spec_split(action@, ':');
    proof {
        assert(action_parts@.map_values(|p: Vec<char>| p@) =~= ap_spec);
        assert(ap_spec[0] == action_parts@[0]@);
    }
    if !action_name_valid(&action_parts[0]) {
        return false;
    }
    if chars_eq_str(&action_parts[0], "exec") && action_parts.len() < 2 {
        return false;
    }
    true
}

impl HotkeyConfig {
    /// Accept exactly the configurations whose modifier key is recognized
    /// and whose binding lines are all valid.
    pub fn validate(&self) -> (r: Result<(), String>)
        ensures
            r is Ok <==> spec_hotkeys_valid(*self),
    {
        let mod_chars = to_lower_chars(self.mod_key.as_str());
        proof {
            assert(spec_lower(spec_lower(self.mod_key@)) =~= spec_lower(self.mod_key@));
        }
        if !modifier_valid(&mod_chars) {
            return Err("mod_key must name a modifier".to_string());
        }
        let n = self.bindings.len();
        let mut i: usize = 0;
        while i < n
            invariant
                i <= n,
                n == self.bindings@.len(),
                spec_modifier_valid(self.mod_key@),
                forall|j: int|
                    0 <= j < i ==> spec_binding_valid(
                        (#[trigger] self.bindings@[j]).0@,
                        self.bindings@[j].1@,
                    ),
            decreases n - i,
        {
            if !binding_valid(&self.bindings[i].0, &self.bindings[i].1) {
                return Err("invalid key binding".to_string());
            }
            i += 1;
        }
        Ok(())
    }
}

impl IpcConfig {
    /// Accept exactly the configurations naming a socket path.
    pub fn validate(&self) -> (r: Result<(), String>)
        ensures
            r is Ok <==> spec_ipc_valid(*self),
    {
        if self.socket_path.as_str().unicode_len() == 0 {
            return Err("socket_path cannot be empty".to_string());
        }
        Ok(())
    }
}

impl Config {
    /// Accept exactly the configurations all of whose sections validate.
    pub fn validate(&self) -> (r: Result<(), String>)
        ensures
            r is Ok <==> spec_config_valid(*self),
    {
        match self.general.validate() {
            Err(e) => {
                return Err(e);
            },
            Ok(()) => {},
        }
        match self.layout.validate() {
            Err(e) => {
                return Err(e);
            },
            Ok(()) => {},
        }
        match self.focus.validate() {
            Err(e) => {
                return Err(e);
            },
            Ok(()) => {},
        }
        match self.hotkeys.validate() {
            Err(e) => {
                return Err(e);
            },
            Ok(()) => {},
        }
        match self.ipc.validate() {
            Err(e) => {
                return Err(e);
            },
            Ok(()) => {},
        }
        Ok(())
    }
}

} // verus!
