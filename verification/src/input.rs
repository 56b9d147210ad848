//! Key combination naming and the built-in key bindings.
use vstd::prelude::*;

use crate::text::{chars_of, push_str, str_eq, string_push};

verus! {

/// Modifier keys held during a key press.
#[derive(Debug, Clone, Copy, PartialEq, Eq, Structural)]
pub struct Modifiers {
    pub logo: bool,
    pub alt: bool,
    pub ctrl: bool,
    pub shift: bool,
}

/// ASCII upper-case letters become lower-case; other characters stay.
pub open spec fn ascii_lower(c: char) -> char {
    if 'A' <= c <= 'Z' {
        ((c as u32) + 32) as char
    } else {
        c
    }
}

/// The key part of a combo: a single-byte key name is lower-cased so that
/// `Shift+q` does not become `Shift+Q`; longer names stay as they are.
pub open spec fn key_part(name: Seq<char>) -> Seq<char> {
    if name.len() == 1 && (name[0] as u32) < 128 {
        seq![ascii_lower(name[0])]
    } else {
        name
    }
}

/// The modifier part of a combo, in the fixed order Super, Alt, Control,
/// Shift, each followed by `'+'`.
pub open spec fn modifier_part(m: Modifiers) -> Seq<char> {
    (if m.logo { "Super+"@ } else { Seq::empty() }) + (if m.alt { "Alt+"@ } else { Seq::empty() })
        + (if m.ctrl { "Control+"@ } else { Seq::empty() }) + (if m.shift {
        "Shift+"@
    } else {
        Seq::empty()
    })
}

/// Builds the canonical combo string, e.g. `"Super+Return"`,
/// `"Super+Shift+q"`: the held modifiers then the key name, joined by `'+'`.
pub fn build_combo(mods: Modifiers, keysym_name: &str) -> (s: String)
    ensures
        s@ == modifier_part(mods) + key_part(keysym_name@),
{
    let mut s = String::new();
    if mods.logo {
        push_str(&mut s, "Super+");
    }
    if mods.alt {
        push_str(&mut s, "Alt+");
    }
    if mods.ctrl {
        push_str(&mut s, "Control+");
    }
    if mods.shift {
        push_str(&mut s, "Shift+");
    }
    let ghost prefix = s@;
    assert(prefix =~= modifier_part(mods));
    let key = chars_of(keysym_name);
    if key.len() == 1 && (key[0] as u32) < 128 {
        let c = key[0];
        let lower = if 'A' <= c && c <= 'Z' {
            let u: u8 = (c as u8) + 32;
            u as char
        } else {
            c
        };
        string_push(&mut s, lower);
        assert(s@ =~= prefix + key_part(keysym_name@));
    } else {
        push_str(&mut s, keysym_name);
    }
    s
}

/// Built-in actions that keep the window manager usable without a config.
#[derive(Debug, Clone, Copy, PartialEq, Eq, Structural)]
pub enum KeyAction {
    KillActive,
    FocusNext,
    FocusPrev,
    SpawnTerminal,
    SwapMaster,
    PrevWorkspace,
    NextWorkspace,
    Exit,
    /// Switch to the workspace at this 0-based index.
    SwitchWorkspace(usize),
}

/// `Super+` followed by a single digit 1-9.
pub open spec fn digit_combo(combo: Seq<char>) -> Option<usize> {
    if combo.len() == 7 && combo.subrange(0, 6) == "Super+"@ && '1' <= combo[6] <= '9' {
        Some(((combo[6] as u32) - ('1' as u32)) as usize)
    } else {
        None
    }
}

/// The built-in action bound to a combo, if any.
pub open spec fn spec_builtin_binding(combo: Seq<char>) -> Option<KeyAction> {
    if combo == "Super+q"@ {
        Some(KeyAction::KillActive)
    } else if combo == "Super+j"@ || combo == "Super+Tab"@ {
        Some(KeyAction::FocusNext)
    } else if combo == "Super+k"@ {
        Some(KeyAction::FocusPrev)
    } else if combo == "Super+Return"@ {
        Some(KeyAction::SpawnTerminal)
    } else if combo == "Super+m"@ {
        Some(KeyAction::SwapMaster)
    } else if combo == "Super+h"@ || combo == "Super+Left"@ || combo == "Super+comma"@ {
        Some(KeyAction::PrevWorkspace)
    } else if combo == "Super+l"@ || combo == "Super+Right"@ || combo == "Super+period"@ {
        Some(KeyAction::NextWorkspace)
    } else if combo == "Super+Shift+q"@ {
        Some(KeyAction::Exit)
    } else {
        match digit_combo(combo) {
            Some(i) => Some(KeyAction::SwitchWorkspace(i)),
            None => None,
        }
    }
}

fn digit_binding(combo: &str) -> (r: Option<usize>)
    ensures
        r == digit_combo(combo@),
{
    let cs = chars_of(combo);
    let prefix = chars_of("Super+");
    if cs.len() != 7 || prefix.len() != 6 {
        proof {
            if cs.len() == 7 {
                assert(cs@.subrange(0, 6).len() != prefix@.len());
            }
        }
        return None;
    }
    let mut i: usize = 0;
    while i < 6
        invariant
            cs@ == combo@,
            prefix@ == "Super+"@,
            cs@.len() == 7,
            prefix@.len() == 6,
            i <= 6,
            forall|k: int| 0 <= k < i ==> cs@[k] == prefix@[k],
        decreases 6 - i,
    {
        if cs[i] != prefix[i] {
            proof {
                assert(cs@.subrange(0, 6)[i as int] != prefix@[i as int]);
            }
            return None;
        }
        i = i + 1;
    }
    assert(cs@.subrange(0, 6) =~= prefix@);
    let c = cs[6];
    if '1' <= c && c <= '9' {
        Some(((c as u32) - ('1' as u32)) as usize)
    } else {
        None
    }
}

/// The built-in action bound to a combo, if any: Super+q kills the
/// focused window, Super+j/Tab and Super+k move the focus, Super+Return
/// spawns a terminal, Super+m swaps with the master, Super+h/Left/comma and
/// Super+l/Right/period switch workspaces, Super+Shift+q exits, and
/// Super+1..9 jump to a workspace.
pub fn builtin_binding(combo: &str) -> (a: Option<KeyAction>)
    ensures
        a == spec_builtin_binding(combo@),
{
    if str_eq(combo, "Super+q") {
        Some(KeyAction::KillActive)
    } else if str_eq(combo, "Super+j") || str_eq(combo, "Super+Tab") {
        Some(KeyAction::FocusNext)
    } else if str_eq(combo, "Super+k") {
        Some(KeyAction::FocusPrev)
    } else if str_eq(combo, "Super+Return") {
        Some(KeyAction::SpawnTerminal)
    } else if str_eq(combo, "Super+m") {
        Some(KeyAction::SwapMaster)
    } else if str_eq(combo, "Super+h") || str_eq(combo, "Super+Left") || str_eq(
        combo,
        "Super+comma",
    ) {
        Some(KeyAction::PrevWorkspace)
    } else if str_eq(combo, "Super+l") || str_eq(combo, "Super+Right") || str_eq(
        combo,
        "Super+period",
    ) {
        Some(KeyAction::NextWorkspace)
    } else if str_eq(combo, "Super+Shift+q") {
        Some(KeyAction::Exit)
    } else {
        match digit_binding(combo) {
            Some(i) => Some(KeyAction::SwitchWorkspace(i)),
            None => None,
        }
    }
}

/// Law: the workspace keys. Super+h, Super+Left and Super+comma, and no
/// other combo, go to the previous workspace; Super+l, Super+Right and
/// Super+period, and no other combo, go to the next one. So the arrow keys
/// agree with the vim keys and point opposite ways.
pub proof fn workspace_keys(combo: Seq<char>)
    ensures
        spec_builtin_binding(combo) == Some(KeyAction::PrevWorkspace) <==> (combo == "Super+h"@
            || combo == "Super+Left"@ || combo == "Super+comma"@),
        spec_builtin_binding(combo) == Some(KeyAction::NextWorkspace) <==> (combo == "Super+l"@
            || combo == "Super+Right"@ || combo == "Super+period"@),
{
    reveal_strlit("Super+q");
    assert("Super+q"@.len() == 7 && "Super+q"@[6] == 'q');
    reveal_strlit("Super+j");
    assert("Super+j"@.len() == 7 && "Super+j"@[6] == 'j');
    reveal_strlit("Super+Tab");
    assert("Super+Tab"@.len() == 9 && "Super+Tab"@[6] == 'T');
    reveal_strlit("Super+k");
    assert("Super+k"@.len() == 7 && "Super+k"@[6] == 'k');
    reveal_strlit("Super+Return");
    assert("Super+Return"@.len() == 12 && "Super+Return"@[6] == 'R');
    reveal_strlit("Super+m");
    assert("Super+m"@.len() == 7 && "Super+m"@[6] == 'm');
    reveal_strlit("Super+h");
    assert("Super+h"@.len() == 7 && "Super+h"@[6] == 'h');
    reveal_strlit("Super+Left");
    assert("Super+Left"@.len() == 10 && "Super+Left"@[6] == 'L');
    reveal_strlit("Super+comma");
    assert("Super+comma"@.len() == 11 && "Super+comma"@[6] == 'c');
    reveal_strlit("Super+l");
    assert("Super+l"@.len() == 7 && "Super+l"@[6] == 'l');
    reveal_strlit("Super+Right");
    assert("Super+Right"@.len() == 11 && "Super+Right"@[6] == 'R');
    reveal_strlit("Super+period");
    assert("Super+period"@.len() == 12 && "Super+period"@[6] == 'p');
    reveal_strlit("Super+Shift+q");
    assert("Super+Shift+q"@.len() == 13 && "Super+Shift+q"@[6] == 'S');
}

} // verus!
