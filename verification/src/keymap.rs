//! The command resolver: a table of `(key, modifier-mask) -> Command`
//! bindings with exact-match lookup.
//!
//! A binding fires only when the held modifier set equals its mask
//! precisely; holding an extra modifier suppresses the match.  At most one
//! command is bound per exact pair, and a binding loaded later overwrites an
//! earlier one for the same pair.

use crate::command::{
    command_from_name, parse_modifier_token, spec_command_from_name, spec_mods_of, str_eq, Command,
    CommandInfo, CommandMod,
};
use vstd::prelude::*;

verus! {

// Key codes for keys that are not printable characters.  Printable keys use
// their character's code, which is always below `0x0100_0000`.
pub const KEY_LCTRL: u32 = 0x0100_0001;

pub const KEY_RCTRL: u32 = 0x0100_0002;

pub const KEY_LSHIFT: u32 = 0x0100_0003;

pub const KEY_RSHIFT: u32 = 0x0100_0004;

pub const KEY_LALT: u32 = 0x0100_0005;

pub const KEY_RALT: u32 = 0x0100_0006;

pub const KEY_LGUI: u32 = 0x0100_0007;

pub const KEY_RGUI: u32 = 0x0100_0008;

pub const KEY_BACKSPACE: u32 = 0x0100_0010;

pub const KEY_TAB: u32 = 0x0100_0011;

pub const KEY_RETURN: u32 = 0x0100_0012;

pub const KEY_ESCAPE: u32 = 0x0100_0013;

pub const KEY_SPACE: u32 = 0x0100_0014;

pub const KEY_DELETE: u32 = 0x0100_0015;

pub const KEY_HOME: u32 = 0x0100_0016;

pub const KEY_END: u32 = 0x0100_0017;

pub const KEY_PAGEUP: u32 = 0x0100_0018;

pub const KEY_PAGEDOWN: u32 = 0x0100_0019;

pub const KEY_LEFT: u32 = 0x0100_001A;

pub const KEY_RIGHT: u32 = 0x0100_001B;

pub const KEY_UP: u32 = 0x0100_001C;

pub const KEY_DOWN: u32 = 0x0100_001D;

pub const KEY_INSERT: u32 = 0x0100_001E;

pub const KEY_F1: u32 = 0x0100_0020;

pub const KEY_F2: u32 = 0x0100_0021;

pub const KEY_F3: u32 = 0x0100_0022;

pub const KEY_F4: u32 = 0x0100_0023;

pub const KEY_F5: u32 = 0x0100_0024;

pub const KEY_F6: u32 = 0x0100_0025;

pub const KEY_F7: u32 = 0x0100_0026;

pub const KEY_F8: u32 = 0x0100_0027;

pub const KEY_F9: u32 = 0x0100_0028;

pub const KEY_F10: u32 = 0x0100_0029;

pub const KEY_F11: u32 = 0x0100_002A;

pub const KEY_F12: u32 = 0x0100_002B;

/// One configured binding: a key, the exact modifier mask, and the command
/// they trigger.
#[derive(Clone, Copy, PartialEq, Eq, Structural, Debug)]
pub struct Binding {
    pub key: u32,
    pub mods: CommandMod,
    pub command: Command,
}

/// The resolver's whole table.
#[derive(Clone, Debug)]
pub struct Keymap {
    pub bindings: Vec<Binding>,
}

pub open spec fn binding_matches(b: Binding, key: u32, mods: CommandMod) -> bool {
    b.key == key && b.mods == mods
}

impl Keymap {
    /// At most one binding per exact `(key, mask)` pair.
    pub open spec fn wf(&self) -> bool {
        forall|i: int, j: int|
            0 <= i < j < self.bindings@.len() ==> !(binding_matches(
                #[trigger] self.bindings@[i],
                self.bindings@[j].key,
                #[trigger] self.bindings@[j].mods,
            ))
    }

    /// The command bound to the exact pair, if any.
    pub open spec fn spec_resolve(&self, key: u32, mods: CommandMod) -> Option<Command> {
        if exists|i: int|
            0 <= i < self.bindings@.len() && binding_matches(#[trigger] self.bindings@[i], key, mods) {
            Some(
                self.bindings@[choose|i: int|
                    0 <= i < self.bindings@.len() && binding_matches(
                        #[trigger] self.bindings@[i],
                        key,
                        mods,
                    )].command,
            )
        } else {
            None
        }
    }

    /// An empty table.
    pub fn new() -> (r: Keymap)
        ensures
            r.wf(),
            r.bindings@.len() == 0,
    {
        Keymap { bindings: Vec::new() }
    }

    /// Registers a binding; an existing binding for the same exact pair is
    /// overwritten.
    pub fn insert(&mut self, key: u32, mods: CommandMod, command: Command)
        requires
            old(self).wf(),
        ensures
            final(self).wf(),
            forall|k: u32, m: CommandMod|
                final(self).spec_resolve(k, m) == if k == key && m == mods {
                    Some(command)
                } else {
                    old(self).spec_resolve(k, m)
                },
    {
        let n = self.bindings.len();
        let mut i: usize = 0;
        while i < n
            invariant
                old(self).wf(),
                *self == *old(self),
                n == self.bindings@.len(),
                i <= n,
                forall|l: int| 0 <= l < i ==> !binding_matches(#[trigger] self.bindings@[l], key, mods),
            decreases n - i,
        {
            if self.bindings[i].key == key && self.bindings[i].mods.shift == mods.shift
                && self.bindings[i].mods.ctrl == mods.ctrl && self.bindings[i].mods.alt == mods.alt
                && self.bindings[i].mods.meta == mods.meta {
                proof {
                    assert(self.bindings@[i as int].mods == mods);
                }
                self.bindings[i] = Binding { key, mods, command };
                proof {
                    assert forall|k: u32, m: CommandMod|
                        self.spec_resolve(k, m) == if k == key && m == mods {
                            Some(command)
                        } else {
                            old(self).spec_resolve(k, m)
                        } by {
                        if k == key && m == mods {
                            assert(binding_matches(self.bindings@[i as int], k, m));
                        } else {
                            if old(self).spec_resolve(k, m) is Some {
                                let l = choose|l: int|
                                    0 <= l < old(self).bindings@.len() && binding_matches(
                                        #[trigger] old(self).bindings@[l],
                                        k,
                                        m,
                                    );
                                assert(l != i);
                                assert(binding_matches(self.bindings@[l], k, m));
                            }
                            if self.spec_resolve(k, m) is Some {
                                let l = choose|l: int|
                                    0 <= l < self.bindings@.len() && binding_matches(
                                        #[trigger] self.bindings@[l],
                                        k,
                                        m,
                                    );
                                assert(l != i);
                                assert(binding_matches(old(self).bindings@[l], k, m));
                            }
                        }
                    }
                }
                return ;
            }
            i = i + 1;
        }
        self.bindings.push(Binding { key, mods, command });
        proof {
            let len = self.bindings@.len();
            assert forall|k: u32, m: CommandMod|
                self.spec_resolve(k, m) == if k == key && m == mods {
                    Some(command)
                } else {
                    old(self).spec_resolve(k, m)
                } by {
                if k == key && m == mods {
                    assert(binding_matches(self.bindings@[len - 1], k, m));
                } else {
                    if old(self).spec_resolve(k, m) is Some {
                        let l = choose|l: int|
                            0 <= l < old(self).bindings@.len() && binding_matches(
                                #[trigger] old(self).bindings@[l],
                                k,
                                m,
                            );
                        assert(binding_matches(self.bindings@[l], k, m));
                    }
                    if self.spec_resolve(k, m) is Some {
                        let l = choose|l: int|
                            0 <= l < self.bindings@.len() && binding_matches(
                                #[trigger] self.bindings@[l],
                                k,
                                m,
                            );
                        assert(l != len - 1);
                        assert(binding_matches(old(self).bindings@[l], k, m));
                    }
                }
            }
        }
    }

    /// Exact-match lookup: the binding fires only when the held modifier set
    /// equals its mask precisely.
    pub fn resolve(&self, key: u32, mods: CommandMod) -> (r: Option<Command>)
        requires
            self.wf(),
        ensures
            r == self.spec_resolve(key, mods),
    {
        let n = self.bindings.len();
        let mut i: usize = 0;
        while i < n
            invariant
                self.wf(),
                n == self.bindings@.len(),
                i <= n,
                forall|l: int| 0 <= l < i ==> !binding_matches(#[trigger] self.bindings@[l], key, mods),
            decreases n - i,
        {
            let b = self.bindings[i];
            if b.key == key && b.mods.shift == mods.shift && b.mods.ctrl == mods.ctrl && b.mods.alt
                == mods.alt && b.mods.meta == mods.meta {
                proof {
                    assert(binding_matches(self.bindings@[i as int], key, mods));
                    let l = choose|l: int|
                        0 <= l < self.bindings@.len() && binding_matches(
                            #[trigger] self.bindings@[l],
                            key,
                            mods,
                        );
                    assert(self.bindings@[l] == self.bindings@[i as int]);
                }
                return Some(b.command);
            }
            i = i + 1;
        }
        None
    }
}

/// Exact-match suppression: when every binding for `key` carries a modifier
/// mask other than the held one, the resolver returns nothing for that key —
/// in particular, a binding registered under `{ctrl}` never fires while
/// `{ctrl, shift}` is held.
pub proof fn lemma_exact_match(km: Keymap, key: u32, held: CommandMod)
    requires
        forall|i: int|
            0 <= i < km.bindings@.len() && (#[trigger] km.bindings@[i]).key == key
                ==> km.bindings@[i].mods != held,
    ensures
        km.spec_resolve(key, held) is None,
{
    if km.spec_resolve(key, held) is Some {
        let l = choose|l: int|
            0 <= l < km.bindings@.len() && binding_matches(#[trigger] km.bindings@[l], key, held);
        assert(km.bindings@[l].key == key);
    }
}

/// The modifier mask derived from the set of currently held keys.
pub open spec fn spec_mods_from_keys(ks: Seq<u32>) -> CommandMod {
    CommandMod {
        shift: ks.contains(KEY_LSHIFT) || ks.contains(KEY_RSHIFT),
        ctrl: ks.contains(KEY_LCTRL) || ks.contains(KEY_RCTRL),
        alt: ks.contains(KEY_LALT) || ks.contains(KEY_RALT),
        meta: ks.contains(KEY_LGUI) || ks.contains(KEY_RGUI),
    }
}

fn keys_contain(ks: &Vec<u32>, key: u32) -> (r: bool)
    ensures
        r == ks@.contains(key),
{
    let n = ks.len();
    let mut i: usize = 0;
    while i < n
        invariant
            n == ks@.len(),
            i <= n,
            forall|l: int| 0 <= l < i ==> ks@[l] != key,
        decreases n - i,
    {
        if ks[i] == key {
            return true;
        }
        i = i + 1;
    }
    false
}

impl CommandMod {
    /// Live modifier state, computed from the set of currently held keys
    /// rather than from per-event modifier reports.
    pub fn from_keys_down(keys_down: &Vec<u32>) -> (r: CommandMod)
        ensures
            r == spec_mods_from_keys(keys_down@),
    {
        CommandMod {
            ctrl: keys_contain(keys_down, KEY_LCTRL) || keys_contain(keys_down, KEY_RCTRL),
            shift: keys_contain(keys_down, KEY_LSHIFT) || keys_contain(keys_down, KEY_RSHIFT),
            alt: keys_contain(keys_down, KEY_LALT) || keys_contain(keys_down, KEY_RALT),
            meta: keys_contain(keys_down, KEY_LGUI) || keys_contain(keys_down, KEY_RGUI),
        }
    }
}

/// Resolves a key press against the table, under the modifier mask derived
/// from the held-key set.  The modifier field of the returned info is empty,
/// as the binding's own mask was already consumed by the match.
pub fn keycode_to_command(keymap: &Keymap, keycode: u32, keys_down: &Vec<u32>) -> (r: Option<
    CommandInfo,
>)
    requires
        keymap.wf(),
    ensures
        r == match keymap.spec_resolve(keycode, spec_mods_from_keys(keys_down@)) {
            Some(c) => Some(
                CommandInfo {
                    command: c,
                    command_mod: (CommandMod { shift: false, ctrl: false, alt: false, meta: false }),
                },
            ),
            None => None::<CommandInfo>,
        },
{
    let mods = CommandMod::from_keys_down(keys_down);
    match keymap.resolve(keycode, mods) {
        Some(c) => Some(CommandInfo { command: c, command_mod: CommandMod::none() }),
        None => None,
    }
}

/// The key code denoted by a configuration key name: a single-character name
/// maps to its character's code, and a closed list of names covers the
/// common non-printable keys.
pub open spec fn spec_key_code(s: Seq<char>) -> Option<u32> {
    if s.len() == 1 {
        Some(s[0] as u32)
    } else if s == "Backspace"@ {
        Some(KEY_BACKSPACE)
    } else if s == "Tab"@ {
        Some(KEY_TAB)
    } else if s == "Return"@ {
        Some(KEY_RETURN)
    } else if s == "Escape"@ {
        Some(KEY_ESCAPE)
    } else if s == "Space"@ {
        Some(KEY_SPACE)
    } else if s == "Delete"@ {
        Some(KEY_DELETE)
    } else if s == "Home"@ {
        Some(KEY_HOME)
    } else if s == "End"@ {
        Some(KEY_END)
    } else if s == "PageUp"@ {
        Some(KEY_PAGEUP)
    } else if s == "PageDown"@ {
        Some(KEY_PAGEDOWN)
    } else if s == "Left"@ {
        Some(KEY_LEFT)
    } else if s == "Right"@ {
        Some(KEY_RIGHT)
    } else if s == "Up"@ {
        Some(KEY_UP)
    } else if s == "Down"@ {
        Some(KEY_DOWN)
    } else if s == "Insert"@ {
        Some(KEY_INSERT)
    } else if s == "F1"@ {
        Some(KEY_F1)
    } else if s == "F2"@ {
        Some(KEY_F2)
    } else if s == "F3"@ {
        Some(KEY_F3)
    } else if s == "F4"@ {
        Some(KEY_F4)
    } else if s == "F5"@ {
        Some(KEY_F5)
    } else if s == "F6"@ {
        Some(KEY_F6)
    } else if s == "F7"@ {
        Some(KEY_F7)
    } else if s == "F8"@ {
        Some(KEY_F8)
    } else if s == "F9"@ {
        Some(KEY_F9)
    } else if s == "F10"@ {
        Some(KEY_F10)
    } else if s == "F11"@ {
        Some(KEY_F11)
    } else if s == "F12"@ {
        Some(KEY_F12)
    } else {
        None
    }
}

/// Looks a key name up, as written in a binding source.
pub fn key_name_to_code(s: &str) -> (r: Option<u32>)
    ensures
        r == spec_key_code(s@),
{
    proof {
        lemma_key_names_are_not_single();
    }
    if s.unicode_len() == 1 {
        Some(s.get_char(0) as u32)
    } else if str_eq(s, "Backspace") {
        Some(KEY_BACKSPACE)
    } else if str_eq(s, "Tab") {
        Some(KEY_TAB)
    } else if str_eq(s, "Return") {
        Some(KEY_RETURN)
    } else if str_eq(s, "Escape") {
        Some(KEY_ESCAPE)
    } else if str_eq(s, "Space") {
        Some(KEY_SPACE)
    } else if str_eq(s, "Delete") {
        Some(KEY_DELETE)
    } else if str_eq(s, "Home") {
        Some(KEY_HOME)
    } else if str_eq(s, "End") {
        Some(KEY_END)
    } else if str_eq(s, "PageUp") {
        Some(KEY_PAGEUP)
    } else if str_eq(s, "PageDown") {
        Some(KEY_PAGEDOWN)
    } else if str_eq(s, "Left") {
        Some(KEY_LEFT)
    } else if str_eq(s, "Right") {
        Some(KEY_RIGHT)
    } else if str_eq(s, "Up") {
        Some(KEY_UP)
    } else if str_eq(s, "Down") {
        Some(KEY_DOWN)
    } else if str_eq(s, "Insert") {
        Some(KEY_INSERT)
    } else if str_eq(s, "F1") {
        Some(KEY_F1)
    } else if str_eq(s, "F2") {
        Some(KEY_F2)
    } else if str_eq(s, "F3") {
        Some(KEY_F3)
    } else if str_eq(s, "F4") {
        Some(KEY_F4)
    } else if str_eq(s, "F5") {
        Some(KEY_F5)
    } else if str_eq(s, "F6") {
        Some(KEY_F6)
    } else if str_eq(s, "F7") {
        Some(KEY_F7)
    } else if str_eq(s, "F8") {
        Some(KEY_F8)
    } else if str_eq(s, "F9") {
        Some(KEY_F9)
    } else if str_eq(s, "F10") {
        Some(KEY_F10)
    } else if str_eq(s, "F11") {
        Some(KEY_F11)
    } else if str_eq(s, "F12") {
        Some(KEY_F12)
    } else {
        None
    }
}

/// One binding as read from a configuration source: the raw key name,
/// command name, and optional modifier token, each possibly missing.
#[derive(Clone, Debug)]
pub struct BindingRecord {
    pub key: Option<String>,
    pub command: Option<String>,
    pub modifier: Option<String>,
}

/// Mathematical model of one configuration record.
#[verifier::ext_equal]
pub ghost struct BindingRecordView {
    pub key: Option<Seq<char>>,
    pub command: Option<Seq<char>>,
    pub modifier: Option<Seq<char>>,
}

impl View for BindingRecord {
    type V = BindingRecordView;

    open spec fn view(&self) -> BindingRecordView {
        BindingRecordView {
            key: match self.key {
                Option::Some(k) => Some(k@),
                Option::None => None,
            },
            command: match self.command {
                Option::Some(c) => Some(c@),
                Option::None => None,
            },
            modifier: match self.modifier {
                Option::Some(m) => Some(m@),
                Option::None => None,
            },
        }
    }
}

/// The models of a whole record vector, in order.
pub open spec fn spec_records_view(rs: Seq<BindingRecord>) -> Seq<BindingRecordView> {
    Seq::new(rs.len(), |i: int| rs[i]@)
}

/// Why a binding source was rejected.  Configuration errors are fatal at
/// startup: there is no partial-table recovery.
#[derive(Clone, Copy, PartialEq, Eq, Structural, Debug)]
pub enum ConfigError {
    /// The document is not well-formed markup.
    MalformedDocument,
    /// The record at this position has no key name.
    MissingKeyAttribute(usize),
    /// The record at this position has no command name.
    MissingCommandAttribute(usize),
    /// The record at this position names a key that is not in the key table.
    UnknownKeyName(usize),
    /// The record at this position names no known command.
    UnknownCommandName(usize),
}

pub open spec fn mask_none() -> CommandMod {
    CommandMod { shift: false, ctrl: false, alt: false, meta: false }
}

pub open spec fn mask_ctrl() -> CommandMod {
    CommandMod { shift: false, ctrl: true, alt: false, meta: false }
}

pub open spec fn mask_ctrl_shift() -> CommandMod {
    CommandMod { shift: true, ctrl: true, alt: false, meta: false }
}

/// The binding denoted by one record, or the error that rejects it;
/// `i` is the record's position, reported inside the error.
pub open spec fn spec_record_check(r: BindingRecordView, i: usize) -> Result<Binding, ConfigError> {
    match r.key {
        Option::None => Err(ConfigError::MissingKeyAttribute(i)),
        Option::Some(k) => match r.command {
            Option::None => Err(ConfigError::MissingCommandAttribute(i)),
            Option::Some(c) => match spec_command_from_name(c) {
                Option::None => Err(ConfigError::UnknownCommandName(i)),
                Option::Some(cmd) => match spec_key_code(k) {
                    Option::None => Err(ConfigError::UnknownKeyName(i)),
                    Option::Some(code) => Ok(
                        Binding {
                            key: code,
                            mods: (match r.modifier {
                                Option::Some(m) => spec_mods_of(m),
                                Option::None => mask_none(),
                            }),
                            command: cmd,
                        },
                    ),
                },
            },
        },
    }
}

/// The binding of a record that passes its check (unspecified otherwise).
pub open spec fn spec_record_binding(r: BindingRecordView) -> Binding {
    match spec_record_check(r, 0) {
        Ok(b) => b,
        Err(_) => Binding { key: 0, mods: mask_none(), command: Command::Quit },
    }
}

/// The first error among the records at positions `i` and later.
pub open spec fn spec_first_error_from(records: Seq<BindingRecordView>, i: int) -> Option<ConfigError>
    decreases records.len() - i,
    when 0 <= i
{
    if i >= records.len() {
        None
    } else {
        match spec_record_check(records[i], i as usize) {
            Err(e) => Some(e),
            Ok(_) => spec_first_error_from(records, i + 1),
        }
    }
}

/// The command the built table resolves for `(k, m)`: the latest record
/// whose binding matches the exact pair wins.
pub open spec fn spec_records_resolve(records: Seq<BindingRecordView>, k: u32, m: CommandMod) -> Option<
    Command,
>
    decreases records.len(),
{
    if records.len() == 0 {
        None
    } else {
        let b = spec_record_binding(records.last());
        if binding_matches(b, k, m) {
            Some(b.command)
        } else {
            spec_records_resolve(records.drop_last(), k, m)
        }
    }
}

/// Builds the resolver table from configuration records.  The first invalid
/// record is fatal and reported by position; on success the table resolves
/// exactly what the records say, later records overwriting earlier ones for
/// the same exact pair.
pub fn keymap_from_records(records: &Vec<BindingRecord>) -> (r: Result<Keymap, ConfigError>)
    ensures
        (r is Ok) <==> spec_first_error_from(spec_records_view(records@), 0) is None,
        r matches Err(e) ==> spec_first_error_from(spec_records_view(records@), 0) == Some(e),
        r matches Ok(km) ==> km.wf() && forall|k: u32, m: CommandMod|
            km.spec_resolve(k, m) == spec_records_resolve(spec_records_view(records@), k, m),
{
    let ghost rv = spec_records_view(records@);
    let mut km = Keymap::new();
    let n = records.len();
    let mut i: usize = 0;
    while i < n
        invariant
            km.wf(),
            rv == spec_records_view(records@),
            rv.len() == records@.len(),
            n == records@.len(),
            i <= n,
            spec_first_error_from(rv, 0) == spec_first_error_from(rv, i as int),
            forall|k: u32, m: CommandMod|
                km.spec_resolve(k, m) == spec_records_resolve(rv.subrange(0, i as int), k, m),
        decreases n - i,
    {
        let rec = &records[i];
        proof {
            assert(rv[i as int] == records@[i as int]@);
        }
        let ks = match &rec.key {
            Option::Some(ks) => ks,
            Option::None => {
                return Err(ConfigError::MissingKeyAttribute(i));
            },
        };
        let cs = match &rec.command {
            Option::Some(cs) => cs,
            Option::None => {
                return Err(ConfigError::MissingCommandAttribute(i));
            },
        };
        let cmd = match command_from_name(cs.as_str()) {
            Option::Some(cmd) => cmd,
            Option::None => {
                return Err(ConfigError::UnknownCommandName(i));
            },
        };
        let code = match key_name_to_code(ks.as_str()) {
            Option::Some(code) => code,
            Option::None => {
                return Err(ConfigError::UnknownKeyName(i));
            },
        };
        let mods = match &rec.modifier {
            Option::Some(ms) => parse_modifier_token(ms.as_str()),
            Option::None => CommandMod::none(),
        };
        proof {
            assert(rv[i as int] == records@[i as int]@);
            assert(spec_record_check(rv[i as int], i) == Ok::<Binding, ConfigError>(
                Binding { key: code, mods, command: cmd },
            ));
        }
        km.insert(code, mods, cmd);
        proof {
            let prefix = rv.subrange(0, i + 1 as int);
            assert(prefix.drop_last() =~= rv.subrange(0, i as int));
            assert(prefix.last() == rv[i as int]);
            assert(spec_record_binding(rv[i as int]) == (Binding {
                key: code,
                mods,
                command: cmd,
            }));
        }
        i = i + 1;
    }
    proof {
        assert(rv.subrange(0, n as int) =~= rv);
    }
    Ok(km)
}

proof fn lemma_key_names_are_not_single()
    ensures
        "Backspace"@.len() != 1,
        "Insert"@.len() != 1,
        "F1"@.len() != 1,
        "F2"@.len() != 1,
        "F3"@.len() != 1,
        "F4"@.len() != 1,
        "F5"@.len() != 1,
        "F6"@.len() != 1,
        "F7"@.len() != 1,
        "F8"@.len() != 1,
        "F9"@.len() != 1,
        "F10"@.len() != 1,
        "F11"@.len() != 1,
        "F12"@.len() != 1,
        "Tab"@.len() != 1,
        "Return"@.len() != 1,
        "Escape"@.len() != 1,
        "Space"@.len() != 1,
        "Delete"@.len() != 1,
        "Home"@.len() != 1,
        "End"@.len() != 1,
        "PageUp"@.len() != 1,
        "PageDown"@.len() != 1,
        "Left"@.len() != 1,
        "Right"@.len() != 1,
        "Up"@.len() != 1,
        "Down"@.len() != 1,
{
    reveal_strlit("Backspace");
    reveal_strlit("Insert");
    reveal_strlit("F1");
    reveal_strlit("F2");
    reveal_strlit("F3");
    reveal_strlit("F4");
    reveal_strlit("F5");
    reveal_strlit("F6");
    reveal_strlit("F7");
    reveal_strlit("F8");
    reveal_strlit("F9");
    reveal_strlit("F10");
    reveal_strlit("F11");
    reveal_strlit("F12");
    reveal_strlit("Tab");
    reveal_strlit("Return");
    reveal_strlit("Escape");
    reveal_strlit("Space");
    reveal_strlit("Delete");
    reveal_strlit("Home");
    reveal_strlit("End");
    reveal_strlit("PageUp");
    reveal_strlit("PageDown");
    reveal_strlit("Left");
    reveal_strlit("Right");
    reveal_strlit("Up");
    reveal_strlit("Down");
}

/// What the compiled-in fallback table resolves for an exact pair.  It
/// covers every command, so each user intent stays reachable when no
/// binding file exists.
pub open spec fn spec_default_resolve(k: u32, m: CommandMod) -> Option<Command> {
    if k == 'D' as u32 && m == mask_ctrl_shift() {
        Some(Command::SkiaDump)
    } else if k == 'R' as u32 && m == mask_none() {
        Some(Command::ReverseContour)
    } else if k == 'Q' as u32 && m == mask_ctrl() {
        Some(Command::Quit)
    } else if k == '`' as u32 && m == mask_none() {
        Some(Command::ToggleConsole)
    } else if k == KEY_TAB && m == mask_none() {
        Some(Command::TogglePreviewMode)
    } else if k == 'L' as u32 && m == mask_none() {
        Some(Command::TogglePointLabels)
    } else if k == 'E' as u32 && m == mask_ctrl() {
        Some(Command::IOExport)
    } else if k == 'F' as u32 && m == mask_ctrl_shift() {
        Some(Command::IOFlatten)
    } else if k == 'E' as u32 && m == mask_ctrl_shift() {
        Some(Command::IOSaveFlatten)
    } else if k == 'S' as u32 && m == mask_ctrl_shift() {
        Some(Command::IOSaveAs)
    } else if k == 'S' as u32 && m == mask_ctrl() {
        Some(Command::IOSave)
    } else if k == 'O' as u32 && m == mask_ctrl() {
        Some(Command::IOOpen)
    } else if k == 'Y' as u32 && m == mask_ctrl() {
        Some(Command::HistoryRedo)
    } else if k == 'Z' as u32 && m == mask_ctrl() {
        Some(Command::HistoryUndo)
    } else if k == 'X' as u32 && m == mask_ctrl() {
        Some(Command::CutSelection)
    } else if k == 'V' as u32 && m == mask_ctrl() {
        Some(Command::PasteSelection)
    } else if k == 'C' as u32 && m == mask_ctrl() {
        Some(Command::CopySelection)
    } else if k == 'A' as u32 && m == mask_ctrl() {
        Some(Command::SelectAll)
    } else if k == KEY_DELETE && m == mask_none() {
        Some(Command::DeleteSelection)
    } else if k == 'S' as u32 && m == mask_none() {
        Some(Command::ToolShapes)
    } else if k == 'A' as u32 && m == mask_none() {
        Some(Command::ToolAnchors)
    } else if k == 'M' as u32 && m == mask_none() {
        Some(Command::ToolMeasure)
    } else if k == 'W' as u32 && m == mask_none() {
        Some(Command::ToolVWS)
    } else if k == 'Z' as u32 && m == mask_none() {
        Some(Command::ToolZoom)
    } else if k == 'V' as u32 && m == mask_none() {
        Some(Command::ToolSelect)
    } else if k == 'P' as u32 && m == mask_none() {
        Some(Command::ToolPen)
    } else if k == 'H' as u32 && m == mask_none() {
        Some(Command::ToolPan)
    } else if k == KEY_RIGHT && m == mask_none() {
        Some(Command::NudgeRight)
    } else if k == KEY_LEFT && m == mask_none() {
        Some(Command::NudgeLeft)
    } else if k == KEY_DOWN && m == mask_none() {
        Some(Command::NudgeDown)
    } else if k == KEY_UP && m == mask_none() {
        Some(Command::NudgeUp)
    } else if k == '-' as u32 && m == mask_ctrl() {
        Some(Command::ZoomOut)
    } else if k == '=' as u32 && m == mask_ctrl() {
        Some(Command::ZoomIn)
    } else if k == '0' as u32 && m == mask_ctrl() {
        Some(Command::ResetScale)
    } else {
        None
    }
}

/// The compiled-in default table, used when no binding file is found.
pub fn default_keymap() -> (r: Keymap)
    ensures
        r.wf(),
        forall|k: u32, m: CommandMod| r.spec_resolve(k, m) == spec_default_resolve(k, m),
{
    let no_mask = CommandMod { shift: false, ctrl: false, alt: false, meta: false };
    let ctrl = CommandMod { shift: false, ctrl: true, alt: false, meta: false };
    let ctrl_shift = CommandMod { shift: true, ctrl: true, alt: false, meta: false };
    let mut km = Keymap::new();
    km.insert('0' as u32, ctrl, Command::ResetScale);
    km.insert('=' as u32, ctrl, Command::ZoomIn);
    km.insert('-' as u32, ctrl, Command::ZoomOut);
    km.insert(KEY_UP, no_mask, Command::NudgeUp);
    km.insert(KEY_DOWN, no_mask, Command::NudgeDown);
    km.insert(KEY_LEFT, no_mask, Command::NudgeLeft);
    km.insert(KEY_RIGHT, no_mask, Command::NudgeRight);
    km.insert('H' as u32, no_mask, Command::ToolPan);
    km.insert('P' as u32, no_mask, Command::ToolPen);
    km.insert('V' as u32, no_mask, Command::ToolSelect);
    km.insert('Z' as u32, no_mask, Command::ToolZoom);
    km.insert('W' as u32, no_mask, Command::ToolVWS);
    km.insert('M' as u32, no_mask, Command::ToolMeasure);
    km.insert('A' as u32, no_mask, Command::ToolAnchors);
    km.insert('S' as u32, no_mask, Command::ToolShapes);
    km.insert(KEY_DELETE, no_mask, Command::DeleteSelection);
    km.insert('A' as u32, ctrl, Command::SelectAll);
    km.insert('C' as u32, ctrl, Command::CopySelection);
    km.insert('V' as u32, ctrl, Command::PasteSelection);
    km.insert('X' as u32, ctrl, Command::CutSelection);
    km.insert('Z' as u32, ctrl, Command::HistoryUndo);
    km.insert('Y' as u32, ctrl, Command::HistoryRedo);
    km.insert('O' as u32, ctrl, Command::IOOpen);
    km.insert('S' as u32, ctrl, Command::IOSave);
    km.insert('S' as u32, ctrl_shift, Command::IOSaveAs);
    km.insert('E' as u32, ctrl_shift, Command::IOSaveFlatten);
    km.insert('F' as u32, ctrl_shift, Command::IOFlatten);
    km.insert('E' as u32, ctrl, Command::IOExport);
    km.insert('L' as u32, no_mask, Command::TogglePointLabels);
    km.insert(KEY_TAB, no_mask, Command::TogglePreviewMode);
    km.insert('`' as u32, no_mask, Command::ToggleConsole);
    km.insert('Q' as u32, ctrl, Command::Quit);
    km.insert('R' as u32, no_mask, Command::ReverseContour);
    km.insert('D' as u32, ctrl_shift, Command::SkiaDump);
    km
}

} // verus!
