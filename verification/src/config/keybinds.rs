use vstd::prelude::*;

use crate::config::keys::{key_named, key_x11_name, Key};
use crate::config::Repr;
use crate::error::{Error, ErrorModel};
use crate::text::{chars_of, push_char, spec_to_lowercase};
use crate::wm::actions::{
    action_error_model, action_readable, action_result_is, action_text, lemma_action_error_model,
    parse_action, Action, ActionModel, Direction,
};

verus! {

/// A list of keys bound to an action.
#[derive(Debug, Clone)]
pub struct Keybind {
    pub keys: Vec<Key>,
    pub action: Action,
}

/// A [`Keybind`] with its action taken by its view.
pub struct KeybindModel {
    pub keys: Seq<Key>,
    pub action: ActionModel,
}

impl View for Keybind {
    type V = KeybindModel;

    open spec fn view(&self) -> KeybindModel {
        KeybindModel { keys: self.keys@, action: self.action@ }
    }
}

/// The keys named by a list of key names, or the first name that names no key.
pub open spec fn keys_named(names: Seq<Seq<char>>) -> Result<Seq<Key>, Seq<char>>
    decreases names.len(),
{
    if names.len() == 0 {
        Ok(seq![])
    } else {
        match keys_named(names.drop_last()) {
            Err(n) => Err(n),
            Ok(ks) => match key_named(spec_to_lowercase(names.last())) {
                Some(k) => Ok(ks.push(k)),
                None => Err(names.last()),
            },
        }
    }
}

/// Where the key list reader stands: the keys read so far, the names read inside the
/// current `<...>` block, and whether it is inside such a block.
pub struct KeyReadState {
    pub keys: Seq<Key>,
    pub special: Seq<Seq<char>>,
    pub in_special: bool,
}

/// Why a key list could not be read.
pub enum KeyReadError {
    /// A `<` inside a `<...>` block.
    Nested,
    /// A name that names no key.
    Unknown(Seq<char>),
}

/// One character of a key list such as `<Mod-Shift>q`. Outside angle brackets every
/// character is a key. Inside, the first character starts the first name (whatever it
/// is), `-` starts another name, `>` ends the block and reads all its names, and any other
/// character is added to the current name.
pub open spec fn key_step(st: KeyReadState, c: char) -> Result<KeyReadState, KeyReadError> {
    if c == '<' {
        if st.in_special {
            Err(KeyReadError::Nested)
        } else {
            Ok(KeyReadState { in_special: true, ..st })
        }
    } else if st.in_special {
        if st.special.len() == 0 {
            Ok(KeyReadState { special: seq![seq![c]], ..st })
        } else if c == '-' {
            Ok(KeyReadState { special: st.special.push(seq![]), ..st })
        } else if c == '>' {
            match keys_named(st.special) {
                Ok(ks) => Ok(KeyReadState { keys: st.keys + ks, special: seq![], in_special: false }),
                Err(n) => Err(KeyReadError::Unknown(n)),
            }
        } else {
            Ok(
                KeyReadState {
                    special: st.special.update(st.special.len() - 1, st.special.last().push(c)),
                    ..st
                },
            )
        }
    } else {
        match key_named(spec_to_lowercase(seq![c])) {
            Some(k) => Ok(KeyReadState { keys: st.keys.push(k), ..st }),
            None => Err(KeyReadError::Unknown(seq![c])),
        }
    }
}

/// The reader's state after the characters of `s`, or the first failure.
pub open spec fn key_fold(s: Seq<char>) -> Result<KeyReadState, KeyReadError>
    decreases s.len(),
{
    if s.len() == 0 {
        Ok(KeyReadState { keys: seq![], special: seq![], in_special: false })
    } else {
        match key_fold(s.drop_last()) {
            Err(e) => Err(e),
            Ok(st) => key_step(st, s.last()),
        }
    }
}

/// Does `r` report what reading the key list `s` gives? A block left open at the end is
/// dropped.
pub open spec fn keys_result_is(r: Result<Vec<Key>, Error>, s: Seq<char>) -> bool {
    match key_fold(s) {
        Ok(st) => r matches Ok(ks) && ks@ == st.keys,
        Err(KeyReadError::Nested) => r matches Err(Error::NestedSpecialKey(x)) && x@ == s,
        Err(KeyReadError::Unknown(n)) => r matches Err(Error::UnknownKey(x)) && x@ == n,
    }
}

impl Key {
    /// The keys named by a list of key names (in any case).
    pub fn from_vec(input: &Vec<String>) -> (r: Result<Vec<Key>, Error>)
        ensures
            match keys_named(crate::parsers::views(input@)) {
                Ok(ks) => r matches Ok(v) && v@ == ks,
                Err(n) => r matches Err(Error::UnknownKey(x)) && x@ == n,
            },
    {
        let ghost names = crate::parsers::views(input@);
        let mut ret: Vec<Key> = Vec::new();
        let mut i: usize = 0;
        proof {
            assert(names.subrange(0, 0) =~= Seq::<Seq<char>>::empty());
        }
        while i < input.len()
            invariant
                names == crate::parsers::views(input@),
                i <= input@.len(),
                keys_named(names.subrange(0, i as int)) == Ok::<Seq<Key>, Seq<char>>(ret@),
            decreases input@.len() - i,
        {
            proof {
                assert(names.subrange(0, i + 1).drop_last() =~= names.subrange(0, i as int));
                assert(names[i as int] == input@[i as int]@);
            }
            match Key::from_str(input[i].as_str()) {
                Ok(k) => ret.push(k),
                Err(e) => {
                    proof {
                        lemma_keys_named_stops(names.subrange(0, i + 1), names);
                    }
                    return Err(e);
                },
            }
            i = i + 1;
        }
        proof {
            assert(names.subrange(0, input@.len() as int) =~= names);
        }
        Ok(ret)
    }
}

/// Once a name in the list names no key, longer lists fail on the same name.
proof fn lemma_keys_named_stops(prefix: Seq<Seq<char>>, s: Seq<Seq<char>>)
    requires
        prefix.len() <= s.len(),
        prefix =~= s.subrange(0, prefix.len() as int),
        keys_named(prefix) is Err,
    ensures
        keys_named(s) == keys_named(prefix),
    decreases s.len(),
{
    if s.len() > prefix.len() {
        assert(s.drop_last().subrange(0, prefix.len() as int) =~= prefix);
        lemma_keys_named_stops(prefix, s.drop_last());
    } else {
        assert(prefix =~= s);
    }
}

/// Once reading a key list fails, reading a longer one fails the same way.
proof fn lemma_key_fold_stops(prefix: Seq<char>, s: Seq<char>)
    requires
        prefix.len() <= s.len(),
        prefix =~= s.subrange(0, prefix.len() as int),
        key_fold(prefix) is Err,
    ensures
        key_fold(s) == key_fold(prefix),
    decreases s.len(),
{
    if s.len() > prefix.len() {
        assert(s.drop_last().subrange(0, prefix.len() as int) =~= prefix);
        lemma_key_fold_stops(prefix, s.drop_last());
    } else {
        assert(prefix =~= s);
    }
}

impl Keybind {
    /// A keybind of the given keys and action.
    pub fn new(keys: Vec<Key>, action: Action) -> (r: Self)
        ensures
            r.keys@ == keys@,
            r.action@ == action@,
    {
        Keybind { keys, action }
    }

    /// Reads a key list and an action from their config text.
    pub fn from(str_keys: String, str_action: String) -> (r: Result<Self, Error>)
        requires
            action_readable(str_action@),
        ensures
            keybind_result_is(r, str_keys@, str_action@),
    {
        let keys = match Keybind::parse_keys(str_keys) {
            Ok(k) => k,
            Err(e) => return Err(e),
        };
        let action = match Keybind::parse_action(str_action) {
            Ok(a) => a,
            Err(e) => return Err(e),
        };
        Ok(Keybind { keys, action })
    }

    /// Reads a key list such as `<Mod-Shift>q` or `<Mod><Enter>`: keys in angle brackets
    /// are named, one per `-`-separated name; outside brackets each character is a key.
    pub fn parse_keys(input_keys: String) -> (r: Result<Vec<Key>, Error>)
        ensures
            keys_result_is(r, input_keys@),
    {
        let chars = chars_of(input_keys.as_str());
        let mut ret: Vec<Key> = Vec::new();
        let mut special: Vec<String> = Vec::new();
        let mut is_special = false;
        let mut i: usize = 0;
        proof {
            assert(chars@.subrange(0, 0) =~= Seq::<char>::empty());
            assert(crate::parsers::views(special@) =~= Seq::<Seq<char>>::empty());
        }
        while i < chars.len()
            invariant
                chars@ == input_keys@,
                i <= chars@.len(),
                key_fold(chars@.subrange(0, i as int)) == Ok::<KeyReadState, KeyReadError>(
                    KeyReadState {
                        keys: ret@,
                        special: crate::parsers::views(special@),
                        in_special: is_special,
                    },
                ),
            decreases chars@.len() - i,
        {
            let current_char = chars[i];
            let ghost sv = crate::parsers::views(special@);
            proof {
                assert(chars@.subrange(0, i + 1).drop_last() =~= chars@.subrange(0, i as int));
            }
            if current_char == '<' {
                if is_special {
                    proof {
                        lemma_key_fold_stops(chars@.subrange(0, i + 1), chars@);
                        assert(chars@.subrange(0, chars@.len() as int) =~= chars@);
                    }
                    return Err(Error::NestedSpecialKey(input_keys.clone()));
                } else {
                    is_special = true;
                }
            } else if is_special {
                if special.len() == 0 {
                    let mut first = String::new();
                    push_char(&mut first, current_char);
                    special.push(first);
                    proof {
                        assert(crate::parsers::views(special@) =~= seq![seq![current_char]]);
                    }
                } else if current_char == '-' {
                    special.push(String::new());
                    proof {
                        assert(crate::parsers::views(special@) =~= sv.push(Seq::<char>::empty()));
                    }
                } else if current_char == '>' {
                    match Key::from_vec(&special) {
                        Ok(parsed) => {
                            let mut j: usize = 0;
                            let ghost before = ret@;
                            while j < parsed.len()
                                invariant
                                    j <= parsed@.len(),
                                    ret@ == before + parsed@.subrange(0, j as int),
                                decreases parsed@.len() - j,
                            {
                                ret.push(parsed[j]);
                                j = j + 1;
                                proof {
                                    assert(ret@ =~= before + parsed@.subrange(0, j as int));
                                }
                            }
                            proof {
                                assert(parsed@.subrange(0, parsed@.len() as int) =~= parsed@);
                            }
                            special = Vec::new();
                            is_special = false;
                            proof {
                                assert(crate::parsers::views(special@) =~= Seq::<Seq<char>>::empty());
                            }
                        },
                        Err(e) => {
                            proof {
                                lemma_key_fold_stops(chars@.subrange(0, i + 1), chars@);
                                assert(chars@.subrange(0, chars@.len() as int) =~= chars@);
                            }
                            return Err(e);
                        },
                    }
                } else {
                    let last = special.len() - 1;
                    let mut name = special[last].clone();
                    push_char(&mut name, current_char);
                    special.set(last, name);
                    proof {
                        assert(crate::parsers::views(special@) =~= sv.update(
                            sv.len() - 1,
                            sv.last().push(current_char),
                        ));
                    }
                }
            } else {
                let mut one = String::new();
                push_char(&mut one, current_char);
                proof {
                    assert(one@ =~= seq![current_char]);
                }
                match Key::from_str(one.as_str()) {
                    Ok(k) => ret.push(k),
                    Err(e) => {
                        proof {
                            lemma_key_fold_stops(chars@.subrange(0, i + 1), chars@);
                            assert(chars@.subrange(0, chars@.len() as int) =~= chars@);
                        }
                        return Err(e);
                    },
                }
            }
            i = i + 1;
        }
        proof {
            assert(chars@.subrange(0, chars@.len() as int) =~= chars@);
        }
        Ok(ret)
    }

    /// Reads an action from its config text.
    pub fn parse_action(str_action: String) -> (r: Result<Action, Error>)
        requires
            action_readable(str_action@),
        ensures
            action_result_is(r, str_action@),
    {
        Action::from_str(str_action)
    }
}

/// The keybind that a key list and an action text make, if both can be read.
pub open spec fn keybind_read(keys: Seq<char>, action: Seq<char>) -> Option<KeybindModel> {
    match key_fold(keys) {
        Ok(st) => match parse_action(action) {
            Ok(m) => Some(KeybindModel { keys: st.keys, action: m }),
            Err(_) => None,
        },
        Err(_) => None,
    }
}

/// Does `r` report what reading the key list `keys` and the action text `action` gives?
/// The keys are read first, so their error comes first.
pub open spec fn keybind_result_is(r: Result<Keybind, Error>, keys: Seq<char>, action: Seq<char>) -> bool {
    match key_fold(keys) {
        Ok(st) => match r {
            Ok(kb) => kb.keys@ == st.keys && action_result_is(Ok(kb.action), action),
            Err(e) => action_result_is(Err(e), action),
        },
        Err(_) => match r {
            Ok(_) => false,
            Err(e) => keys_result_is(Err(e), keys),
        },
    }
}

/// The error of a key list and an action text that cannot be read: the key list's
/// error if it fails, else the action's.
pub open spec fn keybind_error(keys: Seq<char>, action: Seq<char>) -> ErrorModel {
    match key_fold(keys) {
        Err(KeyReadError::Nested) => ErrorModel::NestedSpecialKey(keys),
        Err(KeyReadError::Unknown(n)) => ErrorModel::UnknownKey(n),
        Ok(_) => match parse_action(action) {
            Err(k) => action_error_model(k, action),
            Ok(_) => ErrorModel::EmptyAction,
        },
    }
}

/// An error that reports a failed keybind is the keybind's error.
pub proof fn lemma_keybind_error(e: Error, keys: Seq<char>, action: Seq<char>)
    requires
        keybind_result_is(Err(e), keys, action),
    ensures
        e@ == keybind_error(keys, action),
        keybind_read(keys, action) is None,
{
    if key_fold(keys) is Ok {
        let k = parse_action(action)->Err_0;
        lemma_action_error_model(e, k, action);
    }
}

/// Do two keybinds clash: the same action, or the same keys?
pub open spec fn clashes(a: KeybindModel, b: KeybindModel) -> bool {
    a.action == b.action || a.keys == b.keys
}

/// The last keybind of `s` that clashes with `kb`.
pub open spec fn last_clash(s: Seq<KeybindModel>, kb: KeybindModel) -> Option<int>
    decreases s.len(),
{
    if s.len() == 0 {
        None
    } else if clashes(s.last(), kb) {
        Some(s.len() - 1)
    } else {
        last_clash(s.drop_last(), kb)
    }
}

/// The clashing keybind that `last_clash` finds is one of `s`.
proof fn lemma_last_clash_range(s: Seq<KeybindModel>, kb: KeybindModel)
    ensures
        last_clash(s, kb) matches Some(j) ==> 0 <= j < s.len(),
    decreases s.len(),
{
    if s.len() > 0 {
        lemma_last_clash_range(s.drop_last(), kb);
    }
}

/// The keybinds after adding `kb`: the last one that clashes with it goes, and `kb` comes
/// at the end.
pub open spec fn keybinds_add(s: Seq<KeybindModel>, kb: KeybindModel) -> Seq<KeybindModel> {
    match last_clash(s, kb) {
        Some(i) => s.remove(i).push(kb),
        None => s.push(kb),
    }
}

/// The config text of a key: its name, in angle brackets when longer than one character.
pub open spec fn key_text(k: Key) -> Seq<char> {
    if key_x11_name(k).len() > 1 {
        "<"@ + key_x11_name(k) + ">"@
    } else {
        key_x11_name(k)
    }
}

/// The config text of a key list.
pub open spec fn keys_text(keys: Seq<Key>) -> Seq<char>
    decreases keys.len(),
{
    if keys.len() == 0 {
        seq![]
    } else {
        keys_text(keys.drop_last()) + key_text(keys.last())
    }
}

/// The config line of a keybind: `keybind "<keys>" action`. The opening quote is only
/// written before a first key.
pub open spec fn keybind_text(kb: KeybindModel) -> Seq<char> {
    "keybind "@ + (if kb.keys.len() > 0 {
        "\""@
    } else {
        seq![]
    }) + keys_text(kb.keys) + "\""@ + " "@ + action_text(kb.action) + "\n"@
}

/// The config lines of a list of keybinds.
pub open spec fn keybinds_text(s: Seq<KeybindModel>) -> Seq<char>
    decreases s.len(),
{
    if s.len() == 0 {
        seq![]
    } else {
        keybinds_text(s.drop_last()) + keybind_text(s.last())
    }
}

/// The keybinds of a fresh configuration.
pub open spec fn default_keybinds() -> Seq<KeybindModel> {
    seq![
        KeybindModel { keys: seq![Key::Mod, Key::Enter], action: ActionModel::Execute("xterm"@) },
        KeybindModel { keys: seq![Key::Mod, Key::KeyK], action: ActionModel::Kill },
        KeybindModel { keys: seq![Key::Mod, Key::Key1], action: ActionModel::Goto(1) },
        KeybindModel { keys: seq![Key::Mod, Key::Key2], action: ActionModel::Goto(2) },
        KeybindModel { keys: seq![Key::Mod, Key::Key3], action: ActionModel::Goto(3) },
        KeybindModel { keys: seq![Key::Mod, Key::Key4], action: ActionModel::Goto(4) },
        KeybindModel { keys: seq![Key::Mod, Key::Key5], action: ActionModel::Goto(5) },
        KeybindModel { keys: seq![Key::Mod, Key::Key6], action: ActionModel::Goto(6) },
        KeybindModel { keys: seq![Key::Mod, Key::Key7], action: ActionModel::Goto(7) },
        KeybindModel { keys: seq![Key::Mod, Key::Key8], action: ActionModel::Goto(8) },
        KeybindModel { keys: seq![Key::Mod, Key::Key9], action: ActionModel::Goto(9) },
        KeybindModel { keys: seq![Key::Mod, Key::Key0], action: ActionModel::Goto(10) },
        KeybindModel { keys: seq![Key::Mod, Key::LShift, Key::Key1], action: ActionModel::Move(1) },
        KeybindModel { keys: seq![Key::Mod, Key::LShift, Key::Key2], action: ActionModel::Move(2) },
        KeybindModel { keys: seq![Key::Mod, Key::LShift, Key::Key3], action: ActionModel::Move(3) },
        KeybindModel { keys: seq![Key::Mod, Key::LShift, Key::Key4], action: ActionModel::Move(4) },
        KeybindModel { keys: seq![Key::Mod, Key::LShift, Key::Key5], action: ActionModel::Move(5) },
        KeybindModel { keys: seq![Key::Mod, Key::LShift, Key::Key6], action: ActionModel::Move(6) },
        KeybindModel { keys: seq![Key::Mod, Key::LShift, Key::Key7], action: ActionModel::Move(7) },
        KeybindModel { keys: seq![Key::Mod, Key::LShift, Key::Key8], action: ActionModel::Move(8) },
        KeybindModel { keys: seq![Key::Mod, Key::LShift, Key::Key9], action: ActionModel::Move(9) },
        KeybindModel { keys: seq![Key::Mod, Key::LShift, Key::Key0], action: ActionModel::Move(10) },
        KeybindModel { keys: seq![Key::Mod, Key::KeyL], action: ActionModel::Focus(Direction::Next) },
        KeybindModel { keys: seq![Key::Mod, Key::KeyH], action: ActionModel::Focus(Direction::Previous) },
        KeybindModel { keys: seq![Key::Mod, Key::LShift, Key::KeyL], action: ActionModel::Swap(Direction::Next) },
        KeybindModel { keys: seq![Key::Mod, Key::LShift, Key::KeyH], action: ActionModel::Swap(Direction::Previous) },
        KeybindModel { keys: seq![Key::Mod, Key::KeyS], action: ActionModel::CycleLayout },
        KeybindModel { keys: seq![Key::Mod, Key::Space], action: ActionModel::ToggleFloat },
        KeybindModel { keys: seq![Key::Mod, Key::LShift, Key::KeyR], action: ActionModel::ReloadConfig },
    ]
}

/// Are two key lists the same?
fn same_keys(a: &Vec<Key>, b: &Vec<Key>) -> (r: bool)
    ensures
        r == (a@ == b@),
{
    if a.len() != b.len() {
        return false;
    }
    let mut i: usize = 0;
    while i < a.len()
        invariant
            a@.len() == b@.len(),
            i <= a@.len(),
            forall|j: int| 0 <= j < i ==> a@[j] == b@[j],
        decreases a@.len() - i,
    {
        if a[i] != b[i] {
            return false;
        }
        i = i + 1;
    }
    proof {
        assert(a@ =~= b@);
    }
    true
}

/// The X11 names of a list of keys.
fn key_names(keys: &Vec<Key>) -> (r: Vec<&'static str>)
    ensures
        r@.len() == keys@.len(),
        forall|j: int| 0 <= j < keys@.len() ==> #[trigger] r@[j]@ == key_x11_name(keys@[j]),
{
    let mut r: Vec<&'static str> = Vec::new();
    let mut i: usize = 0;
    while i < keys.len()
        invariant
            i <= keys@.len(),
            r@.len() == i,
            forall|j: int| 0 <= j < i ==> #[trigger] r@[j]@ == key_x11_name(keys@[j]),
        decreases keys@.len() - i,
    {
        r.push(keys[i].get_x11_str());
        i = i + 1;
    }
    r
}

/// All the keybinds of a configuration, in the order in which they were added.
#[derive(Debug, Clone)]
pub struct Keybinds(pub Vec<Keybind>);

impl View for Keybinds {
    type V = Seq<KeybindModel>;

    open spec fn view(&self) -> Seq<KeybindModel> {
        self.0@.map_values(|kb: Keybind| kb@)
    }
}

impl Default for Keybinds {
    fn default() -> (r: Self)
        ensures
            r@ == default_keybinds(),
    {
        let mut v: Vec<Keybind> = Vec::new();
        v.push(Keybind::new(vec![Key::Mod, Key::Enter], Action::Execute(String::from_str("xterm"))));
        v.push(Keybind::new(vec![Key::Mod, Key::KeyK], Action::Kill));
        v.push(Keybind::new(vec![Key::Mod, Key::Key1], Action::Goto(1)));
        v.push(Keybind::new(vec![Key::Mod, Key::Key2], Action::Goto(2)));
        v.push(Keybind::new(vec![Key::Mod, Key::Key3], Action::Goto(3)));
        v.push(Keybind::new(vec![Key::Mod, Key::Key4], Action::Goto(4)));
        v.push(Keybind::new(vec![Key::Mod, Key::Key5], Action::Goto(5)));
        v.push(Keybind::new(vec![Key::Mod, Key::Key6], Action::Goto(6)));
        v.push(Keybind::new(vec![Key::Mod, Key::Key7], Action::Goto(7)));
        v.push(Keybind::new(vec![Key::Mod, Key::Key8], Action::Goto(8)));
        v.push(Keybind::new(vec![Key::Mod, Key::Key9], Action::Goto(9)));
        v.push(Keybind::new(vec![Key::Mod, Key::Key0], Action::Goto(10)));
        v.push(Keybind::new(vec![Key::Mod, Key::LShift, Key::Key1], Action::Move(1)));
        v.push(Keybind::new(vec![Key::Mod, Key::LShift, Key::Key2], Action::Move(2)));
        v.push(Keybind::new(vec![Key::Mod, Key::LShift, Key::Key3], Action::Move(3)));
        v.push(Keybind::new(vec![Key::Mod, Key::LShift, Key::Key4], Action::Move(4)));
        v.push(Keybind::new(vec![Key::Mod, Key::LShift, Key::Key5], Action::Move(5)));
        v.push(Keybind::new(vec![Key::Mod, Key::LShift, Key::Key6], Action::Move(6)));
        v.push(Keybind::new(vec![Key::Mod, Key::LShift, Key::Key7], Action::Move(7)));
        v.push(Keybind::new(vec![Key::Mod, Key::LShift, Key::Key8], Action::Move(8)));
        v.push(Keybind::new(vec![Key::Mod, Key::LShift, Key::Key9], Action::Move(9)));
        v.push(Keybind::new(vec![Key::Mod, Key::LShift, Key::Key0], Action::Move(10)));
        v.push(Keybind::new(vec![Key::Mod, Key::KeyL], Action::Focus(Direction::Next)));
        v.push(Keybind::new(vec![Key::Mod, Key::KeyH], Action::Focus(Direction::Previous)));
        v.push(Keybind::new(vec![Key::Mod, Key::LShift, Key::KeyL], Action::Swap(Direction::Next)));
        v.push(Keybind::new(vec![Key::Mod, Key::LShift, Key::KeyH], Action::Swap(Direction::Previous)));
        v.push(Keybind::new(vec![Key::Mod, Key::KeyS], Action::CycleLayout));
        v.push(Keybind::new(vec![Key::Mod, Key::Space], Action::ToggleFloat));
        v.push(Keybind::new(vec![Key::Mod, Key::LShift, Key::KeyR], Action::ReloadConfig));
        let r = Keybinds(v);
        proof {
            assert(r@ =~= default_keybinds());
        }
        r
    }
}

impl Keybinds {
    /// Adds the keybind read from `keys` and `action`. The last keybind with the same
    /// action or the same keys is removed, and the new one comes last. On an error the
    /// keybinds stay as they were.
    pub fn add(&mut self, keys: String, action: String) -> (r: Result<(), Error>)
        requires
            action_readable(action@),
        ensures
            match keybind_read(keys@, action@) {
                Some(kb) => r is Ok && final(self)@ == keybinds_add(old(self)@, kb),
                None => r is Err && final(self)@ == old(self)@,
            },
            r matches Err(e) ==> keybind_result_is(Err(e), keys@, action@),
    {
        let ghost ks = keys@;
        let ghost acts = action@;
        let keybind = match Keybind::from(keys, action) {
            Ok(kb) => kb,
            Err(e) => {
                assert(keybind_read(ks, acts) is None);
                return Err(e);
            },
        };
        let ghost kb = keybind@;
        proof {
            let st = key_fold(ks)->Ok_0;
            assert(kb == KeybindModel { keys: st.keys, action: parse_action(acts)->Ok_0 });
            assert(keybind_read(ks, acts) == Some(kb));
        }
        let ghost s = self@;
        let remove_index = self.last_clash_index(&keybind);
        proof {
            lemma_last_clash_range(s, kb);
        }
        match remove_index {
            Some(to_remove) => {
                self.0.remove(to_remove);
                proof {
                    assert(self@ =~= s.remove(to_remove as int));
                }
                self.0.push(keybind);
                proof {
                    assert(last_clash(s, kb) == Some(to_remove as int));
                    assert(self@ =~= s.remove(to_remove as int).push(kb));
                }
            },
            None => {
                self.0.push(keybind);
                proof {
                    assert(self@ =~= s.push(kb));
                }
            },
        }
        Ok(())
    }

    /// The index of the last keybind that clashes with `keybind`.
    fn last_clash_index(&self, keybind: &Keybind) -> (r: Option<usize>)
        ensures
            match last_clash(self@, keybind@) {
                Some(j) => r matches Some(x) && x == j,
                None => r is None,
            },
            r matches Some(j) ==> j < self@.len(),
    {
        let ghost kb = keybind@;
        let ghost s = self@;
        let mut remove_index: Option<usize> = None;
        let mut i: usize = 0;
        proof {
            assert(s.subrange(0, 0) =~= Seq::<KeybindModel>::empty());
        }
        while i < self.0.len()
            invariant
                s == self@,
                kb == keybind@,
                i <= s.len(),
                s.len() == self.0@.len(),
                match last_clash(s.subrange(0, i as int), kb) {
                    Some(j) => remove_index matches Some(x) && x == j,
                    None => remove_index is None,
                },
                match remove_index {
                    Some(j) => j < i,
                    None => true,
                },
            decreases s.len() - i,
        {
            proof {
                assert(s.subrange(0, i + 1).drop_last() =~= s.subrange(0, i as int));
                assert(s[i as int] == self.0@[i as int]@);
            }
            let in_keybind = &self.0[i];
            if in_keybind.action.same_as(&keybind.action) || same_keys(&in_keybind.keys, &keybind.keys) {
                remove_index = Some(i);
            }
            i = i + 1;
        }
        proof {
            assert(s.subrange(0, s.len() as int) =~= s);
        }
        remove_index
    }

    /// Appends keybinds at the end.
    pub fn _extend(&mut self, from: Vec<Keybind>)
        ensures
            final(self)@ == old(self)@ + from@.map_values(|kb: Keybind| kb@),
    {
        let ghost start = self@;
        let ghost added = from@.map_values(|kb: Keybind| kb@);
        let mut from = from;
        self.0.append(&mut from);
        proof {
            assert(self@ =~= start + added);
        }
    }

    /// The X11 names of the keys of each keybind, with its action.
    pub fn get_names_and_actions(&self) -> (r: Vec<(Vec<&'static str>, Action)>)
        ensures
            r@.len() == self@.len(),
            forall|i: int| 0 <= i < r@.len() ==> {
                &&& (#[trigger] r@[i]).0@.len() == self@[i].keys.len()
                &&& forall|j: int| 0 <= j < r@[i].0@.len() ==> #[trigger] r@[i].0@[j]@ == key_x11_name(self@[i].keys[j])
                &&& r@[i].1@ == self@[i].action
            },
    {
        let mut ret: Vec<(Vec<&'static str>, Action)> = Vec::new();
        let mut i: usize = 0;
        while i < self.0.len()
            invariant
                i <= self.0@.len(),
                ret@.len() == i,
                forall|k: int| 0 <= k < i ==> {
                    &&& (#[trigger] ret@[k]).0@.len() == self@[k].keys.len()
                    &&& forall|j: int| 0 <= j < ret@[k].0@.len() ==> #[trigger] ret@[k].0@[j]@ == key_x11_name(self@[k].keys[j])
                    &&& ret@[k].1@ == self@[k].action
                },
            decreases self.0@.len() - i,
        {
            let each = &self.0[i];
            let names = key_names(&each.keys);
            ret.push((names, each.action.duplicate()));
            i = i + 1;
        }
        ret
    }

    /// The X11 names of the keys of each keybind.
    pub fn get_names(&self) -> (r: Vec<Vec<&'static str>>)
        ensures
            r@.len() == self@.len(),
            forall|i: int| 0 <= i < r@.len() ==> {
                &&& (#[trigger] r@[i])@.len() == self@[i].keys.len()
                &&& forall|j: int| 0 <= j < r@[i]@.len() ==> #[trigger] r@[i]@[j]@ == key_x11_name(self@[i].keys[j])
            },
    {
        let mut ret: Vec<Vec<&'static str>> = Vec::new();
        let mut i: usize = 0;
        while i < self.0.len()
            invariant
                i <= self.0@.len(),
                ret@.len() == i,
                forall|k: int| 0 <= k < i ==> {
                    &&& (#[trigger] ret@[k])@.len() == self@[k].keys.len()
                    &&& forall|j: int| 0 <= j < ret@[k]@.len() ==> #[trigger] ret@[k]@[j]@ == key_x11_name(self@[k].keys[j])
                },
            decreases self.0@.len() - i,
        {
            ret.push(key_names(&self.0[i].keys));
            i = i + 1;
        }
        ret
    }
}

/// Appends the config text of a key list.
fn push_keys_text(out: &mut String, keys: &Vec<Key>)
    ensures
        final(out)@ == old(out)@ + keys_text(keys@),
{
    let ghost start = out@;
    let mut i: usize = 0;
    proof {
        assert(keys@.subrange(0, 0) =~= Seq::<Key>::empty());
        assert(out@ =~= start + keys_text(keys@.subrange(0, 0)));
    }
    while i < keys.len()
        invariant
            i <= keys@.len(),
            out@ == start + keys_text(keys@.subrange(0, i as int)),
        decreases keys@.len() - i,
    {
        let key = keys[i];
        proof {
            assert(keys@.subrange(0, i + 1).drop_last() =~= keys@.subrange(0, i as int));
        }
        if key.is_special() {
            out.append("<");
            out.append(key.get_x11_str());
            out.append(">");
        } else {
            out.append(key.get_x11_str());
        }
        proof {
            assert(out@ =~= start + keys_text(keys@.subrange(0, i + 1)));
        }
        i = i + 1;
    }
    proof {
        assert(keys@.subrange(0, keys@.len() as int) =~= keys@);
    }
}

impl Repr for Keybinds {
    /// The config lines of all the keybinds.
    fn repr(&self) -> (r: Result<String, Error>)
        ensures
            r matches Ok(s) && s@ == keybinds_text(self@),
    {
        let mut return_string = String::new();
        let mut i: usize = 0;
        proof {
            assert(self@.subrange(0, 0) =~= Seq::<KeybindModel>::empty());
        }
        while i < self.0.len()
            invariant
                i <= self.0@.len(),
                self@.len() == self.0@.len(),
                return_string@ == keybinds_text(self@.subrange(0, i as int)),
            decreases self.0@.len() - i,
        {
            let keybind = &self.0[i];
            let ghost before = return_string@;
            proof {
                assert(self@.subrange(0, i + 1).drop_last() =~= self@.subrange(0, i as int));
                assert(self@[i as int] == keybind@);
            }
            return_string.append("keybind ");
            if keybind.keys.len() > 0 {
                return_string.append("\"");
            }
            push_keys_text(&mut return_string, &keybind.keys);
            return_string.append("\"");
            return_string.append(" ");
            match keybind.action.repr() {
                Ok(a) => return_string.append(a.as_str()),
                Err(e) => return Err(e),
            }
            return_string.append("\n");
            proof {
                assert(return_string@ =~= before + keybind_text(keybind@));
            }
            i = i + 1;
        }
        proof {
            assert(self@.subrange(0, self@.len() as int) =~= self@);
        }
        Ok(return_string)
    }
}

} // verus!
