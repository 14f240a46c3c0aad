//! Keyboard input: key names, key codes, modifiers and shortcuts.
use vstd::prelude::*;
use crate::error::Error;
use crate::text::{
    ascii_lower, ascii_upper, byte_len, chars_of, decimal, decimal_string, eq_str, is_ascii, push_char, slice_chars,
    string_of, to_lowercase,
    to_uppercase, unicode_lower, unicode_upper, utf8_len,
};

verus! {

/// Keyboard modifier keys.
#[derive(Debug, Clone, Copy, PartialEq, Eq, Structural)]
pub enum KeyModifier {
    Alt,
    Control,
    /// Command on macOS.
    Meta,
    Shift,
}

/// The canonical name of a key: common aliases (ignoring case) map to
/// their DOM key names, a single-byte key is uppercased, and anything else
/// is returned lowercased.
pub open spec fn normalized_key(key: Seq<char>) -> Seq<char> {
    key_from_lowered(unicode_lower(key), unicode_upper(unicode_lower(key)))
}

/// The canonical name of a key from its lowercased name `k`, with `upper`
/// the uppercased `k` (used for a single-byte key).
pub open spec fn key_from_lowered(k: Seq<char>, upper: Seq<char>) -> Seq<char> {
    if k == "enter"@ || k == "return"@ {
        "Enter"@
    } else if k == "tab"@ {
        "Tab"@
    } else if k == "escape"@ || k == "esc"@ {
        "Escape"@
    } else if k == "backspace"@ || k == "back"@ {
        "Backspace"@
    } else if k == "delete"@ || k == "del"@ {
        "Delete"@
    } else if k == "arrowup"@ || k == "up"@ {
        "ArrowUp"@
    } else if k == "arrowdown"@ || k == "down"@ {
        "ArrowDown"@
    } else if k == "arrowleft"@ || k == "left"@ {
        "ArrowLeft"@
    } else if k == "arrowright"@ || k == "right"@ {
        "ArrowRight"@
    } else if k == "home"@ {
        "Home"@
    } else if k == "end"@ {
        "End"@
    } else if k == "pageup"@ {
        "PageUp"@
    } else if k == "pagedown"@ {
        "PageDown"@
    } else if k == "space"@ {
        " "@
    } else if k == "f1"@ {
        "F1"@
    } else if k == "f2"@ {
        "F2"@
    } else if k == "f3"@ {
        "F3"@
    } else if k == "f4"@ {
        "F4"@
    } else if k == "f5"@ {
        "F5"@
    } else if k == "f6"@ {
        "F6"@
    } else if k == "f7"@ {
        "F7"@
    } else if k == "f8"@ {
        "F8"@
    } else if k == "f9"@ {
        "F9"@
    } else if k == "f10"@ {
        "F10"@
    } else if k == "f11"@ {
        "F11"@
    } else if k == "f12"@ {
        "F12"@
    } else if utf8_len(k) as usize == 1 {
        upper
    } else {
        k
    }
}

/// Normalizes a key name (see [`normalized_key`]); for an ASCII name the
/// lowercasing and uppercasing are the ASCII ones.
pub fn normalize_key(key: &str) -> (r: String)
    ensures
        r@ == normalized_key(key@),
        is_ascii(key@) ==> r@ == key_from_lowered(ascii_lower(key@), ascii_upper(ascii_lower(key@))),
{
    let k = to_lowercase(key);
    proof {
        if is_ascii(key@) {
            crate::text::lemma_ascii_lower_is_ascii(key@);
        }
    }
    if eq_str(&k, "enter") || eq_str(&k, "return") {
        String::from_str("Enter")
    } else if eq_str(&k, "tab") {
        String::from_str("Tab")
    } else if eq_str(&k, "escape") || eq_str(&k, "esc") {
        String::from_str("Escape")
    } else if eq_str(&k, "backspace") || eq_str(&k, "back") {
        String::from_str("Backspace")
    } else if eq_str(&k, "delete") || eq_str(&k, "del") {
        String::from_str("Delete")
    } else if eq_str(&k, "arrowup") || eq_str(&k, "up") {
        String::from_str("ArrowUp")
    } else if eq_str(&k, "arrowdown") || eq_str(&k, "down") {
        String::from_str("ArrowDown")
    } else if eq_str(&k, "arrowleft") || eq_str(&k, "left") {
        String::from_str("ArrowLeft")
    } else if eq_str(&k, "arrowright") || eq_str(&k, "right") {
        String::from_str("ArrowRight")
    } else if eq_str(&k, "home") {
        String::from_str("Home")
    } else if eq_str(&k, "end") {
        String::from_str("End")
    } else if eq_str(&k, "pageup") {
        String::from_str("PageUp")
    } else if eq_str(&k, "pagedown") {
        String::from_str("PageDown")
    } else if eq_str(&k, "space") {
        String::from_str(" ")
    } else if eq_str(&k, "f1") {
        String::from_str("F1")
    } else if eq_str(&k, "f2") {
        String::from_str("F2")
    } else if eq_str(&k, "f3") {
        String::from_str("F3")
    } else if eq_str(&k, "f4") {
        String::from_str("F4")
    } else if eq_str(&k, "f5") {
        String::from_str("F5")
    } else if eq_str(&k, "f6") {
        String::from_str("F6")
    } else if eq_str(&k, "f7") {
        String::from_str("F7")
    } else if eq_str(&k, "f8") {
        String::from_str("F8")
    } else if eq_str(&k, "f9") {
        String::from_str("F9")
    } else if eq_str(&k, "f10") {
        String::from_str("F10")
    } else if eq_str(&k, "f11") {
        String::from_str("F11")
    } else if eq_str(&k, "f12") {
        String::from_str("F12")
    } else if byte_len(&k) == 1 {
        to_uppercase(k.as_str())
    } else {
        k
    }
}

/// The names of keys whose code is their name.
pub open spec fn named_key(k: Seq<char>) -> bool {
    ||| k == "Enter"@
    ||| k == "Tab"@
    ||| k == "Escape"@
    ||| k == "Backspace"@
    ||| k == "Delete"@
    ||| k == "ArrowUp"@
    ||| k == "ArrowDown"@
    ||| k == "ArrowLeft"@
    ||| k == "ArrowRight"@
    ||| k == "Home"@
    ||| k == "End"@
    ||| k == "PageUp"@
    ||| k == "PageDown"@
}

/// The DOM code of a (normalized) key: named keys keep their name, space
/// is `Space`, a name starting with `F` of at most three bytes is kept, a
/// single-byte key `k` becomes `Key<K>` (uppercased), anything else is kept.
pub open spec fn key_code(k: Seq<char>) -> Seq<char> {
    key_code_with(k, unicode_upper(k))
}

/// The DOM code of a key `k`, with `upper` the uppercased `k` (used for a
/// single-byte key).
pub open spec fn key_code_with(k: Seq<char>, upper: Seq<char>) -> Seq<char> {
    if named_key(k) {
        k
    } else if k == " "@ {
        "Space"@
    } else if k.len() > 0 && k[0] == 'F' && utf8_len(k) as usize <= 3 {
        k
    } else if utf8_len(k) as usize == 1 {
        "Key"@ + upper
    } else {
        k
    }
}

/// The DOM code of a key (see [`key_code`]).
pub fn key_to_code(key: &str) -> (r: String)
    ensures
        r@ == key_code(key@),
        is_ascii(key@) ==> r@ == key_code_with(key@, ascii_upper(key@)),
{
    let k = String::from_str(key);
    if eq_str(&k, "Enter") || eq_str(&k, "Tab") || eq_str(&k, "Escape") || eq_str(&k, "Backspace")
        || eq_str(&k, "Delete") || eq_str(&k, "ArrowUp") || eq_str(&k, "ArrowDown") || eq_str(
        &k,
        "ArrowLeft",
    ) || eq_str(&k, "ArrowRight") || eq_str(&k, "Home") || eq_str(&k, "End") || eq_str(
        &k,
        "PageUp",
    ) || eq_str(&k, "PageDown") {
        return k;
    }
    if eq_str(&k, " ") {
        return String::from_str("Space");
    }
    let n = byte_len(&k);
    if key.unicode_len() > 0 && key.get_char(0) == 'F' && n <= 3 {
        return k;
    }
    if n == 1 {
        let mut code = String::from_str("Key");
        let u = to_uppercase(key);
        code.append(u.as_str());
        return code;
    }
    k
}

/// The modifier bit mask of a key event: Alt 1, Control 2, Meta 4, Shift 8.
pub open spec fn modifier_mask(mods: Seq<KeyModifier>) -> u8 {
    ((if mods.contains(KeyModifier::Alt) { 1u8 } else { 0u8 }) + (if mods.contains(
        KeyModifier::Control,
    ) {
        2u8
    } else {
        0u8
    }) + (if mods.contains(KeyModifier::Meta) {
        4u8
    } else {
        0u8
    }) + (if mods.contains(KeyModifier::Shift) {
        8u8
    } else {
        0u8
    })) as u8
}

/// The modifier bit mask of a key event.
pub fn modifier_flags(modifiers: &Vec<KeyModifier>) -> (r: u8)
    ensures
        r == modifier_mask(modifiers@),
{
    let mut alt = false;
    let mut control = false;
    let mut meta = false;
    let mut shift = false;
    let mut i: usize = 0;
    while i < modifiers.len()
        invariant
            i <= modifiers.len(),
            alt == modifiers@.take(i as int).contains(KeyModifier::Alt),
            control == modifiers@.take(i as int).contains(KeyModifier::Control),
            meta == modifiers@.take(i as int).contains(KeyModifier::Meta),
            shift == modifiers@.take(i as int).contains(KeyModifier::Shift),
        decreases modifiers.len() - i,
    {
        let m = modifiers[i];
        proof {
            let t = modifiers@.take(i as int);
            let t2 = modifiers@.take(i + 1);
            assert(t2 =~= t.push(m));
            assert forall|x: KeyModifier| t2.contains(x) == (t.contains(x) || x == m) by {
                if t2.contains(x) {
                    let j = choose|j: int| 0 <= j < t2.len() && t2[j] == x;
                    if j < t.len() {
                        assert(t[j] == x);
                    }
                }
                if t.contains(x) {
                    let j = choose|j: int| 0 <= j < t.len() && t[j] == x;
                    assert(t2[j] == x);
                }
                if x == m {
                    assert(t2[t.len() as int] == m);
                }
            }
        }
        match m {
            KeyModifier::Alt => alt = true,
            KeyModifier::Control => control = true,
            KeyModifier::Meta => meta = true,
            KeyModifier::Shift => shift = true,
        }
        i = i + 1;
    }
    proof {
        assert(modifiers@.take(modifiers@.len() as int) =~= modifiers@);
    }
    let a: u8 = if alt { 1 } else { 0 };
    let c: u8 = if control { 2 } else { 0 };
    let m: u8 = if meta { 4 } else { 0 };
    let s: u8 = if shift { 8 } else { 0 };
    a + c + m + s
}

/// The debug name of a modifier.
pub open spec fn modifier_name(m: KeyModifier) -> Seq<char> {
    match m {
        KeyModifier::Alt => "Alt"@,
        KeyModifier::Control => "Control"@,
        KeyModifier::Meta => "Meta"@,
        KeyModifier::Shift => "Shift"@,
    }
}

/// Modifier names joined by `, ` (the inside of a debug list).
pub open spec fn modifier_names(mods: Seq<KeyModifier>) -> Seq<char>
    decreases mods.len(),
{
    if mods.len() == 0 {
        Seq::empty()
    } else if mods.len() == 1 {
        modifier_name(mods[0])
    } else {
        modifier_names(mods.drop_last()) + ", "@ + modifier_name(mods.last())
    }
}

/// A list of modifiers as debug output prints it: `[Control, Shift]`.
pub open spec fn modifiers_debug(mods: Seq<KeyModifier>) -> Seq<char> {
    "["@ + modifier_names(mods) + "]"@
}

/// Renders a list of modifiers as `[Control, Shift]`.
pub fn format_modifiers(mods: &Vec<KeyModifier>) -> (r: String)
    ensures
        r@ == modifiers_debug(mods@),
{
    let mut inner = String::new();
    let mut i: usize = 0;
    while i < mods.len()
        invariant
            i <= mods.len(),
            inner@ == modifier_names(mods@.take(i as int)),
        decreases mods.len() - i,
    {
        if i > 0 {
            inner.append(", ");
        }
        let name = match mods[i] {
            KeyModifier::Alt => "Alt",
            KeyModifier::Control => "Control",
            KeyModifier::Meta => "Meta",
            KeyModifier::Shift => "Shift",
        };
        inner.append(name);
        proof {
            let t = mods@.take(i + 1);
            assert(t.drop_last() =~= mods@.take(i as int));
            assert(t.last() == mods@[i as int]);
            if i == 0 {
                assert(mods@.take(0) =~= Seq::<KeyModifier>::empty());
            }
        }
        i = i + 1;
    }
    proof {
        assert(mods@.take(mods@.len() as int) =~= mods@);
    }
    let mut r = String::from_str("[");
    r.append(inner.as_str());
    r.append("]");
    r
}

/// The key events of a key press: the normalized key, its code, the text
/// it types (the key itself when it is one byte long), the modifier mask,
/// and the result message.
pub struct KeyPress {
    pub key: String,
    pub code: String,
    pub text: Option<String>,
    pub modifiers: u8,
    pub message: String,
}

/// Plans a key press with modifiers.
pub fn key_press(key: &str, modifiers: &Vec<KeyModifier>) -> (r: KeyPress)
    ensures
        r.key@ == normalized_key(key@),
        r.code@ == key_code(normalized_key(key@)),
        r.text == (if utf8_len(normalized_key(key@)) as usize == 1 {
            Some(r.key)
        } else {
            None
        }),
        r.modifiers == modifier_mask(modifiers@),
        r.message@ == "Pressed "@ + normalized_key(key@) + " with modifiers "@ + modifiers_debug(
            modifiers@,
        ),
{
    let normalized = normalize_key(key);
    let code = key_to_code(normalized.as_str());
    let text = if byte_len(&normalized) == 1 { Some(normalized.clone()) } else { None };
    let flags = modifier_flags(modifiers);
    let mut message = String::from_str("Pressed ");
    message.append(normalized.as_str());
    message.append(" with modifiers ");
    let mods = format_modifiers(modifiers);
    message.append(mods.as_str());
    KeyPress { key: normalized, code, text, modifiers: flags, message }
}

/// The key and modifiers of a named shortcut (`main` is Meta on macOS and
/// Control elsewhere), or `None` for an unknown name.
pub open spec fn shortcut_spec(name: Seq<char>, main: KeyModifier) -> Option<(Seq<char>, Seq<KeyModifier>)> {
    if name == "copy"@ {
        Some(("c"@, seq![main]))
    } else if name == "paste"@ {
        Some(("v"@, seq![main]))
    } else if name == "cut"@ {
        Some(("x"@, seq![main]))
    } else if name == "save"@ {
        Some(("s"@, seq![main]))
    } else if name == "selectall"@ || name == "select_all"@ {
        Some(("a"@, seq![main]))
    } else if name == "undo"@ {
        Some(("z"@, seq![main]))
    } else if name == "redo"@ {
        Some(("z"@, seq![main, KeyModifier::Shift]))
    } else if name == "find"@ {
        Some(("f"@, seq![main]))
    } else if name == "refresh"@ {
        Some(("F5"@, Seq::empty()))
    } else if name == "devtools"@ {
        Some(("i"@, seq![main, KeyModifier::Shift]))
    } else if name == "print"@ {
        Some(("p"@, seq![main]))
    } else if name == "newtab"@ || name == "new_tab"@ {
        Some(("t"@, seq![main]))
    } else if name == "closetab"@ || name == "close_tab"@ {
        Some(("w"@, seq![main]))
    } else {
        None
    }
}

fn one(key: &str, m: KeyModifier) -> (r: (String, Vec<KeyModifier>))
    ensures
        r.0@ == key@,
        r.1@ == seq![m],
{
    let mut v: Vec<KeyModifier> = Vec::new();
    v.push(m);
    proof {
        assert(v@ =~= seq![m]);
    }
    (String::from_str(key), v)
}

fn two(key: &str, m: KeyModifier, n: KeyModifier) -> (r: (String, Vec<KeyModifier>))
    ensures
        r.0@ == key@,
        r.1@ == seq![m, n],
{
    let mut v: Vec<KeyModifier> = Vec::new();
    v.push(m);
    v.push(n);
    proof {
        assert(v@ =~= seq![m, n]);
    }
    (String::from_str(key), v)
}

/// `i` is the first `+` of `s`.
pub open spec fn is_first_plus(s: Seq<char>, i: int) -> bool {
    0 <= i < s.len() && s[i] == '+' && forall|k: int| 0 <= k < i ==> s[k] != '+'
}

/// The key and modifiers of a combination such as `ctrl+shift+i`: every
/// part before the last `+` names a modifier, and the part after it is a
/// key that is not empty. `None` where a part names no modifier or the key
/// is empty.
pub open spec fn combination_spec(s: Seq<char>) -> Option<(Seq<char>, Seq<KeyModifier>)>
    decreases s.len(),
{
    if exists|i: int| is_first_plus(s, i) {
        let i = choose|i: int| is_first_plus(s, i);
        match modifier_named(s.take(i)) {
            Some(m) => match combination_spec(s.skip(i + 1)) {
                Some(rest) => Some((rest.0, seq![m] + rest.1)),
                None => None,
            },
            None => None,
        }
    } else if s.len() > 0 {
        Some((s, Seq::empty()))
    } else {
        None
    }
}

/// Where a shortcut has no name, it may be a combination with at least one
/// `+`.
pub open spec fn shortcut_or_combination(s: Seq<char>, main: KeyModifier) -> Option<(Seq<char>, Seq<KeyModifier>)> {
    match shortcut_spec(s, main) {
        Some(r) => Some(r),
        None => if s.contains('+') {
            combination_spec(s)
        } else {
            None
        },
    }
}

fn combination_from(s: &Vec<char>, start: usize) -> (r: Option<(String, Vec<KeyModifier>)>)
    requires
        start <= s.len(),
    ensures
        match combination_spec(s@.skip(start as int)) {
            Some(p) => r matches Some(q) && q.0@ == p.0 && q.1@ == p.1,
            None => r is None,
        },
    decreases s.len() - start,
{
    let ghost t = s@.skip(start as int);
    let mut i: usize = start;
    while i < s.len() && s[i] != '+'
        invariant
            start <= i <= s.len(),
            t == s@.skip(start as int),
            forall|k: int| start <= k < i ==> s@[k] != '+',
        decreases s.len() - i,
    {
        i = i + 1;
    }
    if i == s.len() {
        proof {
            assert forall|j: int| !is_first_plus(t, j) by {
                if 0 <= j < t.len() {
                    assert(t[j] == s@[start + j]);
                }
            }
        }
        if start < s.len() {
            let key = slice_chars(s, start, s.len());
            proof {
                assert(key@ =~= t);
            }
            let v: Vec<KeyModifier> = Vec::new();
            proof {
                assert(v@ =~= Seq::<KeyModifier>::empty());
            }
            return Some((string_of(&key), v));
        }
        return None;
    }
    let ghost j = (i - start) as int;
    proof {
        assert(is_first_plus(t, j));
        let c = choose|c: int| is_first_plus(t, c);
        assert(c == j) by {
            if c < j {
                assert(t[c] == s@[start + c]);
            }
            if j < c {
                assert(t[j] == '+');
            }
        }
        assert(t.take(j) =~= s@.subrange(start as int, i as int));
        assert(t.skip(j + 1) =~= s@.skip(i + 1));
    }
    let head = slice_chars(s, start, i);
    let name = string_of(&head);
    match parse_modifier(name.as_str()) {
        Some(m) => match combination_from(s, i + 1) {
            Some(rest) => {
                let (key, mods) = rest;
                let mut v: Vec<KeyModifier> = Vec::new();
                v.push(m);
                let mut k: usize = 0;
                while k < mods.len()
                    invariant
                        k <= mods.len(),
                        v@ == seq![m] + mods@.take(k as int),
                    decreases mods.len() - k,
                {
                    v.push(mods[k]);
                    proof {
                        assert(mods@.take(k + 1) =~= mods@.take(k as int).push(mods@[k as int]));
                        assert(seq![m] + mods@.take(k + 1) =~= (seq![m] + mods@.take(k as int)).push(
                            mods@[k as int],
                        ));
                    }
                    k = k + 1;
                }
                proof {
                    assert(mods@.take(mods@.len() as int) =~= mods@);
                }
                Some((key, v))
            },
            None => None,
        },
        None => None,
    }
}

/// What resolving the lowercased shortcut `lowered` gives.
pub open spec fn shortcut_result(lowered: Seq<char>, mac: bool, r: Result<(String, Vec<KeyModifier>), Error>) -> bool {
    let main = if mac {
        KeyModifier::Meta
    } else {
        KeyModifier::Control
    };
    match shortcut_or_combination(lowered, main) {
        Some(s) => r matches Ok(k) && k.0@ == s.0 && k.1@ == s.1,
        None => r matches Err(Error::InvalidParameter(m)) && m@ == "Unknown shortcut: "@ + lowered,
    }
}

/// Resolves a shortcut (ignoring case) to its key and modifiers: a named
/// shortcut, or else a combination of modifiers and a key joined by `+`
/// (`Ctrl+Shift+I`); `mac` selects Meta instead of Control as the main
/// modifier of named shortcuts.
pub fn shortcut_keys(shortcut: &str, mac: bool) -> (r: Result<(String, Vec<KeyModifier>), Error>)
    ensures
        shortcut_result(unicode_lower(shortcut@), mac, r),
        is_ascii(shortcut@) ==> shortcut_result(ascii_lower(shortcut@), mac, r),
{
    let main = if mac { KeyModifier::Meta } else { KeyModifier::Control };
    let s = to_lowercase(shortcut);
    if eq_str(&s, "copy") {
        Ok(one("c", main))
    } else if eq_str(&s, "paste") {
        Ok(one("v", main))
    } else if eq_str(&s, "cut") {
        Ok(one("x", main))
    } else if eq_str(&s, "save") {
        Ok(one("s", main))
    } else if eq_str(&s, "selectall") || eq_str(&s, "select_all") {
        Ok(one("a", main))
    } else if eq_str(&s, "undo") {
        Ok(one("z", main))
    } else if eq_str(&s, "redo") {
        Ok(two("z", main, KeyModifier::Shift))
    } else if eq_str(&s, "find") {
        Ok(one("f", main))
    } else if eq_str(&s, "refresh") {
        let v: Vec<KeyModifier> = Vec::new();
        proof {
            assert(v@ =~= Seq::<KeyModifier>::empty());
        }
        Ok((String::from_str("F5"), v))
    } else if eq_str(&s, "devtools") {
        Ok(two("i", main, KeyModifier::Shift))
    } else if eq_str(&s, "print") {
        Ok(one("p", main))
    } else if eq_str(&s, "newtab") || eq_str(&s, "new_tab") {
        Ok(one("t", main))
    } else if eq_str(&s, "closetab") || eq_str(&s, "close_tab") {
        Ok(one("w", main))
    } else {
        let chars = chars_of(s.as_str());
        let mut i: usize = 0;
        while i < chars.len() && chars[i] != '+'
            invariant
                i <= chars.len(),
                forall|k: int| 0 <= k < i ==> chars@[k] != '+',
            decreases chars.len() - i,
        {
            i = i + 1;
        }
        if i < chars.len() {
            proof {
                assert(chars@.skip(0) =~= chars@);
            }
            if let Some(found) = combination_from(&chars, 0) {
                return Ok(found);
            }
        }
        let mut m = String::from_str("Unknown shortcut: ");
        m.append(s.as_str());
        Err(Error::InvalidParameter(m))
    }
}

/// A modifier named (ignoring case) `alt`, `control`/`ctrl`,
/// `meta`/`cmd`/`command` or `shift`.
pub open spec fn modifier_named(name: Seq<char>) -> Option<KeyModifier> {
    let n = unicode_lower(name);
    if n == "alt"@ {
        Some(KeyModifier::Alt)
    } else if n == "control"@ || n == "ctrl"@ {
        Some(KeyModifier::Control)
    } else if n == "meta"@ || n == "cmd"@ || n == "command"@ {
        Some(KeyModifier::Meta)
    } else if n == "shift"@ {
        Some(KeyModifier::Shift)
    } else {
        None
    }
}

/// The modifier with this name, if any.
pub fn parse_modifier(name: &str) -> (r: Option<KeyModifier>)
    ensures
        r == modifier_named(name@),
{
    let n = to_lowercase(name);
    if eq_str(&n, "alt") {
        Some(KeyModifier::Alt)
    } else if eq_str(&n, "control") || eq_str(&n, "ctrl") {
        Some(KeyModifier::Control)
    } else if eq_str(&n, "meta") || eq_str(&n, "cmd") || eq_str(&n, "command") {
        Some(KeyModifier::Meta)
    } else if eq_str(&n, "shift") {
        Some(KeyModifier::Shift)
    } else {
        None
    }
}

/// The known modifiers among `names`, in order; unknown names are skipped.
pub open spec fn modifiers_named(names: Seq<Seq<char>>) -> Seq<KeyModifier>
    decreases names.len(),
{
    if names.len() == 0 {
        Seq::empty()
    } else {
        let rest = modifiers_named(names.drop_last());
        match modifier_named(names.last()) {
            Some(m) => rest.push(m),
            None => rest,
        }
    }
}

/// Parses a list of modifier names, skipping unknown ones.
pub fn parse_modifiers(names: &Vec<String>) -> (r: Vec<KeyModifier>)
    ensures
        r@ == modifiers_named(Seq::new(names@.len(), |i: int| names@[i]@)),
{
    let ghost all = Seq::new(names@.len(), |i: int| names@[i]@);
    let mut out: Vec<KeyModifier> = Vec::new();
    let mut i: usize = 0;
    proof {
        assert(all.take(0) =~= Seq::<Seq<char>>::empty());
    }
    while i < names.len()
        invariant
            i <= names.len(),
            all == Seq::new(names@.len(), |i: int| names@[i]@),
            out@ == modifiers_named(all.take(i as int)),
        decreases names.len() - i,
    {
        proof {
            assert(all.take(i + 1).drop_last() =~= all.take(i as int));
            assert(all.take(i + 1).last() == names@[i as int]@);
        }
        match parse_modifier(names[i].as_str()) {
            Some(m) => out.push(m),
            None => {},
        }
        i = i + 1;
    }
    proof {
        assert(all.take(all.len() as int) =~= all);
    }
    out
}

/// The viewport of an emulated device: width, height, device scale factor
/// in thousandths, and whether it is a mobile device.
pub struct DeviceMetrics {
    pub width: u32,
    pub height: u32,
    pub scale_milli: u32,
    pub mobile: bool,
}

/// The metrics of a device named (ignoring case) after a known phone or tablet.
pub open spec fn device_spec(name: Seq<char>) -> Option<(u32, u32, u32, bool)> {
    let n = unicode_lower(name);
    if n == "iphone"@ || n == "iphone 14"@ {
        Some((390, 844, 3000, true))
    } else if n == "iphone se"@ {
        Some((375, 667, 2000, true))
    } else if n == "ipad"@ || n == "ipad pro"@ {
        Some((1024, 1366, 2000, true))
    } else if n == "pixel"@ || n == "pixel 7"@ {
        Some((412, 915, 2625, true))
    } else if n == "galaxy"@ || n == "galaxy s21"@ {
        Some((360, 800, 3000, true))
    } else {
        None
    }
}

/// The viewport metrics of a known device, or an error naming the device.
pub fn device_metrics(device_name: &str) -> (r: Result<DeviceMetrics, Error>)
    ensures
        match device_spec(device_name@) {
            Some(d) => r matches Ok(m) && m.width == d.0 && m.height == d.1 && m.scale_milli == d.2
                && m.mobile == d.3,
            None => r matches Err(Error::InvalidParameter(m)) && m@ == "Unknown device: "@
                + device_name@,
        },
{
    let n = to_lowercase(device_name);
    if eq_str(&n, "iphone") || eq_str(&n, "iphone 14") {
        Ok(DeviceMetrics { width: 390, height: 844, scale_milli: 3000, mobile: true })
    } else if eq_str(&n, "iphone se") {
        Ok(DeviceMetrics { width: 375, height: 667, scale_milli: 2000, mobile: true })
    } else if eq_str(&n, "ipad") || eq_str(&n, "ipad pro") {
        Ok(DeviceMetrics { width: 1024, height: 1366, scale_milli: 2000, mobile: true })
    } else if eq_str(&n, "pixel") || eq_str(&n, "pixel 7") {
        Ok(DeviceMetrics { width: 412, height: 915, scale_milli: 2625, mobile: true })
    } else if eq_str(&n, "galaxy") || eq_str(&n, "galaxy s21") {
        Ok(DeviceMetrics { width: 360, height: 800, scale_milli: 3000, mobile: true })
    } else {
        let mut m = String::from_str("Unknown device: ");
        m.append(device_name);
        Err(Error::InvalidParameter(m))
    }
}

/// One key press of simulated typing: the key (also the text it types)
/// and its code.
pub struct TypedKey {
    pub key: String,
    pub code: String,
}

/// The key presses that type `text` one character at a time: each
/// character is its own key and text, with the code `Key` followed by the
/// character uppercased.
pub fn simulated_keys(text: &str) -> (r: Vec<TypedKey>)
    ensures
        r@.len() == text@.len(),
        forall|i: int|
            0 <= i < text@.len() ==> #[trigger] r@[i].key@ == seq![text@[i]] && r@[i].code@ == "Key"@
                + unicode_upper(seq![text@[i]]),
{
    let chars = chars_of(text);
    let mut out: Vec<TypedKey> = Vec::new();
    let mut i: usize = 0;
    while i < chars.len()
        invariant
            i <= chars.len(),
            chars@ == text@,
            out@.len() == i,
            forall|j: int|
                0 <= j < i ==> #[trigger] out@[j].key@ == seq![text@[j]] && out@[j].code@ == "Key"@
                    + unicode_upper(seq![text@[j]]),
        decreases chars.len() - i,
    {
        let mut key = String::new();
        push_char(&mut key, chars[i]);
        proof {
            assert(key@ =~= seq![text@[i as int]]);
        }
        let mut code = String::from_str("Key");
        let upper = to_uppercase(key.as_str());
        code.append(upper.as_str());
        out.push(TypedKey { key, code });
        i = i + 1;
    }
    out
}

/// The message of simulated typing: the number of bytes typed.
pub fn typed_message(text: &str) -> (r: String)
    ensures
        r@ == "Typed "@ + decimal(utf8_len(text@) as usize as nat) + " characters"@,
{
    let n = text.len();
    let mut m = String::from_str("Typed ");
    let d = decimal_string(n as u64);
    m.append(d.as_str());
    m.append(" characters");
    m
}

} // verus!

verus! {

/// A key of the US keyboard layout that the browser knows how to press.
pub struct KeyDefinition {
    /// The key's name (its `key` value).
    pub key: String,
    /// Its virtual key code.
    pub key_code: i64,
    /// Its physical key code, such as `KeyA`.
    pub code: String,
    /// The text the key types, where it types any.
    pub text: Option<String>,
}

/// What `chromiumoxide::keys::get_key_definition` gives for a key name: the
/// layout entry's key, key code, code and text.
pub uninterp spec fn key_definition_of(key: Seq<char>) -> Option<(Seq<char>, i64, Seq<char>, Option<Seq<char>>)>;

/// Looks a key name up in the US keyboard layout with
/// `chromiumoxide::keys::get_key_definition`. The contract claims the result
/// is [`key_definition_of`] the name, and (as the crate finds the entry by
/// comparing its key with the name) that a found entry's key is the name.
#[verifier::external_body]
fn lookup_key_definition(key: &str) -> (r: Option<KeyDefinition>)
    ensures
        match r {
            Some(d) => d.key@ == key@ && key_definition_of(key@) == Some(
                (
                    d.key@,
                    d.key_code,
                    d.code@,
                    match d.text {
                        Some(t) => Some(t@),
                        None => None,
                    },
                ),
            ),
            None => key_definition_of(key@) is None,
        },
{
    chromiumoxide::keys::get_key_definition(key).map(
        |d| KeyDefinition {
            key: d.key.to_string(),
            key_code: d.key_code,
            code: d.code.to_string(),
            text: d.text.map(|t| t.to_string()),
        },
    )
}

/// The kind of the key-down event of a stroke.
#[derive(Debug, Clone, Copy, PartialEq, Eq, Structural)]
pub enum KeyDownKind {
    /// A key that types text.
    KeyDown,
    /// A key that types nothing.
    RawKeyDown,
}

/// One press and release of a key inside a frame.
pub struct KeyStroke {
    pub down: KeyDownKind,
    pub key: String,
    pub code: String,
    pub key_code: i64,
    pub text: Option<String>,
}

/// How a key named `key` is pressed: the layout entry's key, code and key
/// code; a key that types text (its text, else its own one-byte name) goes
/// down as `keyDown`, any other as `rawKeyDown`. An unknown key name is an
/// invalid parameter.
pub fn key_stroke(key: &str) -> (r: Result<KeyStroke, Error>)
    ensures
        match key_definition_of(key@) {
            None => r matches Err(Error::InvalidParameter(m)) && m@ == "Unknown key: "@ + key@,
            Some((k, code, c, text)) => r matches Ok(s) && s.key@ == k && s.key_code == code && s.code@ == c
                && match text {
                Some(t) => s.down == KeyDownKind::KeyDown && (s.text matches Some(x) && x@ == t),
                None => if utf8_len(k) == 1 {
                    s.down == KeyDownKind::KeyDown && (s.text matches Some(x) && x@ == k)
                } else {
                    s.down == KeyDownKind::RawKeyDown && s.text is None
                },
            },
        },
{
    let d = match lookup_key_definition(key) {
        Some(d) => d,
        None => {
            let mut m = String::from_str("Unknown key: ");
            m.append(key);
            return Err(Error::InvalidParameter(m));
        },
    };
    let down: KeyDownKind;
    let text: Option<String>;
    match &d.text {
        Some(t) => {
            down = KeyDownKind::KeyDown;
            let c = t.clone();
            text = Some(c);
        },
        None => {
            let n = byte_len(&d.key);
            if n == 1 {
                down = KeyDownKind::KeyDown;
                let c = d.key.clone();
                text = Some(c);
            } else {
                down = KeyDownKind::RawKeyDown;
                text = None;
            }
        },
    }
    Ok(KeyStroke { down, key: d.key, code: d.code, key_code: d.key_code, text })
}

} // verus!

verus! {

/// `a` and `b` name the same shortcut: the same name, or the two spellings
/// of select-all, new-tab or close-tab.
pub open spec fn same_shortcut(a: Seq<char>, b: Seq<char>) -> bool {
    ||| a == b
    ||| (a == "selectall"@ || a == "select_all"@) && (b == "selectall"@ || b == "select_all"@)
    ||| (a == "newtab"@ || a == "new_tab"@) && (b == "newtab"@ || b == "new_tab"@)
    ||| (a == "closetab"@ || a == "close_tab"@) && (b == "closetab"@ || b == "close_tab"@)
}

/// Different named shortcuts press different keys: two names that resolve
/// to the same key and modifiers name the same shortcut. So copy, paste
/// and cut, undo and redo, and the others never stand for one another.
pub proof fn law_named_shortcuts_differ(a: Seq<char>, b: Seq<char>, main: KeyModifier)
    requires
        main == KeyModifier::Control || main == KeyModifier::Meta,
        shortcut_spec(a, main) is Some,
        shortcut_spec(a, main) == shortcut_spec(b, main),
    ensures
        same_shortcut(a, b),
{
    reveal_strlit("c");
    assert("c"@ =~= seq!['c']);
    reveal_strlit("v");
    assert("v"@ =~= seq!['v']);
    reveal_strlit("x");
    assert("x"@ =~= seq!['x']);
    reveal_strlit("s");
    assert("s"@ =~= seq!['s']);
    reveal_strlit("a");
    assert("a"@ =~= seq!['a']);
    reveal_strlit("z");
    assert("z"@ =~= seq!['z']);
    reveal_strlit("f");
    assert("f"@ =~= seq!['f']);
    reveal_strlit("F5");
    assert("F5"@ =~= seq!['F', '5']);
    reveal_strlit("i");
    assert("i"@ =~= seq!['i']);
    reveal_strlit("p");
    assert("p"@ =~= seq!['p']);
    reveal_strlit("t");
    assert("t"@ =~= seq!['t']);
    reveal_strlit("w");
    assert("w"@ =~= seq!['w']);
    let r = shortcut_spec(a, main)->0;
    let rb = shortcut_spec(b, main)->0;
    assert(r == rb);
    assert(r.0.len() == rb.0.len() && r.0[0] == rb.0[0] && r.1.len() == rb.1.len());
}

/// The clipboard shortcuts press the conventional keys with the main
/// modifier on every platform: copy `c`, cut `x`, paste `v`.
pub proof fn law_clipboard_shortcuts(main: KeyModifier)
    ensures
        shortcut_spec("copy"@, main) == Some(("c"@, seq![main])),
        shortcut_spec("cut"@, main) == Some(("x"@, seq![main])),
        shortcut_spec("paste"@, main) == Some(("v"@, seq![main])),
{
    reveal_strlit("copy");
    reveal_strlit("cut");
    reveal_strlit("paste");
    assert("cut"@ != "copy"@) by {
        assert("cut"@[1] != "copy"@[1]);
    }
    assert("paste"@ != "copy"@) by {
        assert("paste"@[0] != "copy"@[0]);
    }
    assert("paste"@ != "cut"@) by {
        assert("paste"@[0] != "cut"@[0]);
    }
}

/// A named shortcut presses the same key on every platform, with the
/// platform's main modifier (Meta on macOS, Control elsewhere) in place of
/// the other's.
pub proof fn law_shortcuts_follow_the_platform(name: Seq<char>)
    ensures
        shortcut_spec(name, KeyModifier::Control) is Some <==> shortcut_spec(name, KeyModifier::Meta) is Some,
        shortcut_spec(name, KeyModifier::Control) matches Some(c) ==> ({
            let m = shortcut_spec(name, KeyModifier::Meta)->0;
            &&& c.0 == m.0
            &&& c.1.len() == m.1.len()
            &&& forall|i: int|
                0 <= i < c.1.len() ==> (c.1[i] == KeyModifier::Control <==> m.1[i] == KeyModifier::Meta) && (
                c.1[i] == KeyModifier::Shift <==> m.1[i] == KeyModifier::Shift)
        }),
{
}

} // verus!
