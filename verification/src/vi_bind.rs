//! The key binding that opens vi mode, and how it is written down.

use vstd::prelude::*;

use crate::keys;
use crate::keys::{Key, Modifiers, NamedKey};
use crate::text;

verus! {

/// The key of a binding.
#[derive(Copy, Clone, Debug, PartialEq, Eq, Structural)]
pub enum KeyMatch {
    /// A character key, in either case.
    Char(char),
    Named(NamedKey),
}

/// A key with exactly the modifiers it needs.
#[derive(Copy, Clone, Debug, PartialEq, Eq, Structural)]
pub struct ViKeyBind {
    pub key: KeyMatch,
    pub ctrl: bool,
    pub shift: bool,
    pub alt: bool,
}

/// One part of a written binding.
#[derive(Copy, Clone, Debug, PartialEq, Eq, Structural)]
pub enum BindToken {
    Ctrl,
    Shift,
    Alt,
    Key(KeyMatch),
    Bad,
}

/// What a part of a written binding means, given in lower case.
pub open spec fn token_of(part: Seq<char>) -> BindToken {
    if part == "ctrl"@ || part == "control"@ {
        BindToken::Ctrl
    } else if part == "shift"@ {
        BindToken::Shift
    } else if part == "alt"@ || part == "meta"@ || part == "option"@ {
        BindToken::Alt
    } else if part == "space"@ {
        BindToken::Key(KeyMatch::Named(NamedKey::Space))
    } else if part == "tab"@ {
        BindToken::Key(KeyMatch::Named(NamedKey::Tab))
    } else if part == "enter"@ || part == "return"@ {
        BindToken::Key(KeyMatch::Named(NamedKey::Enter))
    } else if part == "backspace"@ {
        BindToken::Key(KeyMatch::Named(NamedKey::Backspace))
    } else if part.len() == 1 && text::ascii_alphanumeric(part[0]) {
        BindToken::Key(KeyMatch::Char(part[0]))
    } else {
        BindToken::Bad
    }
}

/// The last key that the parts name.
pub open spec fn last_key(parts: Seq<Seq<char>>) -> Option<KeyMatch>
    decreases parts.len(),
{
    if parts.len() == 0 {
        None
    } else {
        match token_of(parts.last()) {
            BindToken::Key(k) => Some(k),
            _ => last_key(parts.drop_last()),
        }
    }
}

/// Some part means `token`.
pub open spec fn has_token(parts: Seq<Seq<char>>, token: BindToken) -> bool {
    exists|i: int| 0 <= i < parts.len() && token_of(#[trigger] parts[i]) == token
}

/// The binding that parts in lower case spell: every part must mean
/// something, and one of them must be a key.
pub open spec fn bind_of(parts: Seq<Seq<char>>) -> Option<ViKeyBind> {
    if has_token(parts, BindToken::Bad) {
        None
    } else {
        match last_key(parts) {
            None => None,
            Some(key) => Some(
                ViKeyBind {
                    key,
                    ctrl: has_token(parts, BindToken::Ctrl),
                    shift: has_token(parts, BindToken::Shift),
                    alt: has_token(parts, BindToken::Alt),
                },
            ),
        }
    }
}

/// The parts of a written binding: between plus signs, without white space
/// around them, in lower case.
pub open spec fn bind_parts(written: Seq<char>) -> Seq<Seq<char>> {
    let pieces = text::split_on(written, '+');
    Seq::new(pieces.len(), |i: int| text::lowercase(text::trim(pieces[i])))
}

/// What a part of a written binding means.
fn token(part: &[char]) -> (t: BindToken)
    ensures
        t == token_of(part@),
{
    if text::chars_are(part, "ctrl") || text::chars_are(part, "control") {
        BindToken::Ctrl
    } else if text::chars_are(part, "shift") {
        BindToken::Shift
    } else if text::chars_are(part, "alt") || text::chars_are(part, "meta") || text::chars_are(
        part,
        "option",
    ) {
        BindToken::Alt
    } else if text::chars_are(part, "space") {
        BindToken::Key(KeyMatch::Named(NamedKey::Space))
    } else if text::chars_are(part, "tab") {
        BindToken::Key(KeyMatch::Named(NamedKey::Tab))
    } else if text::chars_are(part, "enter") || text::chars_are(part, "return") {
        BindToken::Key(KeyMatch::Named(NamedKey::Enter))
    } else if text::chars_are(part, "backspace") {
        BindToken::Key(KeyMatch::Named(NamedKey::Backspace))
    } else if part.len() == 1 {
        let c: char = part[0];
        if ('0' <= c && c <= '9') || ('A' <= c && c <= 'Z') || ('a' <= c && c <= 'z') {
            BindToken::Key(KeyMatch::Char(c))
        } else {
            BindToken::Bad
        }
    } else {
        BindToken::Bad
    }
}

/// The binding that parts in lower case spell.
pub fn bind_from_parts(parts: &Vec<Vec<char>>) -> (bind: Option<ViKeyBind>)
    ensures
        bind == bind_of(text::char_lists(parts@)),
{
    let ghost all = text::char_lists(parts@);
    let mut ctrl: bool = false;
    let mut shift: bool = false;
    let mut alt: bool = false;
    let mut key: Option<KeyMatch> = None;
    let mut i: usize = 0;
    while i < parts.len()
        invariant
            i <= parts@.len(),
            all == text::char_lists(parts@),
            forall|k: int| 0 <= k < i ==> token_of(#[trigger] all[k]) != BindToken::Bad,
            ctrl <==> has_token(all.take(i as int), BindToken::Ctrl),
            shift <==> has_token(all.take(i as int), BindToken::Shift),
            alt <==> has_token(all.take(i as int), BindToken::Alt),
            key == last_key(all.take(i as int)),
        decreases parts@.len() - i,
    {
        let t = token(parts[i].as_slice());
        let ghost next = all.take(i + 1);
        proof {
            assert(next.drop_last() =~= all.take(i as int));
            assert(next.last() == all[i as int]);
            lemma_has_token_push(all.take(i as int), all[i as int], BindToken::Ctrl);
            lemma_has_token_push(all.take(i as int), all[i as int], BindToken::Shift);
            lemma_has_token_push(all.take(i as int), all[i as int], BindToken::Alt);
            assert(all.take(i as int).push(all[i as int]) =~= next);
        }
        match t {
            BindToken::Ctrl => {
                ctrl = true;
            },
            BindToken::Shift => {
                shift = true;
            },
            BindToken::Alt => {
                alt = true;
            },
            BindToken::Key(k) => {
                key = Some(k);
            },
            BindToken::Bad => {
                assert(token_of(all[i as int]) == BindToken::Bad);
                return None;
            },
        }
        i += 1;
    }
    assert(all.take(all.len() as int) =~= all);
    match key {
        Some(key) => Some(ViKeyBind { key, ctrl, shift, alt }),
        None => None,
    }
}

proof fn lemma_has_token_push(parts: Seq<Seq<char>>, part: Seq<char>, token: BindToken)
    ensures
        has_token(parts.push(part), token) <==> has_token(parts, token) || token_of(part) == token,
{
    let more = parts.push(part);
    if has_token(parts, token) {
        let i = choose|i: int| 0 <= i < parts.len() && token_of(#[trigger] parts[i]) == token;
        assert(more[i] == parts[i]);
    }
    if token_of(part) == token {
        assert(more[parts.len() as int] == part);
    }
    if has_token(more, token) && token_of(part) != token {
        let i = choose|i: int| 0 <= i < more.len() && token_of(#[trigger] more[i]) == token;
        assert(parts[i] == more[i]);
    }
}

/// Reads a binding such as `ctrl+shift+space`. Case and white space around
/// the parts do not matter. An unknown part or a missing key makes it
/// nothing.
pub fn parse_vi_key(s: &str) -> (bind: Option<ViKeyBind>)
    ensures
        bind == bind_of(bind_parts(s@)),
{
    let pieces = text::split(text::chars_of(s).as_slice(), '+');
    let mut parts: Vec<Vec<char>> = Vec::new();
    let mut i: usize = 0;
    while i < pieces.len()
        invariant
            i <= pieces@.len(),
            text::char_lists(pieces@) == text::split_on(s@, '+'),
            parts@.len() == i,
            forall|k: int|
                0 <= k < i ==> (#[trigger] parts@[k])@ == text::lowercase(
                    text::trim(text::split_on(s@, '+')[k]),
                ),
        decreases pieces@.len() - i,
    {
        assert(text::char_lists(pieces@)[i as int] == pieces@[i as int]@);
        let part = text::string_of(text::trimmed(pieces[i].as_slice()).as_slice());
        parts.push(text::chars_of(text::to_lowercase(part.as_str()).as_str()));
        i += 1;
    }
    assert(text::char_lists(parts@) =~= bind_parts(s@));
    bind_from_parts(&parts)
}

impl ViKeyBind {
    /// The binding without configuration: Ctrl+N.
    pub fn default_activation() -> (bind: ViKeyBind)
        ensures
            bind == (ViKeyBind { key: KeyMatch::Char('n'), ctrl: true, shift: false, alt: false }),
    {
        ViKeyBind { key: KeyMatch::Char('n'), ctrl: true, shift: false, alt: false }
    }

    /// The binding to use: the one from the environment if it can be read,
    /// else the one from the configuration if it can be read, else the
    /// default.
    pub fn resolve(env_value: Option<&str>, config_value: Option<&str>) -> (bind: ViKeyBind)
        ensures
            ({
                let env = match env_value {
                    Some(s) => bind_of(bind_parts(s@)),
                    None => None,
                };
                let config = match config_value {
                    Some(s) => bind_of(bind_parts(s@)),
                    None => None,
                };
                if env is Some {
                    bind == env->0
                } else if config is Some {
                    bind == config->0
                } else {
                    bind == (ViKeyBind {
                        key: KeyMatch::Char('n'),
                        ctrl: true,
                        shift: false,
                        alt: false,
                    })
                }
            }),
    {
        if let Some(s) = env_value {
            if let Some(bind) = parse_vi_key(s) {
                return bind;
            }
        }
        if let Some(s) = config_value {
            if let Some(bind) = parse_vi_key(s) {
                return bind;
            }
        }
        ViKeyBind::default_activation()
    }

    /// Whether a key press is the binding. The modifiers must be exactly
    /// those of the binding.
    pub open spec fn fires_on(self, key: Key, mods: Modifiers) -> bool {
        &&& mods.ctrl == self.ctrl
        &&& mods.shift == self.shift
        &&& mods.alt == self.alt
        &&& match self.key {
            KeyMatch::Char(c) => key matches Key::Character(s) && s@.len() > 0
                && text::ascii_lower(s@[0]) == text::ascii_lower(c),
            KeyMatch::Named(n) => key == Key::Named(n),
        }
    }

    /// Whether a key press is the binding.
    pub fn matches(&self, logical: &Key, mods: Modifiers) -> (fires: bool)
        ensures
            fires == self.fires_on(*logical, mods),
    {
        if mods.ctrl != self.ctrl || mods.shift != self.shift || mods.alt != self.alt {
            return false;
        }
        match self.key {
            KeyMatch::Char(c) => match logical {
                Key::Character(s) => match keys::first_char_of(s.as_str()) {
                    Some(first) => text::to_ascii_lower(first) == text::to_ascii_lower(c),
                    None => false,
                },
                _ => false,
            },
            KeyMatch::Named(n) => match logical {
                Key::Named(k) => *k == n,
                _ => false,
            },
        }
    }
}

/// A binding never fires with a modifier too many or too few.
pub proof fn law_modifiers_are_exact(bind: ViKeyBind, key: Key, mods: Modifiers)
    requires
        bind.fires_on(key, mods),
    ensures
        mods == (Modifiers { ctrl: bind.ctrl, alt: bind.alt, shift: bind.shift }),
{
}

} // verus!
