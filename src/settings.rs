//! Settings that the engine reads as plain values: the tracked installation
//! roots, and key bindings written as text.

use vstd::prelude::*;
use crate::text::str_equal;

verus! {

/// The installation roots of the game lines.
pub struct Paths {
    pub classic: String,
    pub retail: String,
    pub tbc: String,
}

/// A key as a binding names it.
#[derive(Copy, Clone, PartialEq, Eq, Structural, Debug)]
pub enum Key {
    Char(char),
    Ctrl(char),
    Alt(char),
    Left,
    Right,
    Up,
    Down,
    Backspace,
    Delete,
    Esc,
    PageUp,
    PageDown,
    Null,
}

/// The text lowered to small letters, as `str::to_lowercase` gives it.
pub uninterp spec fn lower_of(s: Seq<char>) -> Seq<char>;

/// Relies on `str::to_lowercase`: the result depends on the characters alone.
#[verifier::external_body]
fn lowercase(s: &str) -> (r: String)
    ensures
        r@ == lower_of(s@),
{
    s.to_lowercase()
}

/// A text of one byte: a single ASCII character.
pub open spec fn is_single_ascii(s: Seq<char>) -> bool {
    s.len() == 1 && s[0] <= '\x7f'
}

/// Position `i` holds the first dash of `s`.
pub open spec fn dash_at(s: Seq<char>, i: int) -> bool {
    &&& 0 <= i < s.len()
    &&& s[i] == '-'
    &&& forall|j: int| 0 <= j < i ==> #[trigger] s[j] != '-'
}

/// `s` holds a dash.
pub open spec fn has_dash(s: Seq<char>) -> bool {
    exists|i: int| 0 <= i < s.len() && #[trigger] s[i] == '-'
}

/// The position of the first dash of `s`.
pub open spec fn first_dash(s: Seq<char>) -> int {
    choose|i: int| dash_at(s, i)
}

/// The part of `s` before its first dash, or all of it.
pub open spec fn head_token(s: Seq<char>) -> Seq<char> {
    if has_dash(s) {
        s.subrange(0, first_dash(s))
    } else {
        s
    }
}

/// The first character of the part between the first dash and the next one
/// (`'\0'` where that part is empty), or nothing where `s` has no dash.
pub open spec fn second_token_char(s: Seq<char>) -> Option<char> {
    if has_dash(s) {
        let i = first_dash(s);
        Some(
            if i + 1 < s.len() && s[i + 1] != '-' {
                s[i + 1]
            } else {
                '\0'
            },
        )
    } else {
        None
    }
}

/// The key that a lowered name denotes, with the character that follows a
/// modifier name.
pub open spec fn key_named(name: Seq<char>, second: Option<char>) -> Key {
    if name == "ctrl"@ {
        match second {
            Some(c) => Key::Ctrl(c),
            None => Key::Null,
        }
    } else if name == "alt"@ {
        match second {
            Some(c) => Key::Alt(c),
            None => Key::Null,
        }
    } else if name == "left"@ {
        Key::Left
    } else if name == "right"@ {
        Key::Right
    } else if name == "up"@ {
        Key::Up
    } else if name == "down"@ {
        Key::Down
    } else if name == "backspace"@ {
        Key::Backspace
    } else if name == "del"@ {
        Key::Delete
    } else if name == "esc"@ {
        Key::Esc
    } else if name == "pageup"@ {
        Key::PageUp
    } else if name == "pagedown"@ {
        Key::PageDown
    } else if name == "space"@ {
        Key::Char(' ')
    } else {
        Key::Null
    }
}

/// The key that binding text `s` denotes.
pub open spec fn key_of(s: Seq<char>) -> Key {
    if is_single_ascii(s) {
        Key::Char(s[0])
    } else {
        key_named(lower_of(head_token(s)), second_token_char(s))
    }
}

proof fn lemma_dash_unique(s: Seq<char>, i: int)
    requires
        dash_at(s, i),
    ensures
        has_dash(s),
        first_dash(s) == i,
{
    assert(s[i] == '-');
    let j = first_dash(s);
    assert(dash_at(s, j));
    if j < i {
        assert(s[j] != '-');
    } else if i < j {
        assert(s[i] != '-');
    }
}

impl Settings {
    /// The key that an already lowered key name denotes; `second` is the
    /// character after a modifier name, where the binding has a dash.
    pub fn key_from_name(name: &str, second: Option<char>) -> (r: Key)
        ensures
            r == key_named(name@, second),
    {
        if str_equal(name, "ctrl") {
            match second {
                Some(c) => Key::Ctrl(c),
                None => Key::Null,
            }
        } else if str_equal(name, "alt") {
            match second {
                Some(c) => Key::Alt(c),
                None => Key::Null,
            }
        } else if str_equal(name, "left") {
            Key::Left
        } else if str_equal(name, "right") {
            Key::Right
        } else if str_equal(name, "up") {
            Key::Up
        } else if str_equal(name, "down") {
            Key::Down
        } else if str_equal(name, "backspace") {
            Key::Backspace
        } else if str_equal(name, "del") {
            Key::Delete
        } else if str_equal(name, "esc") {
            Key::Esc
        } else if str_equal(name, "pageup") {
            Key::PageUp
        } else if str_equal(name, "pagedown") {
            Key::PageDown
        } else if str_equal(name, "space") {
            Key::Char(' ')
        } else {
            Key::Null
        }
    }

    /// The key that a binding text denotes: a single ASCII character stands
    /// for itself; otherwise the part before the first dash, lowered, names
    /// the key, and `ctrl` and `alt` take the character after that dash.
    /// Anything else is `Key::Null`.
    pub fn parse_key(key: String) -> (r: Key)
        ensures
            r == key_of(key@),
    {
        let s = key.as_str();
        let n = s.unicode_len();
        if n == 1 {
            let c = s.get_char(0);
            if c <= '\x7f' {
                return Key::Char(c);
            }
        }
        let mut i: usize = 0;
        while i < n && s.get_char(i) != '-'
            invariant
                n == s@.len(),
                i <= n,
                forall|j: int| 0 <= j < i ==> #[trigger] s@[j] != '-',
            decreases n - i,
        {
            i = i + 1;
        }
        let head = s.substring_char(0, i);
        let lowered = lowercase(head);
        if i < n {
            proof {
                lemma_dash_unique(s@, i as int);
            }
            let second = if i + 1 < n && s.get_char(i + 1) != '-' {
                s.get_char(i + 1)
            } else {
                '\0'
            };
            Settings::key_from_name(lowered.as_str(), Some(second))
        } else {
            assert(s@.subrange(0, n as int) =~= s@);
            assert(!has_dash(s@));
            Settings::key_from_name(lowered.as_str(), None)
        }
    }
}

/// The key bound to each command.
pub struct KeyBindings {
    pub update_addon: Key,
    pub update_all_addons: Key,
    pub remove_addon: Key,
    pub download_addon: Key,
    pub install_addon: Key,
    pub select_retail_version: Key,
    pub select_classic_version: Key,
    pub select_tbc_version: Key,
    pub search_addon: Key,
    pub next_tab: Key,
    pub prev_tab: Key,
    pub next_table_item: Key,
    pub prev_table_item: Key,
    pub quit: Key,
    pub scroll_down_log: Key,
    pub scroll_up_log: Key,
}

/// The installation roots and the key bindings.
pub struct Settings {
    pub paths: Paths,
    pub key_bindings: KeyBindings,
}

} // verus!
