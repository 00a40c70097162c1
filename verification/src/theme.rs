//! The theme registry: a fixed table of named color themes, name lookup, and
//! the resolution order (environment override, then persisted name, then the
//! default).

use vstd::prelude::*;
use crate::types::{ColorPair, Theme};
use crate::text::{chars_to_string, push_str_chars, spec_trim, str_eq, str_to_chars, trim_chars};

verus! {

/// How many themes the registry holds.
pub open spec fn spec_theme_count() -> int {
    8
}

/// The key of the registry entry at position `i`, in declaration order.
pub open spec fn spec_theme_key(i: int) -> Seq<char> {
    if i == 0 {
        "tokyo-night"@
    } else if i == 1 {
        "nord"@
    } else if i == 2 {
        "dracula"@
    } else if i == 3 {
        "gruvbox"@
    } else if i == 4 {
        "catppuccin"@
    } else if i == 5 {
        "monokai"@
    } else if i == 6 {
        "solarized"@
    } else {
        "default"@
    }
}

/// The display name of the registry entry at position `i`.
pub open spec fn spec_theme_display(i: int) -> Seq<char> {
    if i == 0 {
        "Tokyo Night"@
    } else if i == 1 {
        "Nord"@
    } else if i == 2 {
        "Dracula"@
    } else if i == 3 {
        "Gruvbox"@
    } else if i == 4 {
        "Catppuccin"@
    } else if i == 5 {
        "Monokai"@
    } else if i == 6 {
        "Solarized"@
    } else {
        "Default"@
    }
}

/// The color record of the registry entry at position `i`.
pub open spec fn spec_theme(i: int) -> Theme {
    if i == 0 {
        Theme {
            model: ColorPair { fg: 15, bg: 57 },
            version: ColorPair { fg: 189, bg: 60 },
            branch: ColorPair { fg: 0, bg: 179 },
            ctx_good: ColorPair { fg: 0, bg: 78 },
            ctx_warn: ColorPair { fg: 0, bg: 214 },
            ctx_bad: ColorPair { fg: 15, bg: 197 },
        }
    } else if i == 1 {
        Theme {
            model: ColorPair { fg: 0, bg: 110 },
            version: ColorPair { fg: 254, bg: 60 },
            branch: ColorPair { fg: 0, bg: 179 },
            ctx_good: ColorPair { fg: 0, bg: 108 },
            ctx_warn: ColorPair { fg: 0, bg: 222 },
            ctx_bad: ColorPair { fg: 15, bg: 167 },
        }
    } else if i == 2 {
        Theme {
            model: ColorPair { fg: 15, bg: 141 },
            version: ColorPair { fg: 231, bg: 61 },
            branch: ColorPair { fg: 0, bg: 228 },
            ctx_good: ColorPair { fg: 0, bg: 84 },
            ctx_warn: ColorPair { fg: 0, bg: 215 },
            ctx_bad: ColorPair { fg: 15, bg: 210 },
        }
    } else if i == 3 {
        Theme {
            model: ColorPair { fg: 230, bg: 66 },
            version: ColorPair { fg: 223, bg: 239 },
            branch: ColorPair { fg: 235, bg: 214 },
            ctx_good: ColorPair { fg: 235, bg: 142 },
            ctx_warn: ColorPair { fg: 235, bg: 208 },
            ctx_bad: ColorPair { fg: 230, bg: 124 },
        }
    } else if i == 4 {
        Theme {
            model: ColorPair { fg: 0, bg: 183 },
            version: ColorPair { fg: 189, bg: 60 },
            branch: ColorPair { fg: 0, bg: 223 },
            ctx_good: ColorPair { fg: 0, bg: 158 },
            ctx_warn: ColorPair { fg: 0, bg: 223 },
            ctx_bad: ColorPair { fg: 15, bg: 211 },
        }
    } else if i == 5 {
        Theme {
            model: ColorPair { fg: 15, bg: 197 },
            version: ColorPair { fg: 231, bg: 239 },
            branch: ColorPair { fg: 0, bg: 186 },
            ctx_good: ColorPair { fg: 0, bg: 148 },
            ctx_warn: ColorPair { fg: 0, bg: 208 },
            ctx_bad: ColorPair { fg: 15, bg: 196 },
        }
    } else if i == 6 {
        Theme {
            model: ColorPair { fg: 230, bg: 37 },
            version: ColorPair { fg: 230, bg: 240 },
            branch: ColorPair { fg: 235, bg: 136 },
            ctx_good: ColorPair { fg: 230, bg: 64 },
            ctx_warn: ColorPair { fg: 235, bg: 166 },
            ctx_bad: ColorPair { fg: 230, bg: 124 },
        }
    } else {
        Theme {
            model: ColorPair { fg: 0, bg: 44 },
            version: ColorPair { fg: 0, bg: 242 },
            branch: ColorPair { fg: 0, bg: 178 },
            ctx_good: ColorPair { fg: 0, bg: 34 },
            ctx_warn: ColorPair { fg: 0, bg: 178 },
            ctx_bad: ColorPair { fg: 15, bg: 160 },
        }
    }
}

/// One entry of the registry: lookup key, human-readable name, colors.
pub struct ThemeEntry {
    pub key: &'static str,
    pub display: &'static str,
    pub theme: Theme,
}

fn entry(key: &'static str, display: &'static str, theme: Theme) -> (r: ThemeEntry)
    ensures
        r.key@ == key@,
        r.display@ == display@,
        r.theme == theme,
{
    ThemeEntry { key, display, theme }
}

fn theme_at(i: usize) -> (t: Theme)
    requires
        i < spec_theme_count(),
    ensures
        t == spec_theme(i as int),
{
    if i == 0 {
        Theme {
            model: ColorPair { fg: 15, bg: 57 },
            version: ColorPair { fg: 189, bg: 60 },
            branch: ColorPair { fg: 0, bg: 179 },
            ctx_good: ColorPair { fg: 0, bg: 78 },
            ctx_warn: ColorPair { fg: 0, bg: 214 },
            ctx_bad: ColorPair { fg: 15, bg: 197 },
        }
    } else if i == 1 {
        Theme {
            model: ColorPair { fg: 0, bg: 110 },
            version: ColorPair { fg: 254, bg: 60 },
            branch: ColorPair { fg: 0, bg: 179 },
            ctx_good: ColorPair { fg: 0, bg: 108 },
            ctx_warn: ColorPair { fg: 0, bg: 222 },
            ctx_bad: ColorPair { fg: 15, bg: 167 },
        }
    } else if i == 2 {
        Theme {
            model: ColorPair { fg: 15, bg: 141 },
            version: ColorPair { fg: 231, bg: 61 },
            branch: ColorPair { fg: 0, bg: 228 },
            ctx_good: ColorPair { fg: 0, bg: 84 },
            ctx_warn: ColorPair { fg: 0, bg: 215 },
            ctx_bad: ColorPair { fg: 15, bg: 210 },
        }
    } else if i == 3 {
        Theme {
            model: ColorPair { fg: 230, bg: 66 },
            version: ColorPair { fg: 223, bg: 239 },
            branch: ColorPair { fg: 235, bg: 214 },
            ctx_good: ColorPair { fg: 235, bg: 142 },
            ctx_warn: ColorPair { fg: 235, bg: 208 },
            ctx_bad: ColorPair { fg: 230, bg: 124 },
        }
    } else if i == 4 {
        Theme {
            model: ColorPair { fg: 0, bg: 183 },
            version: ColorPair { fg: 189, bg: 60 },
            branch: ColorPair { fg: 0, bg: 223 },
            ctx_good: ColorPair { fg: 0, bg: 158 },
            ctx_warn: ColorPair { fg: 0, bg: 223 },
            ctx_bad: ColorPair { fg: 15, bg: 211 },
        }
    } else if i == 5 {
        Theme {
            model: ColorPair { fg: 15, bg: 197 },
            version: ColorPair { fg: 231, bg: 239 },
            branch: ColorPair { fg: 0, bg: 186 },
            ctx_good: ColorPair { fg: 0, bg: 148 },
            ctx_warn: ColorPair { fg: 0, bg: 208 },
            ctx_bad: ColorPair { fg: 15, bg: 196 },
        }
    } else if i == 6 {
        Theme {
            model: ColorPair { fg: 230, bg: 37 },
            version: ColorPair { fg: 230, bg: 240 },
            branch: ColorPair { fg: 235, bg: 136 },
            ctx_good: ColorPair { fg: 230, bg: 64 },
            ctx_warn: ColorPair { fg: 235, bg: 166 },
            ctx_bad: ColorPair { fg: 230, bg: 124 },
        }
    } else {
        Theme {
            model: ColorPair { fg: 0, bg: 44 },
            version: ColorPair { fg: 0, bg: 242 },
            branch: ColorPair { fg: 0, bg: 178 },
            ctx_good: ColorPair { fg: 0, bg: 34 },
            ctx_warn: ColorPair { fg: 0, bg: 178 },
            ctx_bad: ColorPair { fg: 15, bg: 160 },
        }
    }
}

/// The full registry, in declaration order.
pub fn themes() -> (r: Vec<ThemeEntry>)
    ensures
        r@.len() == spec_theme_count(),
        forall|i: int|
            0 <= i < r@.len() ==> (#[trigger] r@[i]).key@ == spec_theme_key(i)
                && r@[i].display@ == spec_theme_display(i) && r@[i].theme == spec_theme(i),
{
    let mut r: Vec<ThemeEntry> = Vec::new();
    r.push(entry("tokyo-night", "Tokyo Night", theme_at(0)));
    r.push(entry("nord", "Nord", theme_at(1)));
    r.push(entry("dracula", "Dracula", theme_at(2)));
    r.push(entry("gruvbox", "Gruvbox", theme_at(3)));
    r.push(entry("catppuccin", "Catppuccin", theme_at(4)));
    r.push(entry("monokai", "Monokai", theme_at(5)));
    r.push(entry("solarized", "Solarized", theme_at(6)));
    r.push(entry("default", "Default", theme_at(7)));
    r
}

/// Lookup from position `i` on: the colors of the first later entry whose key
/// is `name`.
pub open spec fn spec_find_from(name: Seq<char>, i: int) -> Option<Theme>
    decreases spec_theme_count() - i,
{
    if i < 0 || i >= spec_theme_count() {
        None
    } else if spec_theme_key(i) == name {
        Some(spec_theme(i))
    } else {
        spec_find_from(name, i + 1)
    }
}

/// Exact, case-sensitive lookup of a theme key.
pub open spec fn spec_find_theme(name: Seq<char>) -> Option<Theme> {
    spec_find_from(name, 0)
}

/// The colors of the theme registered under `name`, if any.
pub fn find_theme(name: &str) -> (r: Option<Theme>)
    ensures
        r == spec_find_theme(name@),
{
    let table = themes();
    let mut i: usize = 0;
    while i < table.len()
        invariant
            table@.len() == spec_theme_count(),
            forall|j: int|
                0 <= j < table@.len() ==> (#[trigger] table@[j]).key@ == spec_theme_key(j)
                    && table@[j].theme == spec_theme(j),
            i <= table@.len(),
            spec_find_theme(name@) == spec_find_from(name@, i as int),
        decreases table@.len() - i,
    {
        if str_eq(table[i].key, name) {
            return Some(table[i].theme);
        }
        i = i + 1;
    }
    None
}

/// The default theme: the registry's first entry.
pub fn default_theme() -> (t: Theme)
    ensures
        t == spec_theme(0),
{
    theme_at(0)
}

/// The theme name a render uses: the environment override when one is set,
/// else the persisted name.
pub open spec fn spec_effective_name(env_override: Seq<char>, config: Seq<char>) -> Seq<char> {
    if env_override.len() == 0 {
        config
    } else {
        env_override
    }
}

/// The theme a render uses: the effective name's entry, or the default theme
/// when no entry carries that name.
pub open spec fn spec_get_theme(env_override: Seq<char>, config: Seq<char>) -> Theme {
    match spec_find_theme(spec_effective_name(env_override, config)) {
        Some(t) => t,
        None => spec_theme(0),
    }
}

/// Resolves the active theme from the environment override (empty when
/// unset) and the persisted theme name. Never fails: an unknown name gives
/// the default theme.
pub fn get_theme(env_override: &str, config_name: &str) -> (t: Theme)
    ensures
        t == spec_get_theme(env_override@, config_name@),
{
    let name = if env_override.is_empty() {
        config_name
    } else {
        env_override
    };
    match find_theme(name) {
        Some(t) => t,
        None => default_theme(),
    }
}

/// The persisted theme name for given config-file contents: the trimmed
/// text, or the default key when the file could not be read.
pub fn get_theme_from_config(contents: Option<&str>) -> (r: String)
    ensures
        match contents {
            Some(c) => r@ == spec_trim(c@),
            None => r@ == "tokyo-night"@,
        },
{
    match contents {
        Some(c) => {
            let chars = str_to_chars(c);
            let trimmed = trim_chars(chars.as_slice());
            chars_to_string(&trimmed)
        },
        None => {
            let mut v: Vec<char> = Vec::new();
            push_str_chars(&mut v, "tokyo-night");
            let r = chars_to_string(&v);
            proof {
                assert(v@ =~= Seq::<char>::empty() + "tokyo-night"@);
            }
            r
        },
    }
}

/// Law: an unknown effective theme name falls back to the default theme;
/// resolution never fails.
pub proof fn lemma_unknown_theme_falls_back(env_override: Seq<char>, config: Seq<char>)
    requires
        spec_find_theme(spec_effective_name(env_override, config)) is None,
    ensures
        spec_get_theme(env_override, config) == spec_theme(0),
{
}

/// A registered theme key carries no surrounding whitespace, so reading it
/// back through the trimming config-file reader leaves it unchanged.
proof fn lemma_known_key_is_trimmed(key: Seq<char>)
    requires
        spec_find_theme(key) is Some,
    ensures
        spec_trim(key) == key,
{
    reveal_strlit("tokyo-night");
    reveal_strlit("nord");
    reveal_strlit("dracula");
    reveal_strlit("gruvbox");
    reveal_strlit("catppuccin");
    reveal_strlit("monokai");
    reveal_strlit("solarized");
    reveal_strlit("default");
    if key == spec_theme_key(0) || key == spec_theme_key(1) || key == spec_theme_key(2) || key
        == spec_theme_key(3) || key == spec_theme_key(4) || key == spec_theme_key(5) || key
        == spec_theme_key(6) || key == spec_theme_key(7) {
        assert(key.len() > 0);
        assert(!crate::text::is_ws(key.first()));
        assert(!crate::text::is_ws(key.last()));
        crate::text::lemma_trim_of_trimmed(key);
    } else {
        assert(spec_find_from(key, 0) == spec_find_from(key, 1));
        assert(spec_find_from(key, 1) == spec_find_from(key, 2));
        assert(spec_find_from(key, 2) == spec_find_from(key, 3));
        assert(spec_find_from(key, 3) == spec_find_from(key, 4));
        assert(spec_find_from(key, 4) == spec_find_from(key, 5));
        assert(spec_find_from(key, 5) == spec_find_from(key, 6));
        assert(spec_find_from(key, 6) == spec_find_from(key, 7));
        assert(spec_find_from(key, 7) == spec_find_from(key, 8));
        assert(spec_find_from(key, 8) is None);
    }
}

/// Law (round trip): persisting a known theme key and then resolving with no
/// environment override — the persisted file read back and trimmed — picks up
/// exactly that key's theme.
pub proof fn lemma_set_then_get_round_trip(key: Seq<char>)
    requires
        spec_find_theme(key) is Some,
    ensures
        spec_get_theme(Seq::<char>::empty(), spec_trim(key)) == spec_find_theme(key)->Some_0,
{
    lemma_known_key_is_trimmed(key);
}

/// One listing line per theme: a marker when the key is the active one, the
/// key, and the display name.
pub open spec fn spec_theme_list_line(i: int, current: Seq<char>) -> Seq<char> {
    (if spec_theme_key(i) == current {
        "* "@
    } else {
        "  "@
    }) + spec_theme_key(i) + " - "@ + spec_theme_display(i)
}

/// The listing shown for the registry, marking the active theme name.
pub fn theme_list_lines(current: &str) -> (r: Vec<String>)
    ensures
        r@.len() == spec_theme_count(),
        forall|i: int|
            0 <= i < r@.len() ==> (#[trigger] r@[i])@ == spec_theme_list_line(i, current@),
{
    let table = themes();
    let mut r: Vec<String> = Vec::new();
    let mut i: usize = 0;
    while i < table.len()
        invariant
            table@.len() == spec_theme_count(),
            forall|j: int|
                0 <= j < table@.len() ==> (#[trigger] table@[j]).key@ == spec_theme_key(j)
                    && table@[j].display@ == spec_theme_display(j),
            i <= table@.len(),
            r@.len() == i,
            forall|j: int| 0 <= j < i ==> (#[trigger] r@[j])@ == spec_theme_list_line(j, current@),
        decreases table@.len() - i,
    {
        let mut v: Vec<char> = Vec::new();
        if str_eq(table[i].key, current) {
            push_str_chars(&mut v, "* ");
        } else {
            push_str_chars(&mut v, "  ");
        }
        push_str_chars(&mut v, table[i].key);
        push_str_chars(&mut v, " - ");
        push_str_chars(&mut v, table[i].display);
        proof {
            assert(v@ =~= spec_theme_list_line(i as int, current@));
        }
        r.push(chars_to_string(&v));
        i = i + 1;
    }
    r
}

} // verus!
