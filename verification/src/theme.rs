//! Named colour themes: a set of `#rrggbb` colour strings per theme,
//! looked up by name with a fallback to the built-in `dark` theme.

use vstd::prelude::*;

use crate::strutil::str_eq;

verus! {

/// The colour strings of one theme, each written `#rrggbb`.
#[derive(Debug)]
pub struct Theme {
    pub background: String,
    pub text: String,
    pub header_bg: String,
    pub header_fg: String,
    pub table_header: String,
    pub border: String,
    pub highlight: String,
}

impl Clone for Theme {
    fn clone(&self) -> (res: Self)
        ensures
            res == *self,
    {
        Theme {
            background: self.background.clone(),
            text: self.text.clone(),
            header_bg: self.header_bg.clone(),
            header_fg: self.header_fg.clone(),
            table_header: self.table_header.clone(),
            border: self.border.clone(),
            highlight: self.highlight.clone(),
        }
    }
}

/// The value of one hexadecimal digit.
pub open spec fn spec_hex_digit(c: char) -> Option<u8> {
    if c == '0' {
        Some(0u8)
    } else if c == '1' {
        Some(1u8)
    } else if c == '2' {
        Some(2u8)
    } else if c == '3' {
        Some(3u8)
    } else if c == '4' {
        Some(4u8)
    } else if c == '5' {
        Some(5u8)
    } else if c == '6' {
        Some(6u8)
    } else if c == '7' {
        Some(7u8)
    } else if c == '8' {
        Some(8u8)
    } else if c == '9' {
        Some(9u8)
    } else if c == 'a' || c == 'A' {
        Some(10u8)
    } else if c == 'b' || c == 'B' {
        Some(11u8)
    } else if c == 'c' || c == 'C' {
        Some(12u8)
    } else if c == 'd' || c == 'D' {
        Some(13u8)
    } else if c == 'e' || c == 'E' {
        Some(14u8)
    } else if c == 'f' || c == 'F' {
        Some(15u8)
    } else {
        None
    }
}

/// What parsing the two characters `c1 c2` as a hexadecimal byte gives:
/// either two digits, or a leading plus sign and one digit.
pub open spec fn spec_hex2(c1: char, c2: char) -> Option<u8> {
    if c1 == '+' {
        spec_hex_digit(c2)
    } else {
        match (spec_hex_digit(c1), spec_hex_digit(c2)) {
            (Some(h), Some(l)) => Some((h * 16 + l) as u8),
            _ => None,
        }
    }
}

/// `s` without its leading `#` characters.
pub open spec fn spec_strip_hash(s: Seq<char>) -> Seq<char>
    decreases s.len(),
{
    if s.len() > 0 && s[0] == '#' {
        spec_strip_hash(s.drop_first())
    } else {
        s
    }
}

/// One colour component of the stripped string `t`: characters `2k` and
/// `2k + 1` as a hexadecimal byte, or 255 when the string is too short
/// or malformed.
pub open spec fn spec_component(t: Seq<char>, k: int) -> u8 {
    if t.len() >= 6 {
        match spec_hex2(t[2 * k], t[2 * k + 1]) {
            Some(v) => v,
            None => 255u8,
        }
    } else {
        255u8
    }
}

/// The red, green and blue of a `#rrggbb` string; malformed components
/// fall back to 255.
pub open spec fn spec_rgb(s: Seq<char>) -> (u8, u8, u8) {
    let t = spec_strip_hash(s);
    (spec_component(t, 0), spec_component(t, 1), spec_component(t, 2))
}

/// Executable twin of [`spec_hex_digit`].
fn hex_digit(c: char) -> (r: Option<u8>)
    ensures
        r == spec_hex_digit(c),
{
    if c == '0' {
        Some(0u8)
    } else if c == '1' {
        Some(1u8)
    } else if c == '2' {
        Some(2u8)
    } else if c == '3' {
        Some(3u8)
    } else if c == '4' {
        Some(4u8)
    } else if c == '5' {
        Some(5u8)
    } else if c == '6' {
        Some(6u8)
    } else if c == '7' {
        Some(7u8)
    } else if c == '8' {
        Some(8u8)
    } else if c == '9' {
        Some(9u8)
    } else if c == 'a' || c == 'A' {
        Some(10u8)
    } else if c == 'b' || c == 'B' {
        Some(11u8)
    } else if c == 'c' || c == 'C' {
        Some(12u8)
    } else if c == 'd' || c == 'D' {
        Some(13u8)
    } else if c == 'e' || c == 'E' {
        Some(14u8)
    } else if c == 'f' || c == 'F' {
        Some(15u8)
    } else {
        None
    }
}

/// Parses one colour component of the stripped hex string `s` starting
/// at character `at`.
fn hex_component(s: &str, at: usize) -> (r: u8)
    requires
        s@.len() >= 6,
        at <= 4,
        at + 2 <= s@.len(),
    ensures
        r == match spec_hex2(s@[at as int], s@[at + 1]) {
            Some(v) => v,
            None => 255u8,
        },
{
    let c1 = s.get_char(at);
    let c2 = s.get_char(at + 1);
    if c1 == '+' {
        match hex_digit(c2) {
            Some(v) => v,
            None => 255,
        }
    } else {
        match (hex_digit(c1), hex_digit(c2)) {
            (Some(h), Some(l)) => h * 16 + l,
            _ => 255,
        }
    }
}

impl Theme {
    /// The colour string of the named field; an unknown field name gives
    /// white.
    pub open spec fn spec_field(self, f: Seq<char>) -> Seq<char> {
        if f == "background"@ {
            self.background@
        } else if f == "text"@ {
            self.text@
        } else if f == "header_bg"@ {
            self.header_bg@
        } else if f == "header_fg"@ {
            self.header_fg@
        } else if f == "table_header"@ {
            self.table_header@
        } else if f == "border"@ {
            self.border@
        } else if f == "highlight"@ {
            self.highlight@
        } else {
            "#ffffff"@
        }
    }

    /// The red, green and blue of the named colour field.
    pub fn color(&self, field: &str) -> (r: (u8, u8, u8))
        ensures
            r == spec_rgb(self.spec_field(field@)),
    {
        let hex: &str = if str_eq(field, "background") {
            self.background.as_str()
        } else if str_eq(field, "text") {
            self.text.as_str()
        } else if str_eq(field, "header_bg") {
            self.header_bg.as_str()
        } else if str_eq(field, "header_fg") {
            self.header_fg.as_str()
        } else if str_eq(field, "table_header") {
            self.table_header.as_str()
        } else if str_eq(field, "border") {
            self.border.as_str()
        } else if str_eq(field, "highlight") {
            self.highlight.as_str()
        } else {
            "#ffffff"
        };
        let n = hex.unicode_len();
        proof {
            assert(hex@.subrange(0, n as int) =~= hex@);
        }
        let mut start: usize = 0;
        while start < n
            invariant
                start <= n,
                n == hex@.len(),
                spec_strip_hash(hex@) == spec_strip_hash(hex@.subrange(start as int, n as int)),
            ensures
                start <= n,
                spec_strip_hash(hex@) == spec_strip_hash(hex@.subrange(start as int, n as int)),
                start == n || hex@[start as int] != '#',
            decreases n - start,
        {
            if hex.get_char(start) != '#' {
                break;
            }
            proof {
                assert(hex@.subrange(start as int, n as int).drop_first() =~= hex@.subrange(
                    start + 1,
                    n as int,
                ));
            }
            start = start + 1;
        }
        let stripped = hex.substring_char(start, n);
        proof {
            assert(stripped@ == spec_strip_hash(hex@));
        }
        if n - start >= 6 {
            let r = (
                hex_component(stripped, 0),
                hex_component(stripped, 2),
                hex_component(stripped, 4),
            );
            r
        } else {
            (255, 255, 255)
        }
    }
}

/// One named theme.
pub struct ThemeEntry {
    pub name: String,
    pub theme: Theme,
}

impl Clone for ThemeEntry {
    fn clone(&self) -> (res: Self)
        ensures
            res == *self,
    {
        ThemeEntry { name: self.name.clone(), theme: self.theme.clone() }
    }
}

/// The themes the application knows, by name; the built-in `dark` theme
/// is always among them.
pub struct ThemeConfig {
    entries: Vec<ThemeEntry>,
}

impl Clone for ThemeConfig {
    fn clone(&self) -> (res: Self)
        ensures
            res.entries_seq() == self.entries_seq(),
    {
        let entries = self.entries.clone();
        proof {
            assert(entries@ =~= self.entries@);
        }
        ThemeConfig { entries }
    }
}

/// The first theme of `s` named `n`, if any.
pub open spec fn seq_theme(s: Seq<ThemeEntry>, n: Seq<char>) -> Option<Theme>
    decreases s.len(),
{
    if s.len() == 0 {
        None
    } else if s[0].name@ == n {
        Some(s[0].theme)
    } else {
        seq_theme(s.drop_first(), n)
    }
}

/// Looking a name up in concatenated theme stores reads the left store
/// first.
proof fn lemma_seq_theme_concat(a: Seq<ThemeEntry>, b: Seq<ThemeEntry>, n: Seq<char>)
    ensures
        seq_theme(a + b, n) == if seq_theme(a, n) is Some {
            seq_theme(a, n)
        } else {
            seq_theme(b, n)
        },
    decreases a.len(),
{
    if a.len() == 0 {
        assert(a + b =~= b);
    } else {
        assert((a + b).drop_first() =~= a.drop_first() + b);
        assert((a + b)[0] == a[0]);
        lemma_seq_theme_concat(a.drop_first(), b, n);
    }
}

/// Looking a name up in a one-theme store.
proof fn lemma_seq_theme_singleton(e: ThemeEntry, n: Seq<char>)
    ensures
        seq_theme(seq![e], n) == if e.name@ == n {
            Some(e.theme)
        } else {
            None::<Theme>
        },
{
    assert(seq![e].drop_first() =~= Seq::<ThemeEntry>::empty());
    assert(seq_theme(Seq::<ThemeEntry>::empty(), n) is None);
    assert(seq![e][0] == e);
}

/// True of the built-in `dark` colour scheme.
pub open spec fn spec_is_dark(t: Theme) -> bool {
    &&& t.background@ == "#1e1e1e"@
    &&& t.text@ == "#dcdcdc"@
    &&& t.header_bg@ == "#0064c8"@
    &&& t.header_fg@ == "#ffffff"@
    &&& t.table_header@ == "#ffff00"@
    &&& t.border@ == "#646464"@
    &&& t.highlight@ == "#00c800"@
}

/// The built-in `dark` theme.
pub fn dark_theme() -> (r: Theme)
    ensures
        spec_is_dark(r),
{
    Theme {
        background: "#1e1e1e".to_owned(),
        text: "#dcdcdc".to_owned(),
        header_bg: "#0064c8".to_owned(),
        header_fg: "#ffffff".to_owned(),
        table_header: "#ffff00".to_owned(),
        border: "#646464".to_owned(),
        highlight: "#00c800".to_owned(),
    }
}

impl ThemeConfig {
    /// The stored themes.
    pub closed spec fn entries_seq(self) -> Seq<ThemeEntry> {
        self.entries@
    }

    /// The theme stored under `n`.
    pub open spec fn spec_theme(self, n: Seq<char>) -> Option<Theme> {
        seq_theme(self.entries_seq(), n)
    }

    /// A `dark` theme is present, so every lookup can fall back to it.
    pub open spec fn wf(self) -> bool {
        self.spec_theme("dark"@) is Some
    }

    /// The index of the first theme named `name`.
    fn find_idx(&self, name: &str) -> (r: Option<usize>)
        ensures
            match r {
                Some(i) => {
                    &&& i < self.entries_seq().len()
                    &&& self.entries_seq()[i as int].name@ == name@
                    &&& seq_theme(self.entries_seq(), name@) == Some(
                        self.entries_seq()[i as int].theme,
                    )
                },
                None => seq_theme(self.entries_seq(), name@) is None,
            },
    {
        let n = self.entries.len();
        let ghost s = self.entries@;
        let mut i: usize = 0;
        while i < n
            invariant
                n == s.len(),
                s == self.entries@,
                i <= n,
                seq_theme(s.subrange(0, i as int), name@) is None,
            decreases n - i,
        {
            let hit = str_eq(self.entries[i].name.as_str(), name);
            proof {
                let pre = s.subrange(0, i as int);
                let pre1 = s.subrange(0, i + 1);
                assert(pre1 =~= pre + seq![s[i as int]]);
                lemma_seq_theme_concat(pre, seq![s[i as int]], name@);
                lemma_seq_theme_singleton(s[i as int], name@);
                assert(s =~= pre1 + s.subrange(i + 1, n as int));
                lemma_seq_theme_concat(pre1, s.subrange(i + 1, n as int), name@);
            }
            if hit {
                return Some(i);
            }
            i = i + 1;
        }
        proof {
            assert(s.subrange(0, n as int) =~= s);
        }
        None
    }

    /// A theme set built from loaded entries; when no entry is named
    /// `dark`, the built-in `dark` theme is appended so lookups can
    /// always fall back to it.
    pub fn from_entries(entries: Vec<ThemeEntry>) -> (r: ThemeConfig)
        ensures
            r.wf(),
            forall|n: Seq<char>|
                seq_theme(entries@, n) is Some ==> #[trigger] r.spec_theme(n) == seq_theme(
                    entries@,
                    n,
                ),
            seq_theme(entries@, "dark"@) is None ==> (r.spec_theme("dark"@) matches Some(t)
                && spec_is_dark(t)),
            forall|n: Seq<char>|
                n != "dark"@ && seq_theme(entries@, n) is None ==> #[trigger] r.spec_theme(n)
                    is None,
    {
        let ghost orig = entries@;
        let cfg = ThemeConfig { entries };
        match cfg.find_idx("dark") {
            Some(_) => cfg,
            None => {
                let mut entries = cfg.entries;
                let dark = ThemeEntry { name: "dark".to_owned(), theme: dark_theme() };
                entries.push(dark);
                let r = ThemeConfig { entries };
                proof {
                    assert forall|n: Seq<char>| #[trigger]
                        seq_theme(r.entries_seq(), n) == if seq_theme(orig, n) is Some {
                            seq_theme(orig, n)
                        } else if n == "dark"@ {
                            Some(dark.theme)
                        } else {
                            None::<Theme>
                        } by {
                        assert(r.entries_seq() =~= orig + seq![dark]);
                        lemma_seq_theme_concat(orig, seq![dark], n);
                        lemma_seq_theme_singleton(dark, n);
                    }
                }
                r
            },
        }
    }

    /// The theme named `name`, or the `dark` theme when `name` is
    /// unknown.
    pub fn get(&self, name: &str) -> (r: &Theme)
        requires
            self.wf(),
        ensures
            match self.spec_theme(name@) {
                Some(t) => *r == t,
                None => Some(*r) == self.spec_theme("dark"@),
            },
    {
        match self.find_idx(name) {
            Some(i) => &self.entries[i].theme,
            None => {
                match self.find_idx("dark") {
                    Some(j) => &self.entries[j].theme,
                    None => {
                        proof {
                            assert(false);
                        }
                        vstd::pervasive::unreached()
                    },
                }
            },
        }
    }
}

} // verus!
