//! Navigation history and the other decisions the main window makes.

use vstd::prelude::*;
use crate::path::opt_view;
use crate::text::chars_of;
use crate::config::{ThemeColors, ThemeConfig, ThemeMode, Config, GeneralConfig, ToolsConfig, SidebarConfig,
    UiConfig, ViewerConfig, clone_opt, clone_strings};
use crate::fs::browser::{SortField, SortDirection, FileEntry, home_dir, size_text, modified_text, icon_for,
    list_directory, listed_entries, stably_sorted};
use crate::path::{path_join, join, path_extension};
use crate::text::{str_eq, string_from_chars, decimal, push_decimal, push_str};

verus! {

/// Back/forward navigation history: the visited paths and the position of
/// the current one among them.
pub struct NavState {
    history: Vec<String>,
    current_index: usize,
}

impl NavState {
    #[verifier::type_invariant]
    spec fn inv(self) -> bool {
        self.current_index < self.history@.len()
    }

    /// The visited paths, oldest first.
    pub closed spec fn history(&self) -> Seq<Seq<char>> {
        self.history@.map_values(|s: String| s@)
    }

    /// The position of the current path in the history.
    pub closed spec fn index(&self) -> int {
        self.current_index as int
    }

    /// The position lies within the history; every history that this
    /// type hands out is valid.
    pub open spec fn valid(&self) -> bool {
        0 <= self.index() < self.history().len()
    }

    /// A history holding only `initial`.
    pub fn new(initial: String) -> (r: NavState)
        ensures
            r.history() == seq![initial@],
            r.index() == 0,
            r.valid(),
    {
        let r = NavState { history: vec![initial], current_index: 0 };
        assert(r.history() =~= seq![r.history@[0]@]);
        r
    }

    /// The current path.
    pub fn current(&self) -> (r: &String)
        ensures
            r@ == self.history()[self.index()],
            self.valid(),
    {
        proof {
            use_type_invariant(self);
        }
        &self.history[self.current_index]
    }

    /// Goes to `path`: the paths after the current one are dropped, `path`
    /// is added and becomes the current one.
    pub fn navigate(&mut self, path: String)
        ensures
            final(self).history() == old(self).history().take(old(self).index() + 1).push(path@),
            final(self).index() == old(self).index() + 1,
            old(self).valid() && final(self).valid(),
    {
        proof {
            use_type_invariant(&*self);
        }
        let ghost before = self.history();
        let ghost at = self.index();
        let mut taken = NavState { history: vec![String::new()], current_index: 0 };
        std::mem::swap(self, &mut taken);
        proof {
            use_type_invariant(&taken);
        }
        let NavState { mut history, current_index } = taken;
        let len = history.len();
        assert(current_index < len);
        history.truncate(current_index + 1);
        history.push(path);
        let last = history.len() - 1;
        *self = NavState { history, current_index: last };
        assert(self.history() =~= before.take(at + 1).push(path@));
    }

    /// Steps back one path, when there is one before the current one, and
    /// gives the new current path.
    pub fn go_back(&mut self) -> (r: Option<String>)
        ensures
            final(self).history() == old(self).history(),
            old(self).index() > 0 ==> final(self).index() == old(self).index() - 1
                && opt_view(r) == Some(old(self).history()[old(self).index() - 1]),
            old(self).index() == 0 ==> final(self).index() == 0 && r is None,
            old(self).valid() && final(self).valid(),
    {
        proof {
            use_type_invariant(&*self);
        }
        if self.current_index > 0 {
            self.current_index = self.current_index - 1;
            Some(self.history[self.current_index].clone())
        } else {
            None
        }
    }

    /// Steps forward one path, when there is one after the current one,
    /// and gives the new current path.
    pub fn go_forward(&mut self) -> (r: Option<String>)
        ensures
            final(self).history() == old(self).history(),
            old(self).index() < old(self).history().len() - 1 ==> final(self).index() == old(self).index() + 1
                && opt_view(r) == Some(old(self).history()[old(self).index() + 1]),
            old(self).index() >= old(self).history().len() - 1 ==> final(self).index() == old(self).index()
                && r is None,
            old(self).valid() && final(self).valid(),
    {
        proof {
            use_type_invariant(&*self);
        }
        if self.current_index < self.history.len() - 1 {
            self.current_index = self.current_index + 1;
            Some(self.history[self.current_index].clone())
        } else {
            None
        }
    }

    /// The path one step back, when there is one; the history does not
    /// change.
    pub fn back_target(&self) -> (r: Option<String>)
        ensures
            self.index() > 0 ==> opt_view(r) == Some(self.history()[self.index() - 1]),
            self.index() == 0 ==> r is None,
            self.valid(),
    {
        proof {
            use_type_invariant(self);
        }
        if self.current_index > 0 {
            Some(self.history[self.current_index - 1].clone())
        } else {
            None
        }
    }

    /// The path one step forward, when there is one; the history does not
    /// change.
    pub fn forward_target(&self) -> (r: Option<String>)
        ensures
            self.index() < self.history().len() - 1 ==> opt_view(r) == Some(self.history()[self.index() + 1]),
            self.index() >= self.history().len() - 1 ==> r is None,
            self.valid(),
    {
        proof {
            use_type_invariant(self);
        }
        if self.current_index < self.history.len() - 1 {
            Some(self.history[self.current_index + 1].clone())
        } else {
            None
        }
    }

    /// Whether there is a path before the current one.
    pub fn can_go_back(&self) -> (r: bool)
        ensures
            r == (self.index() > 0),
            self.valid(),
    {
        proof {
            use_type_invariant(self);
        }
        self.current_index > 0
    }

    /// Whether there is a path after the current one.
    pub fn can_go_forward(&self) -> (r: bool)
        ensures
            r == (self.index() < self.history().len() - 1),
            self.valid(),
    {
        proof {
            use_type_invariant(self);
        }
        self.current_index < self.history.len() - 1
    }
}


/// After navigating to a path it is the current one, the path that was
/// current is one step back, and there is nothing forward.
pub proof fn lemma_navigate_then_back(before: NavState, after: NavState, path: Seq<char>)
    requires
        before.valid(),
        after.history() == before.history().take(before.index() + 1).push(path),
        after.index() == before.index() + 1,
    ensures
        after.valid(),
        after.history()[after.index()] == path,
        after.index() > 0,
        after.history()[after.index() - 1] == before.history()[before.index()],
        after.index() == after.history().len() - 1,
{
}

/// Stepping back and then forward returns to the path that was current.
pub proof fn lemma_back_then_forward(before: NavState, back: NavState)
    requires
        before.valid(),
        before.index() > 0,
        back.history() == before.history(),
        back.index() == before.index() - 1,
    ensures
        back.index() < back.history().len() - 1,
        back.history()[back.index() + 1] == before.history()[before.index()],
{
}

/// Stepping forward and then back returns to the path that was current.
pub proof fn lemma_forward_then_back(before: NavState, forward: NavState)
    requires
        before.valid(),
        before.index() < before.history().len() - 1,
        forward.history() == before.history(),
        forward.index() == before.index() + 1,
    ensures
        forward.index() > 0,
        forward.history()[forward.index() - 1] == before.history()[before.index()],
{
}

/// A color as red, green and blue.
#[derive(Debug, Clone, Copy, PartialEq, Eq, Structural)]
pub struct Rgb {
    pub r: u8,
    pub g: u8,
    pub b: u8,
}

/// The value of a hexadecimal digit.
pub open spec fn hex_digit_value(c: char) -> Option<nat> {
    if '0' <= c && c <= '9' {
        Some((c as u32 - '0' as u32) as nat)
    } else if 'a' <= c && c <= 'f' {
        Some((c as u32 - 'a' as u32 + 10) as nat)
    } else if 'A' <= c && c <= 'F' {
        Some((c as u32 - 'A' as u32 + 10) as nat)
    } else {
        None
    }
}

/// What `u8::from_str_radix(_, 16)` gives for a two-character string: two
/// hex digits, or a `+` sign and one.
pub open spec fn hex_byte(a: char, b: char) -> Option<u8> {
    if a == '+' {
        match hex_digit_value(b) {
            Some(v) => Some(v as u8),
            None => None,
        }
    } else {
        match (hex_digit_value(a), hex_digit_value(b)) {
            (Some(x), Some(y)) => Some((16 * x + y) as u8),
            _ => None,
        }
    }
}

/// `s` without its leading `#` characters.
pub open spec fn without_hashes(s: Seq<char>) -> Seq<char>
    decreases s.len(),
{
    if s.len() > 0 && s[0] == '#' {
        without_hashes(s.drop_first())
    } else {
        s
    }
}

/// The number of bytes of a character in UTF-8.
pub open spec fn utf8_width(c: char) -> nat {
    let u = c as u32;
    if u < 0x80 {
        1
    } else if u < 0x800 {
        2
    } else if u < 0x10000 {
        3
    } else {
        4
    }
}

/// The number of bytes of a string in UTF-8.
pub open spec fn utf8_len(s: Seq<char>) -> nat
    decreases s.len(),
{
    if s.len() == 0 {
        0
    } else {
        utf8_width(s[0]) + utf8_len(s.drop_first())
    }
}

/// Whether a character is ASCII.
pub open spec fn is_ascii_char(c: char) -> bool {
    (c as u32) < 0x80
}

/// Whether every character is ASCII.
pub open spec fn all_ascii(s: Seq<char>) -> bool {
    forall|i: int| 0 <= i < s.len() ==> is_ascii_char(#[trigger] s[i])
}

/// The color a `#rrggbb` string names: after its leading `#`s, six ASCII
/// characters read as three bytes.
pub open spec fn hex_color(s: Seq<char>) -> Option<Rgb> {
    let t = without_hashes(s);
    if t.len() == 6 && all_ascii(t) {
        match (hex_byte(t[0], t[1]), hex_byte(t[2], t[3]), hex_byte(t[4], t[5])) {
            (Some(r), Some(g), Some(b)) => Some(Rgb { r, g, b }),
            _ => None,
        }
    } else {
        None
    }
}

/// Whether reading the string as a color slices it inside a character:
/// six bytes after the `#`s, byte 2 not on a character boundary, or the
/// first byte pair valid and byte 4 not on one.
pub open spec fn hex_slicing_panics(s: Seq<char>) -> bool {
    let t = without_hashes(s);
    let first_cut_ok = utf8_width(t[0]) == 2 || (utf8_width(t[0]) == 1 && utf8_width(t[1]) == 1);
    let second_cut_ok = utf8_width(t[2]) == 2 || (utf8_width(t[2]) == 1 && utf8_width(t[3]) == 1);
    &&& utf8_len(t) == 6
    &&& !all_ascii(t)
    &&& (!first_cut_ok || (utf8_width(t[0]) == 1 && utf8_width(t[1]) == 1 && hex_byte(t[0], t[1]) is Some
        && !second_cut_ok))
}

fn hex_digit_exec(c: char) -> (r: Option<u8>)
    ensures
        match r {
            Some(v) => hex_digit_value(c) == Some(v as nat) && v < 16,
            None => hex_digit_value(c) is None,
        },
{
    let u = c as u32;
    if '0' <= c && c <= '9' {
        Some((u - 48) as u8)
    } else if 'a' <= c && c <= 'f' {
        Some((u - 97 + 10) as u8)
    } else if 'A' <= c && c <= 'F' {
        Some((u - 65 + 10) as u8)
    } else {
        None
    }
}

fn hex_byte_exec(a: char, b: char) -> (r: Option<u8>)
    ensures
        r == hex_byte(a, b),
{
    if a == '+' {
        match hex_digit_exec(b) {
            Some(v) => Some(v),
            None => None,
        }
    } else {
        match (hex_digit_exec(a), hex_digit_exec(b)) {
            (Some(x), Some(y)) => Some(16 * x + y),
            _ => None,
        }
    }
}

fn utf8_width_exec(c: char) -> (r: usize)
    ensures
        r == utf8_width(c),
{
    let u = c as u32;
    if u < 0x80 {
        1
    } else if u < 0x800 {
        2
    } else if u < 0x10000 {
        3
    } else {
        4
    }
}

proof fn lemma_utf8_len_bounds(s: Seq<char>)
    ensures
        s.len() <= utf8_len(s) <= 4 * s.len(),
        all_ascii(s) ==> utf8_len(s) == s.len(),
        utf8_len(s) == s.len() ==> all_ascii(s),
    decreases s.len(),
{
    if s.len() > 0 {
        lemma_utf8_len_bounds(s.drop_first());
        if all_ascii(s) {
            assert forall|i: int| 0 <= i < s.drop_first().len() implies is_ascii_char(#[trigger] s.drop_first()[i]) by {
                assert(s.drop_first()[i] == s[i + 1]);
            }
        }
        if utf8_len(s) == s.len() {
            assert forall|i: int| 0 <= i < s.len() implies is_ascii_char(#[trigger] s[i]) by {
                if i > 0 {
                    assert(s[i] == s.drop_first()[i - 1]);
                }
            }
        }
    }
}

proof fn lemma_all_ascii_push(p: Seq<char>, c: char)
    ensures
        all_ascii(p.push(c)) == (all_ascii(p) && utf8_width(c) == 1),
{
    if all_ascii(p.push(c)) {
        assert(p.push(c)[p.len() as int] == c);
        assert forall|i: int| 0 <= i < p.len() implies is_ascii_char(#[trigger] p[i]) by {
            assert(p.push(c)[i] == p[i]);
        }
    }
    if all_ascii(p) && utf8_width(c) == 1 {
        assert forall|i: int| 0 <= i < p.len() + 1 implies is_ascii_char(#[trigger] p.push(c)[i]) by {
            if i < p.len() {
                assert(p.push(c)[i] == p[i]);
            }
        }
    }
}

/// Skips the leading `#`s of `v`, giving where the rest starts.
fn skip_hashes(v: &Vec<char>) -> (k: usize)
    ensures
        k <= v@.len(),
        without_hashes(v@) == v@.skip(k as int),
{
    let mut k: usize = 0;
    assert(v@.skip(0) =~= v@);
    while k < v.len() && v[k] == '#'
        invariant
            k <= v@.len(),
            without_hashes(v@) == without_hashes(v@.skip(k as int)),
        decreases v@.len() - k,
    {
        assert(v@.skip(k as int).drop_first() =~= v@.skip(k + 1));
        k = k + 1;
    }
    k
}

/// Whether reading `s` as a color would slice it inside a character.
pub fn hex_color_panics(s: &str) -> (r: bool)
    ensures
        r == hex_slicing_panics(s@),
{
    let v = chars_of(s);
    let k = skip_hashes(&v);
    let ghost t = v@.skip(k as int);
    let n = v.len() - k;
    let mut bytes: usize = 0;
    let mut ascii = true;
    let mut i: usize = k;
    while i < v.len()
        invariant
            k <= i <= v@.len(),
            t == v@.skip(k as int),
            v@ == s@,
            without_hashes(v@) == t,
            n == t.len(),
            bytes <= 6,
            i - k <= n,
            utf8_len(t) == bytes + utf8_len(v@.skip(i as int)),
            ascii == all_ascii(v@.subrange(k as int, i as int)),
        decreases v@.len() - i,
    {
        let w = utf8_width_exec(v[i]);
        assert(v@.skip(i as int).drop_first() =~= v@.skip(i + 1));
        assert(v@.subrange(k as int, i + 1) =~= v@.subrange(k as int, i as int).push(v[i as int]));
        proof {
            lemma_all_ascii_push(v@.subrange(k as int, i as int), v[i as int]);
        }
        ascii = ascii && w == 1;
        bytes = bytes + w;
        proof {
            assert(v@.skip(i as int)[0] == v@[i as int]);
            assert(utf8_len(v@.skip(i as int)) == w + utf8_len(v@.skip(i + 1)));
        }
        if bytes > 6 {
            proof {
                lemma_utf8_len_bounds(v@.skip(i + 1));
            }
            return false;
        }
        i = i + 1;
    }
    assert(v@.subrange(k as int, v@.len() as int) =~= t);
    if bytes != 6 || ascii {
        return false;
    }
    proof {
        lemma_utf8_len_bounds(t);
    }
    let w0 = utf8_width_exec(v[k]);
    let w1 = if n > 1 { utf8_width_exec(v[k + 1]) } else { 0 };
    let first_cut_ok = w0 == 2 || (w0 == 1 && w1 == 1);
    if !first_cut_ok {
        return true;
    }
    if w0 != 1 {
        return false;
    }
    proof {
        assert(utf8_len(t) == utf8_width(t[0]) + utf8_len(t.drop_first()));
        assert(utf8_len(t.drop_first()) == utf8_width(t[1]) + utf8_len(t.drop_first().drop_first()));
        lemma_utf8_len_bounds(t.drop_first().drop_first());
        assert(t.drop_first().drop_first().len() >= 1);
    }
    if hex_byte_exec(v[k], v[k + 1]).is_none() {
        return false;
    }
    let w2 = utf8_width_exec(v[k + 2]);
    let w3 = if n > 3 { utf8_width_exec(v[k + 3]) } else { 0 };
    proof {
        let t2 = t.drop_first().drop_first();
        assert(utf8_len(t2) == utf8_width(t2[0]) + utf8_len(t2.drop_first()));
        if utf8_width(t2[0]) == 1 {
            lemma_utf8_len_bounds(t2.drop_first());
        }
    }
    let second_cut_ok = w2 == 2 || (w2 == 1 && w3 == 1);
    !second_cut_ok
}

/// The color that a `#rrggbb` string names.
pub fn hex_to_color(hex: &str) -> (r: Option<Rgb>)
    requires
        !hex_slicing_panics(hex@),
    ensures
        r == hex_color(hex@),
{
    let v = chars_of(hex);
    let k = skip_hashes(&v);
    if v.len() - k != 6 {
        return None;
    }
    let mut i: usize = k;
    while i < v.len()
        invariant
            k <= i <= v@.len(),
            v@ == hex@,
            without_hashes(v@) == v@.skip(k as int),
            v@.len() - k == 6,
            forall|j: int| k <= j < i ==> is_ascii_char(#[trigger] v@[j]),
        decreases v@.len() - i,
    {
        if utf8_width_exec(v[i]) != 1 {
            proof {
                let t = v@.skip(k as int);
                assert(t[i - k] == v@[i as int]);
                assert(!is_ascii_char(t[i - k]));
                assert(!all_ascii(t));
                assert(without_hashes(hex@) == t);
            }
            return None;
        }
        i = i + 1;
    }
    let ghost t = v@.skip(k as int);
    assert(all_ascii(t)) by {
        assert forall|j: int| 0 <= j < t.len() implies is_ascii_char(#[trigger] t[j]) by {
            assert(t[j] == v@[k + j]);
        }
    }
    assert(t[0] == v@[k as int] && t[1] == v@[k + 1] && t[2] == v@[k + 2]);
    assert(t[3] == v@[k + 3] && t[4] == v@[k + 4] && t[5] == v@[k + 5]);
    let r = hex_byte_exec(v[k], v[k + 1]);
    let g = hex_byte_exec(v[k + 2], v[k + 3]);
    let b = hex_byte_exec(v[k + 4], v[k + 5]);
    match (r, g, b) {
        (Some(r), Some(g), Some(b)) => Some(Rgb { r, g, b }),
        _ => None,
    }
}

/// The theme tokens that configured colors override, in the order they
/// are applied (the selection background is not among them).
#[derive(Debug, Clone, Copy, PartialEq, Eq, Structural)]
pub enum ColorToken {
    BgWindow,
    BgSurface,
    BgSidebar,
    BgToolbar,
    BgHeader,
    BgStatus,
    BgRowAlt,
    BgHover,
    BgInput,
    TextPrimary,
    TextSecondary,
    TextTertiary,
    Border,
    BorderSubtle,
    BgTabActive,
    BgTabInactive,
    TextTabActive,
    TextTabInactive,
    BorderColumn,
    BgColumnActive,
    BgColumnInactive,
    BgInspector,
    BorderInspector,
    ShadowInspector,
}

/// The update one configured color makes: its token and color when the
/// color is given and reads as `#rrggbb`, else none.
pub open spec fn color_update(token: ColorToken, color: Option<String>) -> Seq<(ColorToken, Rgb)> {
    match color {
        Some(c) => match hex_color(c@) {
            Some(rgb) => seq![(token, rgb)],
            None => Seq::empty(),
        },
        None => Seq::empty(),
    }
}

/// Whether a configured color can be read without slicing inside a
/// character.
pub open spec fn color_parses_safely(color: Option<String>) -> bool {
    match color {
        Some(c) => !hex_slicing_panics(c@),
        None => true,
    }
}

/// Whether every color of the set can be read.
pub open spec fn theme_colors_parse_safely(c: ThemeColors) -> bool {
    color_parses_safely(c.bg_window)
        && color_parses_safely(c.bg_surface)
        && color_parses_safely(c.bg_sidebar)
        && color_parses_safely(c.bg_toolbar)
        && color_parses_safely(c.bg_header)
        && color_parses_safely(c.bg_status)
        && color_parses_safely(c.bg_row_alt)
        && color_parses_safely(c.bg_hover)
        && color_parses_safely(c.bg_input)
        && color_parses_safely(c.text_primary)
        && color_parses_safely(c.text_secondary)
        && color_parses_safely(c.text_tertiary)
        && color_parses_safely(c.border)
        && color_parses_safely(c.border_subtle)
        && color_parses_safely(c.bg_tab_active)
        && color_parses_safely(c.bg_tab_inactive)
        && color_parses_safely(c.text_tab_active)
        && color_parses_safely(c.text_tab_inactive)
        && color_parses_safely(c.border_column)
        && color_parses_safely(c.bg_column_active)
        && color_parses_safely(c.bg_column_inactive)
        && color_parses_safely(c.bg_inspector)
        && color_parses_safely(c.border_inspector)
        && color_parses_safely(c.shadow_inspector)
}

/// The updates that a set of configured colors makes, in order.
pub open spec fn theme_updates(c: ThemeColors) -> Seq<(ColorToken, Rgb)> {
    color_update(ColorToken::BgWindow, c.bg_window)
        + color_update(ColorToken::BgSurface, c.bg_surface)
        + color_update(ColorToken::BgSidebar, c.bg_sidebar)
        + color_update(ColorToken::BgToolbar, c.bg_toolbar)
        + color_update(ColorToken::BgHeader, c.bg_header)
        + color_update(ColorToken::BgStatus, c.bg_status)
        + color_update(ColorToken::BgRowAlt, c.bg_row_alt)
        + color_update(ColorToken::BgHover, c.bg_hover)
        + color_update(ColorToken::BgInput, c.bg_input)
        + color_update(ColorToken::TextPrimary, c.text_primary)
        + color_update(ColorToken::TextSecondary, c.text_secondary)
        + color_update(ColorToken::TextTertiary, c.text_tertiary)
        + color_update(ColorToken::Border, c.border)
        + color_update(ColorToken::BorderSubtle, c.border_subtle)
        + color_update(ColorToken::BgTabActive, c.bg_tab_active)
        + color_update(ColorToken::BgTabInactive, c.bg_tab_inactive)
        + color_update(ColorToken::TextTabActive, c.text_tab_active)
        + color_update(ColorToken::TextTabInactive, c.text_tab_inactive)
        + color_update(ColorToken::BorderColumn, c.border_column)
        + color_update(ColorToken::BgColumnActive, c.bg_column_active)
        + color_update(ColorToken::BgColumnInactive, c.bg_column_inactive)
        + color_update(ColorToken::BgInspector, c.bg_inspector)
        + color_update(ColorToken::BorderInspector, c.border_inspector)
        + color_update(ColorToken::ShadowInspector, c.shadow_inspector)
}

/// The configured color field of the same name as a token.
pub open spec fn field_color(c: ThemeColors, token: ColorToken) -> Option<String> {
    match token {
        ColorToken::BgWindow => c.bg_window,
        ColorToken::BgSurface => c.bg_surface,
        ColorToken::BgSidebar => c.bg_sidebar,
        ColorToken::BgToolbar => c.bg_toolbar,
        ColorToken::BgHeader => c.bg_header,
        ColorToken::BgStatus => c.bg_status,
        ColorToken::BgRowAlt => c.bg_row_alt,
        ColorToken::BgHover => c.bg_hover,
        ColorToken::BgInput => c.bg_input,
        ColorToken::TextPrimary => c.text_primary,
        ColorToken::TextSecondary => c.text_secondary,
        ColorToken::TextTertiary => c.text_tertiary,
        ColorToken::Border => c.border,
        ColorToken::BorderSubtle => c.border_subtle,
        ColorToken::BgTabActive => c.bg_tab_active,
        ColorToken::BgTabInactive => c.bg_tab_inactive,
        ColorToken::TextTabActive => c.text_tab_active,
        ColorToken::TextTabInactive => c.text_tab_inactive,
        ColorToken::BorderColumn => c.border_column,
        ColorToken::BgColumnActive => c.bg_column_active,
        ColorToken::BgColumnInactive => c.bg_column_inactive,
        ColorToken::BgInspector => c.bg_inspector,
        ColorToken::BorderInspector => c.border_inspector,
        ColorToken::ShadowInspector => c.shadow_inspector,
    }
}

/// Whether the field of the same name as `token` holds a color that reads
/// as `rgb`.
pub open spec fn field_reads_as(c: ThemeColors, token: ColorToken, rgb: Rgb) -> bool {
    match field_color(c, token) {
        Some(s) => hex_color(s@) == Some(rgb),
        None => false,
    }
}

proof fn lemma_color_update_contains(token: ColorToken, color: Option<String>, x: (ColorToken, Rgb))
    ensures
        color_update(token, color).contains(x) <==> x.0 == token && match color {
            Some(s) => hex_color(s@) == Some(x.1),
            None => false,
        },
{
    match color {
        Some(s) => match hex_color(s@) {
            Some(rgb) => {
                if x == (token, rgb) {
                    assert(color_update(token, color)[0] == x);
                }
            },
            None => {},
        },
        None => {},
    }
}

/// Each configured color sets the token of the same name and no other:
/// the theme updates hold `(token, rgb)` exactly when the field named like
/// `token` holds a color that reads as `rgb`.
pub proof fn lemma_theme_updates_follow_fields(c: ThemeColors, token: ColorToken, rgb: Rgb)
    ensures
        theme_updates(c).contains((token, rgb)) <==> field_reads_as(c, token, rgb),
{
    let x = (token, rgb);
    let p0 = color_update(ColorToken::BgWindow, c.bg_window);
    lemma_color_update_contains(ColorToken::BgWindow, c.bg_window, x);
    let u1 = color_update(ColorToken::BgSurface, c.bg_surface);
    let p1 = p0 + u1;
    vstd::seq_lib::lemma_seq_concat_contains_all_elements(p0, u1, x);
    lemma_color_update_contains(ColorToken::BgSurface, c.bg_surface, x);
    let u2 = color_update(ColorToken::BgSidebar, c.bg_sidebar);
    let p2 = p1 + u2;
    vstd::seq_lib::lemma_seq_concat_contains_all_elements(p1, u2, x);
    lemma_color_update_contains(ColorToken::BgSidebar, c.bg_sidebar, x);
    let u3 = color_update(ColorToken::BgToolbar, c.bg_toolbar);
    let p3 = p2 + u3;
    vstd::seq_lib::lemma_seq_concat_contains_all_elements(p2, u3, x);
    lemma_color_update_contains(ColorToken::BgToolbar, c.bg_toolbar, x);
    let u4 = color_update(ColorToken::BgHeader, c.bg_header);
    let p4 = p3 + u4;
    vstd::seq_lib::lemma_seq_concat_contains_all_elements(p3, u4, x);
    lemma_color_update_contains(ColorToken::BgHeader, c.bg_header, x);
    let u5 = color_update(ColorToken::BgStatus, c.bg_status);
    let p5 = p4 + u5;
    vstd::seq_lib::lemma_seq_concat_contains_all_elements(p4, u5, x);
    lemma_color_update_contains(ColorToken::BgStatus, c.bg_status, x);
    let u6 = color_update(ColorToken::BgRowAlt, c.bg_row_alt);
    let p6 = p5 + u6;
    vstd::seq_lib::lemma_seq_concat_contains_all_elements(p5, u6, x);
    lemma_color_update_contains(ColorToken::BgRowAlt, c.bg_row_alt, x);
    let u7 = color_update(ColorToken::BgHover, c.bg_hover);
    let p7 = p6 + u7;
    vstd::seq_lib::lemma_seq_concat_contains_all_elements(p6, u7, x);
    lemma_color_update_contains(ColorToken::BgHover, c.bg_hover, x);
    let u8 = color_update(ColorToken::BgInput, c.bg_input);
    let p8 = p7 + u8;
    vstd::seq_lib::lemma_seq_concat_contains_all_elements(p7, u8, x);
    lemma_color_update_contains(ColorToken::BgInput, c.bg_input, x);
    let u9 = color_update(ColorToken::TextPrimary, c.text_primary);
    let p9 = p8 + u9;
    vstd::seq_lib::lemma_seq_concat_contains_all_elements(p8, u9, x);
    lemma_color_update_contains(ColorToken::TextPrimary, c.text_primary, x);
    let u10 = color_update(ColorToken::TextSecondary, c.text_secondary);
    let p10 = p9 + u10;
    vstd::seq_lib::lemma_seq_concat_contains_all_elements(p9, u10, x);
    lemma_color_update_contains(ColorToken::TextSecondary, c.text_secondary, x);
    let u11 = color_update(ColorToken::TextTertiary, c.text_tertiary);
    let p11 = p10 + u11;
    vstd::seq_lib::lemma_seq_concat_contains_all_elements(p10, u11, x);
    lemma_color_update_contains(ColorToken::TextTertiary, c.text_tertiary, x);
    let u12 = color_update(ColorToken::Border, c.border);
    let p12 = p11 + u12;
    vstd::seq_lib::lemma_seq_concat_contains_all_elements(p11, u12, x);
    lemma_color_update_contains(ColorToken::Border, c.border, x);
    let u13 = color_update(ColorToken::BorderSubtle, c.border_subtle);
    let p13 = p12 + u13;
    vstd::seq_lib::lemma_seq_concat_contains_all_elements(p12, u13, x);
    lemma_color_update_contains(ColorToken::BorderSubtle, c.border_subtle, x);
    let u14 = color_update(ColorToken::BgTabActive, c.bg_tab_active);
    let p14 = p13 + u14;
    vstd::seq_lib::lemma_seq_concat_contains_all_elements(p13, u14, x);
    lemma_color_update_contains(ColorToken::BgTabActive, c.bg_tab_active, x);
    let u15 = color_update(ColorToken::BgTabInactive, c.bg_tab_inactive);
    let p15 = p14 + u15;
    vstd::seq_lib::lemma_seq_concat_contains_all_elements(p14, u15, x);
    lemma_color_update_contains(ColorToken::BgTabInactive, c.bg_tab_inactive, x);
    let u16 = color_update(ColorToken::TextTabActive, c.text_tab_active);
    let p16 = p15 + u16;
    vstd::seq_lib::lemma_seq_concat_contains_all_elements(p15, u16, x);
    lemma_color_update_contains(ColorToken::TextTabActive, c.text_tab_active, x);
    let u17 = color_update(ColorToken::TextTabInactive, c.text_tab_inactive);
    let p17 = p16 + u17;
    vstd::seq_lib::lemma_seq_concat_contains_all_elements(p16, u17, x);
    lemma_color_update_contains(ColorToken::TextTabInactive, c.text_tab_inactive, x);
    let u18 = color_update(ColorToken::BorderColumn, c.border_column);
    let p18 = p17 + u18;
    vstd::seq_lib::lemma_seq_concat_contains_all_elements(p17, u18, x);
    lemma_color_update_contains(ColorToken::BorderColumn, c.border_column, x);
    let u19 = color_update(ColorToken::BgColumnActive, c.bg_column_active);
    let p19 = p18 + u19;
    vstd::seq_lib::lemma_seq_concat_contains_all_elements(p18, u19, x);
    lemma_color_update_contains(ColorToken::BgColumnActive, c.bg_column_active, x);
    let u20 = color_update(ColorToken::BgColumnInactive, c.bg_column_inactive);
    let p20 = p19 + u20;
    vstd::seq_lib::lemma_seq_concat_contains_all_elements(p19, u20, x);
    lemma_color_update_contains(ColorToken::BgColumnInactive, c.bg_column_inactive, x);
    let u21 = color_update(ColorToken::BgInspector, c.bg_inspector);
    let p21 = p20 + u21;
    vstd::seq_lib::lemma_seq_concat_contains_all_elements(p20, u21, x);
    lemma_color_update_contains(ColorToken::BgInspector, c.bg_inspector, x);
    let u22 = color_update(ColorToken::BorderInspector, c.border_inspector);
    let p22 = p21 + u22;
    vstd::seq_lib::lemma_seq_concat_contains_all_elements(p21, u22, x);
    lemma_color_update_contains(ColorToken::BorderInspector, c.border_inspector, x);
    let u23 = color_update(ColorToken::ShadowInspector, c.shadow_inspector);
    let p23 = p22 + u23;
    vstd::seq_lib::lemma_seq_concat_contains_all_elements(p22, u23, x);
    lemma_color_update_contains(ColorToken::ShadowInspector, c.shadow_inspector, x);
    assert(theme_updates(c) == p23);
    match token {
        ColorToken::BgWindow => {},
        ColorToken::BgSurface => {},
        ColorToken::BgSidebar => {},
        ColorToken::BgToolbar => {},
        ColorToken::BgHeader => {},
        ColorToken::BgStatus => {},
        ColorToken::BgRowAlt => {},
        ColorToken::BgHover => {},
        ColorToken::BgInput => {},
        ColorToken::TextPrimary => {},
        ColorToken::TextSecondary => {},
        ColorToken::TextTertiary => {},
        ColorToken::Border => {},
        ColorToken::BorderSubtle => {},
        ColorToken::BgTabActive => {},
        ColorToken::BgTabInactive => {},
        ColorToken::TextTabActive => {},
        ColorToken::TextTabInactive => {},
        ColorToken::BorderColumn => {},
        ColorToken::BgColumnActive => {},
        ColorToken::BgColumnInactive => {},
        ColorToken::BgInspector => {},
        ColorToken::BorderInspector => {},
        ColorToken::ShadowInspector => {},
    }
}

fn push_update(out: &mut Vec<(ColorToken, Rgb)>, token: ColorToken, color: &Option<String>)
    requires
        color_parses_safely(*color),
    ensures
        final(out)@ == old(out)@ + color_update(token, *color),
{
    match color {
        Some(c) => match hex_to_color(c.as_str()) {
            Some(rgb) => {
                out.push((token, rgb));
            },
            None => {
                assert(old(out)@ + Seq::<(ColorToken, Rgb)>::empty() =~= old(out)@);
            },
        },
        None => {
            assert(old(out)@ + Seq::<(ColorToken, Rgb)>::empty() =~= old(out)@);
        },
    }
}

/// The token updates that applying a set of configured colors makes: each
/// given color that reads as `#rrggbb`, for both the light and the dark
/// theme.
pub fn theme_color_updates(colors: &ThemeColors) -> (r: Vec<(ColorToken, Rgb)>)
    requires
        theme_colors_parse_safely(*colors),
    ensures
        r@ == theme_updates(*colors),
{
    let mut out: Vec<(ColorToken, Rgb)> = Vec::new();
    let ghost mut acc = out@;
    push_update(&mut out, ColorToken::BgWindow, &colors.bg_window);
    assert(out@ =~= acc + color_update(ColorToken::BgWindow, colors.bg_window));
    proof { acc = out@; }
    push_update(&mut out, ColorToken::BgSurface, &colors.bg_surface);
    assert(out@ =~= acc + color_update(ColorToken::BgSurface, colors.bg_surface));
    proof { acc = out@; }
    push_update(&mut out, ColorToken::BgSidebar, &colors.bg_sidebar);
    assert(out@ =~= acc + color_update(ColorToken::BgSidebar, colors.bg_sidebar));
    proof { acc = out@; }
    push_update(&mut out, ColorToken::BgToolbar, &colors.bg_toolbar);
    assert(out@ =~= acc + color_update(ColorToken::BgToolbar, colors.bg_toolbar));
    proof { acc = out@; }
    push_update(&mut out, ColorToken::BgHeader, &colors.bg_header);
    assert(out@ =~= acc + color_update(ColorToken::BgHeader, colors.bg_header));
    proof { acc = out@; }
    push_update(&mut out, ColorToken::BgStatus, &colors.bg_status);
    assert(out@ =~= acc + color_update(ColorToken::BgStatus, colors.bg_status));
    proof { acc = out@; }
    push_update(&mut out, ColorToken::BgRowAlt, &colors.bg_row_alt);
    assert(out@ =~= acc + color_update(ColorToken::BgRowAlt, colors.bg_row_alt));
    proof { acc = out@; }
    push_update(&mut out, ColorToken::BgHover, &colors.bg_hover);
    assert(out@ =~= acc + color_update(ColorToken::BgHover, colors.bg_hover));
    proof { acc = out@; }
    push_update(&mut out, ColorToken::BgInput, &colors.bg_input);
    assert(out@ =~= acc + color_update(ColorToken::BgInput, colors.bg_input));
    proof { acc = out@; }
    push_update(&mut out, ColorToken::TextPrimary, &colors.text_primary);
    assert(out@ =~= acc + color_update(ColorToken::TextPrimary, colors.text_primary));
    proof { acc = out@; }
    push_update(&mut out, ColorToken::TextSecondary, &colors.text_secondary);
    assert(out@ =~= acc + color_update(ColorToken::TextSecondary, colors.text_secondary));
    proof { acc = out@; }
    push_update(&mut out, ColorToken::TextTertiary, &colors.text_tertiary);
    assert(out@ =~= acc + color_update(ColorToken::TextTertiary, colors.text_tertiary));
    proof { acc = out@; }
    push_update(&mut out, ColorToken::Border, &colors.border);
    assert(out@ =~= acc + color_update(ColorToken::Border, colors.border));
    proof { acc = out@; }
    push_update(&mut out, ColorToken::BorderSubtle, &colors.border_subtle);
    assert(out@ =~= acc + color_update(ColorToken::BorderSubtle, colors.border_subtle));
    proof { acc = out@; }
    push_update(&mut out, ColorToken::BgTabActive, &colors.bg_tab_active);
    assert(out@ =~= acc + color_update(ColorToken::BgTabActive, colors.bg_tab_active));
    proof { acc = out@; }
    push_update(&mut out, ColorToken::BgTabInactive, &colors.bg_tab_inactive);
    assert(out@ =~= acc + color_update(ColorToken::BgTabInactive, colors.bg_tab_inactive));
    proof { acc = out@; }
    push_update(&mut out, ColorToken::TextTabActive, &colors.text_tab_active);
    assert(out@ =~= acc + color_update(ColorToken::TextTabActive, colors.text_tab_active));
    proof { acc = out@; }
    push_update(&mut out, ColorToken::TextTabInactive, &colors.text_tab_inactive);
    assert(out@ =~= acc + color_update(ColorToken::TextTabInactive, colors.text_tab_inactive));
    proof { acc = out@; }
    push_update(&mut out, ColorToken::BorderColumn, &colors.border_column);
    assert(out@ =~= acc + color_update(ColorToken::BorderColumn, colors.border_column));
    proof { acc = out@; }
    push_update(&mut out, ColorToken::BgColumnActive, &colors.bg_column_active);
    assert(out@ =~= acc + color_update(ColorToken::BgColumnActive, colors.bg_column_active));
    proof { acc = out@; }
    push_update(&mut out, ColorToken::BgColumnInactive, &colors.bg_column_inactive);
    assert(out@ =~= acc + color_update(ColorToken::BgColumnInactive, colors.bg_column_inactive));
    proof { acc = out@; }
    push_update(&mut out, ColorToken::BgInspector, &colors.bg_inspector);
    assert(out@ =~= acc + color_update(ColorToken::BgInspector, colors.bg_inspector));
    proof { acc = out@; }
    push_update(&mut out, ColorToken::BorderInspector, &colors.border_inspector);
    assert(out@ =~= acc + color_update(ColorToken::BorderInspector, colors.border_inspector));
    proof { acc = out@; }
    push_update(&mut out, ColorToken::ShadowInspector, &colors.shadow_inspector);
    assert(out@ =~= acc + color_update(ColorToken::ShadowInspector, colors.shadow_inspector));
    proof { acc = out@; }
    out
}

/// The theme tokens of the window: each color token in its light and its
/// dark variant (`true` for dark).
pub type TokenKey = (ColorToken, bool);

/// The tokens after the updates are applied in order: each update sets
/// its token's light and dark variant to its color.
pub open spec fn apply_updates(tokens: Map<TokenKey, Rgb>, updates: Seq<(ColorToken, Rgb)>) -> Map<
    TokenKey,
    Rgb,
>
    decreases updates.len(),
{
    if updates.len() == 0 {
        tokens
    } else {
        let (t, c) = updates.last();
        apply_updates(tokens, updates.drop_last()).insert((t, false), c).insert((t, true), c)
    }
}

/// The color that the last update of token `k` sets, if any update does.
pub open spec fn last_update(updates: Seq<(ColorToken, Rgb)>, k: TokenKey) -> Option<Rgb>
    decreases updates.len(),
{
    if updates.len() == 0 {
        None
    } else if updates.last().0 == k.0 {
        Some(updates.last().1)
    } else {
        last_update(updates.drop_last(), k)
    }
}

/// After applying updates, a token holds the color of its last update,
/// or what it held before when no update touches it.
pub proof fn lemma_apply_updates(tokens: Map<TokenKey, Rgb>, updates: Seq<(ColorToken, Rgb)>, k: TokenKey)
    ensures
        apply_updates(tokens, updates).contains_key(k) == (last_update(updates, k) is Some || tokens.contains_key(k)),
        last_update(updates, k) is Some ==> apply_updates(tokens, updates)[k] == last_update(updates, k)->0,
        last_update(updates, k) is None ==> apply_updates(tokens, updates)[k] == tokens[k],
    decreases updates.len(),
{
    if updates.len() > 0 {
        lemma_apply_updates(tokens, updates.drop_last(), k);
        let t = updates.last().0;
        if k.0 == t {
            assert(k == (t, false) || k == (t, true));
        } else {
            assert(k != (t, false) && k != (t, true));
        }
    }
}

/// Applying the same updates twice leaves the tokens as applying them once.
pub proof fn lemma_apply_updates_twice(tokens: Map<TokenKey, Rgb>, updates: Seq<(ColorToken, Rgb)>)
    ensures
        apply_updates(apply_updates(tokens, updates), updates) == apply_updates(tokens, updates),
{
    let once = apply_updates(tokens, updates);
    let twice = apply_updates(once, updates);
    assert forall|k: TokenKey| #[trigger] twice.contains_key(k) == once.contains_key(k) by {
        lemma_apply_updates(tokens, updates, k);
        lemma_apply_updates(once, updates, k);
    }
    assert forall|k: TokenKey| twice.contains_key(k) implies #[trigger] twice[k] == once[k] by {
        lemma_apply_updates(tokens, updates, k);
        lemma_apply_updates(once, updates, k);
    }
    assert(twice =~= once);
}

/// Applying a set of configured colors to the theme twice is the same as
/// applying it once.
pub proof fn lemma_theme_colors_idempotent(tokens: Map<TokenKey, Rgb>, colors: ThemeColors)
    ensures
        apply_updates(apply_updates(tokens, theme_updates(colors)), theme_updates(colors)) == apply_updates(
            tokens,
            theme_updates(colors),
        ),
{
    lemma_apply_updates_twice(tokens, theme_updates(colors));
}


/// The column names that a sort can be requested by.
pub open spec fn column_field(column: Seq<char>) -> Option<SortField> {
    if column == "name"@ {
        Some(SortField::Name)
    } else if column == "size"@ {
        Some(SortField::Size)
    } else if column == "modified"@ {
        Some(SortField::Modified)
    } else {
        None
    }
}

/// The field and direction that the listing is sorted by.
#[derive(Debug, Clone, Copy, PartialEq, Eq, Structural)]
pub struct SortState {
    pub field: SortField,
    pub direction: SortDirection,
}

/// The other direction.
pub open spec fn flipped(d: SortDirection) -> SortDirection {
    match d {
        SortDirection::Ascending => SortDirection::Descending,
        SortDirection::Descending => SortDirection::Ascending,
    }
}

/// The sort after a request for `field`: the same field again flips the
/// direction, another field sorts by it ascending.
pub open spec fn after_request(s: SortState, field: SortField) -> SortState {
    if s.field == field {
        SortState { field, direction: flipped(s.direction) }
    } else {
        SortState { field, direction: SortDirection::Ascending }
    }
}

/// The word a field is shown by.
pub open spec fn field_word(f: SortField) -> Seq<char> {
    match f {
        SortField::Name => "name"@,
        SortField::Size => "size"@,
        SortField::Modified => "modified"@,
    }
}

/// The arrow a direction is shown by.
pub open spec fn direction_arrow(d: SortDirection) -> Seq<char> {
    match d {
        SortDirection::Ascending => "\u{2191}"@,
        SortDirection::Descending => "\u{2193}"@,
    }
}

impl SortState {
    /// The sort a window starts with: by name, ascending.
    pub fn new() -> (r: SortState)
        ensures
            r == (SortState { field: SortField::Name, direction: SortDirection::Ascending }),
    {
        SortState { field: SortField::Name, direction: SortDirection::Ascending }
    }

    /// Handles a click on a column header; tells whether the column is one
    /// that sorts (an unknown column changes nothing).
    pub fn request(&mut self, column: &str) -> (r: bool)
        ensures
            match column_field(column@) {
                Some(f) => r && *final(self) == after_request(*old(self), f),
                None => !r && *final(self) == *old(self),
            },
    {
        let field = if str_eq(column, "name") {
            SortField::Name
        } else if str_eq(column, "size") {
            SortField::Size
        } else if str_eq(column, "modified") {
            SortField::Modified
        } else {
            return false;
        };
        if self.field == field {
            self.direction = match self.direction {
                SortDirection::Ascending => SortDirection::Descending,
                SortDirection::Descending => SortDirection::Ascending,
            };
        } else {
            self.field = field;
            self.direction = SortDirection::Ascending;
        }
        true
    }

    /// The status line shown after sorting: "Sorted by name ↑".
    pub fn status_message(&self) -> (r: String)
        ensures
            r@ == "Sorted by "@ + field_word(self.field) + " "@ + direction_arrow(self.direction),
    {
        let mut s = String::from_str("Sorted by ");
        match self.field {
            SortField::Name => s.append("name"),
            SortField::Size => s.append("size"),
            SortField::Modified => s.append("modified"),
        }
        s.append(" ");
        match self.direction {
            SortDirection::Ascending => s.append("\u{2191}"),
            SortDirection::Descending => s.append("\u{2193}"),
        }
        s
    }
}

/// Asking twice for the column that the listing is sorted by gives back
/// the sort it had; asking for another column sorts by it ascending.
pub proof fn lemma_sort_request_toggles(s: SortState, f: SortField)
    ensures
        s.field == f ==> after_request(after_request(s, f), f) == s,
        s.field != f ==> after_request(s, f).direction == SortDirection::Ascending,
        after_request(s, f).field == f,
{
}

/// The status line after a filename search that found `count` files.
pub open spec fn search_status_text(count: nat, query: Seq<char>) -> Seq<char> {
    decimal(count) + " result"@ + (if count == 1 { ""@ } else { "s"@ }) + " for \""@ + query + "\""@
}

/// The status line after a filename search: "3 results for \"q\"".
pub fn search_status(count: u64, query: &str) -> (r: String)
    ensures
        r@ == search_status_text(count as nat, query@),
{
    let mut out: Vec<char> = Vec::new();
    push_decimal(&mut out, count);
    push_str(&mut out, " result");
    if count == 1 {
        push_str(&mut out, "");
    } else {
        push_str(&mut out, "s");
    }
    push_str(&mut out, " for \"");
    push_str(&mut out, query);
    push_str(&mut out, "\"");
    string_from_chars(&out)
}

/// The number a theme mode has in the settings form.
pub open spec fn mode_index(m: ThemeMode) -> i32 {
    match m {
        ThemeMode::System => 0,
        ThemeMode::Light => 1,
        ThemeMode::Dark => 2,
    }
}

/// The theme mode a settings form number stands for: 0 system, 1 light,
/// anything else dark.
pub open spec fn mode_of_index(i: i32) -> ThemeMode {
    if i == 0 {
        ThemeMode::System
    } else if i == 1 {
        ThemeMode::Light
    } else {
        ThemeMode::Dark
    }
}

/// The settings form number of a theme mode.
pub fn theme_mode_index(mode: ThemeMode) -> (r: i32)
    ensures
        r == mode_index(mode),
{
    match mode {
        ThemeMode::System => 0,
        ThemeMode::Light => 1,
        ThemeMode::Dark => 2,
    }
}

/// The theme mode of a settings form number.
pub fn theme_mode_from_index(i: i32) -> (r: ThemeMode)
    ensures
        r == mode_of_index(i),
{
    if i == 0 {
        ThemeMode::System
    } else if i == 1 {
        ThemeMode::Light
    } else {
        ThemeMode::Dark
    }
}

/// A theme mode survives the settings form: its number reads back as it.
pub proof fn lemma_theme_mode_round_trip(m: ThemeMode)
    ensures
        mode_of_index(mode_index(m)) == m,
{
}

/// The colors a theme applies: the light ones for light mode, the dark
/// ones for dark mode, and for system mode as the system is set.
pub fn pick_theme_colors(theme: &ThemeConfig, system_is_dark: bool) -> (r: &ThemeColors)
    ensures
        r == (match theme.mode {
            ThemeMode::Light => &theme.light_colors,
            ThemeMode::Dark => &theme.dark_colors,
            ThemeMode::System => if system_is_dark {
                &theme.dark_colors
            } else {
                &theme.light_colors
            },
        }),
{
    match theme.mode {
        ThemeMode::Light => &theme.light_colors,
        ThemeMode::Dark => &theme.dark_colors,
        ThemeMode::System => if system_is_dark {
            &theme.dark_colors
        } else {
            &theme.light_colors
        },
    }
}

/// The names of the tools switched on, in the order markdown, pdf, docx,
/// pptx.
pub open spec fn tools_on(markdown: bool, pdf: bool, docx: bool, pptx: bool) -> Seq<Seq<char>> {
    (if markdown { seq!["markdown"@] } else { Seq::empty() }) + (if pdf { seq!["pdf"@] } else { Seq::empty() })
        + (if docx { seq!["docx"@] } else { Seq::empty() }) + (if pptx { seq!["pptx"@] } else { Seq::empty() })
}

/// The list of enabled tools that the settings switches give.
pub fn enabled_tools(markdown: bool, pdf: bool, docx: bool, pptx: bool) -> (r: Vec<String>)
    ensures
        r@.map_values(|s: String| s@) == tools_on(markdown, pdf, docx, pptx),
{
    let mut tools: Vec<String> = Vec::new();
    if markdown {
        tools.push(String::from_str("markdown"));
    }
    if pdf {
        tools.push(String::from_str("pdf"));
    }
    if docx {
        tools.push(String::from_str("docx"));
    }
    if pptx {
        tools.push(String::from_str("pptx"));
    }
    assert(tools@.map_values(|s: String| s@) =~= tools_on(markdown, pdf, docx, pptx));
    tools
}

/// What the settings form holds when it is saved.
#[derive(Debug, Clone, PartialEq, Eq)]
pub struct SettingsForm {
    pub show_hidden: bool,
    pub confirm_delete: bool,
    pub page_size: i32,
    pub theme_mode: i32,
    pub accent_color: String,
    pub markdown_preview: bool,
    pub pdf_preview: bool,
    pub docx_preview: bool,
    pub pptx_preview: bool,
    pub show_devices: bool,
    pub show_bookmarks: bool,
    pub image_viewer: String,
    pub video_viewer: String,
    pub pdf_viewer: String,
}

/// The configuration that saving the settings form writes: the form's
/// values, the colors, favorites and window geometry kept from `previous`,
/// and the sidebar's width and state from the window (220 wide and open
/// when there is no window).
pub open spec fn saved_config(form: SettingsForm, previous: Config, sidebar: Option<(u32, bool)>, c: Config) -> bool {
    &&& c.general.show_hidden == form.show_hidden
    &&& c.general.confirm_delete == form.confirm_delete
    &&& c.general.page_size == form.page_size as usize
    &&& c.theme.mode == mode_of_index(form.theme_mode)
    &&& c.theme.accent_color@ == form.accent_color@
    &&& c.theme.light_colors == previous.theme.light_colors
    &&& c.theme.dark_colors == previous.theme.dark_colors
    &&& c.tools.enabled@.map_values(|s: String| s@) == tools_on(
        form.markdown_preview,
        form.pdf_preview,
        form.docx_preview,
        form.pptx_preview,
    )
    &&& c.tools.markdown_preview == form.markdown_preview
    &&& c.tools.pdf_preview == form.pdf_preview
    &&& c.tools.docx_preview == form.docx_preview
    &&& c.tools.pptx_preview == form.pptx_preview
    &&& c.sidebar.favorites@ == previous.sidebar.favorites@
    &&& c.sidebar.show_devices == form.show_devices
    &&& c.sidebar.show_bookmarks == form.show_bookmarks
    &&& c.ui.default_path == previous.ui.default_path
    &&& c.ui.window_width == previous.ui.window_width
    &&& c.ui.window_height == previous.ui.window_height
    &&& c.ui.sidebar_width == (match sidebar {
        Some((w, _)) => w,
        None => 220,
    })
    &&& c.ui.sidebar_collapsed == (match sidebar {
        Some((_, collapsed)) => collapsed,
        None => false,
    })
    &&& c.viewers.image_viewer@ == form.image_viewer@
    &&& c.viewers.video_viewer@ == form.video_viewer@
    &&& c.viewers.pdf_viewer@ == form.pdf_viewer@
}

/// The configuration that saving the settings form writes.
pub fn config_from_settings(form: &SettingsForm, previous: &Config, sidebar: Option<(u32, bool)>) -> (r: Config)
    ensures
        saved_config(*form, *previous, sidebar, r),
{
    let (sidebar_width, sidebar_collapsed) = match sidebar {
        Some((w, collapsed)) => (w, collapsed),
        None => (220, false),
    };
    Config {
        general: GeneralConfig {
            show_hidden: form.show_hidden,
            confirm_delete: form.confirm_delete,
            page_size: form.page_size as usize,
        },
        theme: ThemeConfig {
            mode: theme_mode_from_index(form.theme_mode),
            accent_color: form.accent_color.clone(),
            light_colors: previous.theme.light_colors.duplicate(),
            dark_colors: previous.theme.dark_colors.duplicate(),
        },
        tools: ToolsConfig {
            enabled: enabled_tools(form.markdown_preview, form.pdf_preview, form.docx_preview, form.pptx_preview),
            markdown_preview: form.markdown_preview,
            pdf_preview: form.pdf_preview,
            docx_preview: form.docx_preview,
            pptx_preview: form.pptx_preview,
        },
        sidebar: SidebarConfig {
            favorites: clone_strings(&previous.sidebar.favorites),
            show_devices: form.show_devices,
            show_bookmarks: form.show_bookmarks,
        },
        ui: UiConfig {
            default_path: clone_opt(&previous.ui.default_path),
            window_width: previous.ui.window_width,
            window_height: previous.ui.window_height,
            sidebar_width,
            sidebar_collapsed,
        },
        viewers: ViewerConfig {
            image_viewer: form.image_viewer.clone(),
            video_viewer: form.video_viewer.clone(),
            pdf_viewer: form.pdf_viewer.clone(),
        },
    }
}

/// The settings form as it opens for a configuration.
pub open spec fn form_of(c: Config, f: SettingsForm) -> bool {
    &&& f.show_hidden == c.general.show_hidden
    &&& f.confirm_delete == c.general.confirm_delete
    &&& f.page_size == c.general.page_size as i32
    &&& f.theme_mode == mode_index(c.theme.mode)
    &&& f.accent_color@ == c.theme.accent_color@
    &&& f.markdown_preview == c.tools.markdown_preview
    &&& f.pdf_preview == c.tools.pdf_preview
    &&& f.docx_preview == c.tools.docx_preview
    &&& f.pptx_preview == c.tools.pptx_preview
    &&& f.show_devices == c.sidebar.show_devices
    &&& f.show_bookmarks == c.sidebar.show_bookmarks
    &&& f.image_viewer@ == c.viewers.image_viewer@
    &&& f.video_viewer@ == c.viewers.video_viewer@
    &&& f.pdf_viewer@ == c.viewers.pdf_viewer@
}

/// The settings form filled in from a configuration.
pub fn settings_form_from(c: &Config) -> (r: SettingsForm)
    ensures
        form_of(*c, r),
{
    SettingsForm {
        show_hidden: c.general.show_hidden,
        confirm_delete: c.general.confirm_delete,
        page_size: c.general.page_size as i32,
        theme_mode: theme_mode_index(c.theme.mode),
        accent_color: c.theme.accent_color.clone(),
        markdown_preview: c.tools.markdown_preview,
        pdf_preview: c.tools.pdf_preview,
        docx_preview: c.tools.docx_preview,
        pptx_preview: c.tools.pptx_preview,
        show_devices: c.sidebar.show_devices,
        show_bookmarks: c.sidebar.show_bookmarks,
        image_viewer: c.viewers.image_viewer.clone(),
        video_viewer: c.viewers.video_viewer.clone(),
        pdf_viewer: c.viewers.pdf_viewer.clone(),
    }
}

/// Opening the settings and saving them unchanged keeps every setting of
/// the configuration, given a page size that the form's number holds and
/// an enabled-tools list that agrees with the preview switches.
pub proof fn lemma_settings_round_trip(c: Config, f: SettingsForm, saved: Config)
    requires
        form_of(c, f),
        c.general.page_size <= 0x7fff_ffff,
        c.tools.enabled@.map_values(|s: String| s@) == tools_on(
            c.tools.markdown_preview,
            c.tools.pdf_preview,
            c.tools.docx_preview,
            c.tools.pptx_preview,
        ),
        saved_config(f, c, Some((c.ui.sidebar_width, c.ui.sidebar_collapsed)), saved),
    ensures
        saved.general == c.general,
        saved.theme.mode == c.theme.mode,
        saved.theme.accent_color@ == c.theme.accent_color@,
        saved.theme.light_colors == c.theme.light_colors,
        saved.theme.dark_colors == c.theme.dark_colors,
        saved.tools.enabled@.map_values(|s: String| s@) == c.tools.enabled@.map_values(|s: String| s@),
        saved.tools.markdown_preview == c.tools.markdown_preview,
        saved.tools.pdf_preview == c.tools.pdf_preview,
        saved.tools.docx_preview == c.tools.docx_preview,
        saved.tools.pptx_preview == c.tools.pptx_preview,
        saved.sidebar.favorites@ == c.sidebar.favorites@,
        saved.sidebar.show_devices == c.sidebar.show_devices,
        saved.sidebar.show_bookmarks == c.sidebar.show_bookmarks,
        saved.ui == c.ui,
        saved.viewers.image_viewer@ == c.viewers.image_viewer@,
        saved.viewers.video_viewer@ == c.viewers.video_viewer@,
        saved.viewers.pdf_viewer@ == c.viewers.pdf_viewer@,
{
    assert((c.general.page_size as i32) as usize == c.general.page_size);
}

/// A place in the sidebar.
#[derive(Debug, Clone, PartialEq, Eq)]
pub struct SidebarItem {
    pub name: String,
    pub icon: String,
    pub path: String,
    pub section: String,
}

/// The view of a sidebar item: name, icon, path, section.
pub open spec fn item_view(i: SidebarItem) -> (Seq<char>, Seq<char>, Seq<char>, Seq<char>) {
    (i.name@, i.icon@, i.path@, i.section@)
}

/// The sidebar's places for a home directory: home and its usual folders
/// as favorites, then the root as a device.
pub open spec fn default_items(home: Seq<char>) -> Seq<(Seq<char>, Seq<char>, Seq<char>, Seq<char>)> {
    seq![
        ("Home"@, "\u{1F3E0}"@, home, "favorites"@),
        ("Desktop"@, "\u{1F5A5}\u{FE0F}"@, path_join(home, "Desktop"@), "favorites"@),
        ("Documents"@, "\u{1F4C1}"@, path_join(home, "Documents"@), "favorites"@),
        ("Downloads"@, "\u{2B07}\u{FE0F}"@, path_join(home, "Downloads"@), "favorites"@),
        ("Pictures"@, "\u{1F5BC}\u{FE0F}"@, path_join(home, "Pictures"@), "favorites"@),
        ("Music"@, "\u{1F3B5}"@, path_join(home, "Music"@), "favorites"@),
        ("Videos"@, "\u{1F3AC}"@, path_join(home, "Videos"@), "favorites"@),
        ("Root"@, "\u{1F4BB}"@, "/"@, "devices"@),
    ]
}

fn sidebar_item(name: &str, icon: &str, path: String, section: &str) -> (r: SidebarItem)
    ensures
        item_view(r) == (name@, icon@, path@, section@),
{
    SidebarItem {
        name: String::from_str(name),
        icon: String::from_str(icon),
        path,
        section: String::from_str(section),
    }
}

/// The sidebar's places for the given home directory.
pub fn default_sidebar_items_for(home: &str) -> (r: Vec<SidebarItem>)
    ensures
        r@.map_values(|i: SidebarItem| item_view(i)) == default_items(home@),
{
    let mut v: Vec<SidebarItem> = Vec::new();
    v.push(sidebar_item("Home", "\u{1F3E0}", String::from_str(home), "favorites"));
    v.push(sidebar_item("Desktop", "\u{1F5A5}\u{FE0F}", join(home, "Desktop"), "favorites"));
    v.push(sidebar_item("Documents", "\u{1F4C1}", join(home, "Documents"), "favorites"));
    v.push(sidebar_item("Downloads", "\u{2B07}\u{FE0F}", join(home, "Downloads"), "favorites"));
    v.push(sidebar_item("Pictures", "\u{1F5BC}\u{FE0F}", join(home, "Pictures"), "favorites"));
    v.push(sidebar_item("Music", "\u{1F3B5}", join(home, "Music"), "favorites"));
    v.push(sidebar_item("Videos", "\u{1F3AC}", join(home, "Videos"), "favorites"));
    v.push(sidebar_item("Root", "\u{1F4BB}", String::from_str("/"), "devices"));
    assert(v@.map_values(|i: SidebarItem| item_view(i)) =~= default_items(home@));
    v
}

/// The sidebar's places for the user's home directory.
pub fn default_sidebar_items() -> (r: Vec<SidebarItem>)
    ensures
        exists|home: Seq<char>| home.len() > 0 && r@.map_values(|i: SidebarItem| item_view(i)) == default_items(home),
{
    let home = home_dir();
    default_sidebar_items_for(home.as_str())
}

/// Whether the sidebar shows an item of this section: devices and
/// bookmarks only when they are switched on.
pub open spec fn section_shown(section: Seq<char>, show_devices: bool, show_bookmarks: bool) -> bool {
    !(section == "devices"@ && !show_devices) && !(section == "bookmarks"@ && !show_bookmarks)
}

/// The items the sidebar shows.
pub fn visible_sidebar_items(items: Vec<SidebarItem>, show_devices: bool, show_bookmarks: bool) -> (r: Vec<
    SidebarItem,
>)
    ensures
        r@ == items@.filter(|i: SidebarItem| section_shown(i.section@, show_devices, show_bookmarks)),
{
    let mut kept: Vec<SidebarItem> = Vec::new();
    let mut rest = items;
    let ghost all = rest@;
    let mut reversed: Vec<SidebarItem> = Vec::new();
    while rest.len() > 0
        invariant
            all.len() == rest@.len() + reversed@.len(),
            rest@ == all.take(rest@.len() as int),
            forall|k: int| 0 <= k < reversed@.len() ==> #[trigger] reversed@[k] == all[all.len() - 1 - k],
        decreases rest@.len(),
    {
        let item = rest.pop().unwrap();
        reversed.push(item);
        assert(rest@ =~= all.take(rest@.len() as int));
    }
    let mut i: usize = 0;
    let n = reversed.len();
    while reversed.len() > 0
        invariant
            n == all.len(),
            reversed@.len() + i == n,
            forall|k: int| 0 <= k < reversed@.len() ==> #[trigger] reversed@[k] == all[n - 1 - k],
            kept@ == all.take(i as int).filter(|i: SidebarItem| section_shown(i.section@, show_devices, show_bookmarks)),
        decreases reversed@.len(),
    {
        let item = reversed.pop().unwrap();
        assert(item == all[i as int]);
        proof {
            assert(all.take(i + 1) =~= all.take(i as int).push(all[i as int]));
            all.take(i as int).lemma_filter_push(all[i as int], |i: SidebarItem| section_shown(i.section@, show_devices, show_bookmarks));
        }
        let devices = str_eq(item.section.as_str(), "devices");
        let bookmarks = str_eq(item.section.as_str(), "bookmarks");
        if !(devices && !show_devices) && !(bookmarks && !show_bookmarks) {
            kept.push(item);
        }
        i = i + 1;
    }
    assert(all.take(n as int) =~= all);
    kept
}

/// An entry as the file list shows it.
#[derive(Debug, Clone, PartialEq, Eq)]
pub struct EntryView {
    pub name: String,
    pub path: String,
    pub is_dir: bool,
    pub size: String,
    pub modified: String,
    pub icon: String,
    pub selected: bool,
}

/// An entry as the file list shows it, with its selection state.
pub fn to_entry_view(entry: &FileEntry, selected: bool) -> (r: EntryView)
    ensures
        r.name@ == entry.name@,
        r.path@ == entry.path@,
        r.is_dir == entry.is_dir,
        r.size@ == size_text(entry.is_dir, entry.size as nat),
        r.modified@ == modified_text(entry.modified),
        r.icon@ == icon_for(entry.is_dir, path_extension(entry.path@)),
        r.selected == selected,
{
    EntryView {
        name: entry.name.clone(),
        path: entry.path.clone(),
        is_dir: entry.is_dir,
        size: entry.size_display(),
        modified: entry.modified_display(),
        icon: String::from_str(entry.icon()),
        selected,
    }
}


/// What listing a directory does to the window's state.  When the listing
/// was read, the window moves to `path` (as `NavState::navigate` does), the
/// cached listing becomes the sorted listing (hidden entries per
/// `show_hidden`), the selection and its anchor are cleared, and no status
/// is set (the caller also clears the search text).  When it failed,
/// nothing changes and the status line shows the error.
pub fn directory_listed(
    nav: &mut NavState,
    cache: &mut Vec<FileEntry>,
    selection: &mut Vec<usize>,
    anchor: &mut Option<usize>,
    path: String,
    listing: Result<Vec<FileEntry>, String>,
    show_hidden: bool,
) -> (status: Option<String>)
    ensures
        match listing {
            Ok(es) => {
                &&& final(nav).history() == old(nav).history().take(old(nav).index() + 1).push(path@)
                &&& final(nav).index() == old(nav).index() + 1
                &&& stably_sorted(
                    final(cache)@,
                    listed_entries(es@, show_hidden),
                    SortField::Name,
                    SortDirection::Ascending,
                )
                &&& final(selection)@.len() == 0
                &&& *final(anchor) is None
                &&& status is None
            },
            Err(e) => {
                &&& *final(nav) == *old(nav)
                &&& final(cache)@ == old(cache)@
                &&& final(selection)@ == old(selection)@
                &&& *final(anchor) == *old(anchor)
                &&& opt_view(status) == Some("Error: "@ + e@)
            },
        },
{
    match listing {
        Ok(es) => {
            nav.navigate(path);
            *cache = list_directory(&es, show_hidden);
            *selection = Vec::new();
            *anchor = None;
            None
        },
        Err(e) => {
            let mut s = String::from_str("Error: ");
            s.append(e.as_str());
            Some(s)
        },
    }
}

/// Whether the history has a path one step back (`forward` false) or one
/// step forward (`forward` true) of the current one.
pub open spec fn can_step(nav: NavState, forward: bool) -> bool {
    if forward {
        nav.index() < nav.history().len() - 1
    } else {
        nav.index() > 0
    }
}

/// The position one step back or forward of the current one.
pub open spec fn stepped_index(nav: NavState, forward: bool) -> int {
    if forward {
        nav.index() + 1
    } else {
        nav.index() - 1
    }
}

/// A press of the back (`forward` false) or forward (`forward` true)
/// button, once `listing` has been read from the path that the press leads
/// to (`NavState::back_target` or `NavState::forward_target`).  When there
/// is no such path nothing changes.  When the listing was read, the window
/// moves one step through the history, which itself stays as it was (the
/// paths forward of the new position are kept); the cached listing becomes
/// the sorted listing (hidden entries per `show_hidden`), the selection and
/// its anchor are cleared, and no status is set.  When it failed, nothing
/// changes and the status line shows the error.
pub fn history_stepped(
    nav: &mut NavState,
    cache: &mut Vec<FileEntry>,
    selection: &mut Vec<usize>,
    anchor: &mut Option<usize>,
    forward: bool,
    listing: Result<Vec<FileEntry>, String>,
    show_hidden: bool,
) -> (status: Option<String>)
    ensures
        !can_step(*old(nav), forward) ==> {
            &&& *final(nav) == *old(nav)
            &&& final(cache)@ == old(cache)@
            &&& final(selection)@ == old(selection)@
            &&& *final(anchor) == *old(anchor)
            &&& status is None
        },
        can_step(*old(nav), forward) ==> match listing {
            Ok(es) => {
                &&& final(nav).history() == old(nav).history()
                &&& final(nav).index() == stepped_index(*old(nav), forward)
                &&& stably_sorted(
                    final(cache)@,
                    listed_entries(es@, show_hidden),
                    SortField::Name,
                    SortDirection::Ascending,
                )
                &&& final(selection)@.len() == 0
                &&& *final(anchor) is None
                &&& status is None
            },
            Err(e) => {
                &&& *final(nav) == *old(nav)
                &&& final(cache)@ == old(cache)@
                &&& final(selection)@ == old(selection)@
                &&& *final(anchor) == *old(anchor)
                &&& opt_view(status) == Some("Error: "@ + e@)
            },
        },
        final(nav).valid(),
{
    let possible = if forward { nav.can_go_forward() } else { nav.can_go_back() };
    if !possible {
        return None;
    }
    match listing {
        Ok(es) => {
            let _ = if forward { nav.go_forward() } else { nav.go_back() };
            *cache = list_directory(&es, show_hidden);
            *selection = Vec::new();
            *anchor = None;
            None
        },
        Err(e) => {
            let mut s = String::from_str("Error: ");
            s.append(e.as_str());
            Some(s)
        },
    }
}

/// A back press followed by a forward press, both with their listings
/// read, leaves the history as it was and returns to the path that was
/// current; after the back press a forward step is still possible and the
/// current path is the one before.
pub proof fn lemma_back_then_forward_press(before: NavState, back: NavState, again: NavState)
    requires
        before.valid(),
        can_step(before, false),
        back.history() == before.history(),
        back.index() == stepped_index(before, false),
        again.history() == back.history(),
        again.index() == stepped_index(back, true),
    ensures
        can_step(back, true),
        back.history()[back.index()] == before.history()[before.index() - 1],
        again.history() == before.history(),
        again.index() == before.index(),
        again.history()[again.index()] == before.history()[before.index()],
{
}

/// `v` is how the file list shows `e`.
pub open spec fn is_view_of(v: EntryView, e: FileEntry, selected: bool) -> bool {
    &&& v.name@ == e.name@
    &&& v.path@ == e.path@
    &&& v.is_dir == e.is_dir
    &&& v.size@ == size_text(e.is_dir, e.size as nat)
    &&& v.modified@ == modified_text(e.modified)
    &&& v.icon@ == icon_for(e.is_dir, path_extension(e.path@))
    &&& v.selected == selected
}

/// `vs` shows the entries `es` in order, none selected.
pub open spec fn shows_unselected(vs: Seq<EntryView>, es: Seq<FileEntry>) -> bool {
    vs.len() == es.len() && forall|i: int| 0 <= i < es.len() ==> is_view_of(#[trigger] vs[i], es[i], false)
}

/// The file list shown, none selected.
pub fn unselected_views(es: &Vec<FileEntry>) -> (r: Vec<EntryView>)
    ensures
        shows_unselected(r@, es@),
{
    let mut r: Vec<EntryView> = Vec::new();
    let mut i: usize = 0;
    while i < es.len()
        invariant
            i <= es@.len(),
            r@.len() == i,
            forall|k: int| 0 <= k < i ==> is_view_of(#[trigger] r@[k], es@[k], false),
        decreases es@.len() - i,
    {
        r.push(to_entry_view(&es[i], false));
        i = i + 1;
    }
    r
}

/// What a change of the search text shows: the files to list, when they
/// change, and the status line.
#[derive(Debug, Clone, PartialEq, Eq)]
pub struct SearchView {
    pub files: Option<Vec<EntryView>>,
    pub status: String,
}

/// What a change of the search text to `query` shows.  An empty query
/// brings back the cached listing, none selected, with an empty status.
/// Otherwise `found` is the outcome of the filename search: its files,
/// none selected, with "n results for \"q\"", or, when it failed, the
/// files as they were and "Search error: " with the error.
pub fn search_text_changed(query: &str, cache: &Vec<FileEntry>, found: Result<Vec<FileEntry>, String>) -> (r:
    SearchView)
    ensures
        query@.len() == 0 ==> (r.files is Some && shows_unselected(r.files->0@, cache@) && r.status@.len() == 0),
        query@.len() > 0 ==> match found {
            Ok(es) => r.files is Some && shows_unselected(r.files->0@, es@) && r.status@
                == search_status_text(es@.len(), query@),
            Err(e) => r.files is None && r.status@ == "Search error: "@ + e@,
        },
{
    if query.unicode_len() == 0 {
        return SearchView { files: Some(unselected_views(cache)), status: String::new() };
    }
    match found {
        Ok(es) => {
            let n = es.len();
            SearchView { files: Some(unselected_views(&es)), status: search_status(n as u64, query) }
        },
        Err(e) => {
            let mut s = String::from_str("Search error: ");
            s.append(e.as_str());
            SearchView { files: None, status: s }
        },
    }
}

/// What saving the settings does next.
#[derive(Debug, Clone, PartialEq, Eq)]
pub struct SaveOutcome {
    /// The status line.
    pub status: String,
    /// Whether the dialog closes.
    pub close_dialog: bool,
    /// Re-list the current directory, showing hidden files or not.
    pub relist_show_hidden: Option<bool>,
    /// The new sidebar items.
    pub sidebar: Option<Vec<SidebarItem>>,
    /// The theme mode the theme tokens take, as its form number.
    pub theme_mode: Option<i32>,
}

/// The items of `items` that the sidebar shows, by their views.
pub open spec fn shown_items(
    items: Seq<(Seq<char>, Seq<char>, Seq<char>, Seq<char>)>,
    show_devices: bool,
    show_bookmarks: bool,
) -> Seq<(Seq<char>, Seq<char>, Seq<char>, Seq<char>)> {
    items.filter(|t: (Seq<char>, Seq<char>, Seq<char>, Seq<char>)| section_shown(t.3, show_devices, show_bookmarks))
}

proof fn lemma_filter_views(items: Seq<SidebarItem>, show_devices: bool, show_bookmarks: bool)
    ensures
        items.filter(|i: SidebarItem| section_shown(i.section@, show_devices, show_bookmarks)).map_values(
            |i: SidebarItem| item_view(i),
        ) == shown_items(items.map_values(|i: SidebarItem| item_view(i)), show_devices, show_bookmarks),
    decreases items.len(),
{
    let p = |i: SidebarItem| section_shown(i.section@, show_devices, show_bookmarks);
    let q = |t: (Seq<char>, Seq<char>, Seq<char>, Seq<char>)| section_shown(t.3, show_devices, show_bookmarks);
    let f = |i: SidebarItem| item_view(i);
    if items.len() == 0 {
        assert(items.filter(p) =~= Seq::<SidebarItem>::empty()) by {
            reveal(Seq::filter);
        }
        assert(items.map_values(f) =~= Seq::empty());
        assert(items.map_values(f).filter(q) =~= Seq::empty()) by {
            reveal(Seq::filter);
        }
        assert(items.filter(p).map_values(f) =~= Seq::empty());
    } else {
        let init = items.drop_last();
        let last = items.last();
        lemma_filter_views(init, show_devices, show_bookmarks);
        assert(items =~= init.push(last));
        init.lemma_filter_push(last, p);
        assert(items.map_values(f) =~= init.map_values(f).push(item_view(last)));
        init.map_values(f).lemma_filter_push(item_view(last), q);
        if p(last) {
            assert(init.filter(p).push(last).map_values(f) =~= init.filter(p).map_values(f).push(item_view(last)));
        }
    }
}

/// What saving the settings does, given the outcome of writing the new
/// configuration.  When it was written, it becomes the current one, the
/// dialog closes, the directory is listed again with the new hidden-files
/// setting, the sidebar shows the default places for `home` that the new
/// settings let through, the theme takes the new mode, and the status says
/// "Settings saved!".  When writing failed, the configuration stays and
/// the status line shows the error.
pub fn settings_saved(written: Result<(), String>, new_cfg: Config, current: &mut Config, home: &str) -> (r:
    SaveOutcome)
    ensures
        match written {
            Ok(_) => {
                &&& *final(current) == new_cfg
                &&& r.status@ == "Settings saved!"@
                &&& r.close_dialog
                &&& r.relist_show_hidden == Some(new_cfg.general.show_hidden)
                &&& r.sidebar is Some
                &&& r.sidebar->0@.map_values(|i: SidebarItem| item_view(i)) == shown_items(
                    default_items(home@),
                    new_cfg.sidebar.show_devices,
                    new_cfg.sidebar.show_bookmarks,
                )
                &&& r.theme_mode == Some(mode_index(new_cfg.theme.mode))
            },
            Err(e) => {
                &&& *final(current) == *old(current)
                &&& r.status@ == "Error saving config: "@ + e@
                &&& !r.close_dialog
                &&& r.relist_show_hidden is None
                &&& r.sidebar is None
                &&& r.theme_mode is None
            },
        },
{
    match written {
        Ok(_) => {
            let show_hidden = new_cfg.general.show_hidden;
            let show_devices = new_cfg.sidebar.show_devices;
            let show_bookmarks = new_cfg.sidebar.show_bookmarks;
            let mode = theme_mode_index(new_cfg.theme.mode);
            let items = default_sidebar_items_for(home);
            let shown = visible_sidebar_items(items, show_devices, show_bookmarks);
            proof {
                lemma_filter_views(items@, show_devices, show_bookmarks);
            }
            *current = new_cfg;
            SaveOutcome {
                status: String::from_str("Settings saved!"),
                close_dialog: true,
                relist_show_hidden: Some(show_hidden),
                sidebar: Some(shown),
                theme_mode: Some(mode),
            }
        },
        Err(e) => {
            let mut s = String::from_str("Error saving config: ");
            s.append(e.as_str());
            SaveOutcome {
                status: s,
                close_dialog: false,
                relist_show_hidden: None,
                sidebar: None,
                theme_mode: None,
            }
        },
    }
}

} // verus!
