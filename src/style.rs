//! Terminal styles: a foreground and a background attribute code, and the
//! escape fragment that switches from one style to another.

use vstd::prelude::*;

verus! {

/// What the contracts see of a [`Style`]: its two attribute codes.
pub struct StyleView {
    pub foreground: Seq<char>,
    pub background: Seq<char>,
}

/// A pair of SGR attribute codes (`"38;5;196"`, `"39"`); an empty or
/// all-whitespace code stands for "no attribute".
#[derive(Debug, Clone)]
pub struct Style {
    pub foreground: String,
    pub background: String,
}

impl View for Style {
    type V = StyleView;

    open spec fn view(&self) -> StyleView {
        StyleView { foreground: self.foreground@, background: self.background@ }
    }
}

/// The Unicode `White_Space` property, as `char::is_whitespace` and
/// `str::trim` use it.
pub open spec fn is_white_space(c: char) -> bool {
    let u = c as u32;
    (0x09 <= u && u <= 0x0d) || u == 0x20 || u == 0x85 || u == 0xa0 || u == 0x1680 || (0x2000 <= u
        && u <= 0x200a) || u == 0x2028 || u == 0x2029 || u == 0x202f || u == 0x205f || u == 0x3000
}

/// A code that holds nothing but whitespace names no attribute.
pub open spec fn is_blank(s: Seq<char>) -> bool {
    forall|i: int| 0 <= i < s.len() ==> is_white_space(#[trigger] s[i])
}

/// Whether switching from `prev` to `s` re-emits the foreground code.
pub open spec fn emits_foreground(s: StyleView, prev: StyleView) -> bool {
    s.foreground != prev.foreground && !is_blank(s.foreground)
}

/// Whether switching from `prev` to `s` re-emits the background code.
pub open spec fn emits_background(s: StyleView, prev: StyleView) -> bool {
    s.background != prev.background && !is_blank(s.background)
}

/// The escape fragment that switches from `prev` to `s`: one SGR sequence
/// with the codes that changed, or nothing.
pub open spec fn style_change(s: StyleView, prev: StyleView) -> Seq<char> {
    let f = emits_foreground(s, prev);
    let b = emits_background(s, prev);
    if f && b {
        "\x1b["@ + s.foreground + ";"@ + s.background + "m"@
    } else if f {
        "\x1b["@ + s.foreground + "m"@
    } else if b {
        "\x1b["@ + s.background + "m"@
    } else {
        Seq::empty()
    }
}

/// The style of the terminal's own colours: codes `39` and `49`.
pub open spec fn default_style() -> StyleView {
    StyleView { foreground: "39"@, background: "49"@ }
}

/// The switch from `prev` to `s` is empty exactly when the two styles are
/// equal, for every `s` whose blank codes (which name no attribute) agree
/// with those of `prev`.
pub proof fn lemma_format_empty_iff_equal(s: StyleView, prev: StyleView)
    requires
        is_blank(s.foreground) ==> s.foreground == prev.foreground,
        is_blank(s.background) ==> s.background == prev.background,
    ensures
        style_change(s, prev).len() == 0 <==> s == prev,
{
    reveal_strlit("\x1b[");
    if s == prev {
        assert(!emits_foreground(s, prev) && !emits_background(s, prev));
    } else {
        assert(emits_foreground(s, prev) || emits_background(s, prev));
        assert(style_change(s, prev).len() >= 2);
    }
}

fn white_space(c: char) -> (r: bool)
    ensures
        r == is_white_space(c),
{
    let u = c as u32;
    (0x09 <= u && u <= 0x0d) || u == 0x20 || u == 0x85 || u == 0xa0 || u == 0x1680 || (0x2000 <= u
        && u <= 0x200a) || u == 0x2028 || u == 0x2029 || u == 0x202f || u == 0x205f || u == 0x3000
}

/// Whether a code names no attribute.
pub fn blank(s: &str) -> (r: bool)
    ensures
        r == is_blank(s@),
{
    let n = s.unicode_len();
    let mut i: usize = 0;
    while i < n
        invariant
            n == s@.len(),
            i <= n,
            forall|k: int| 0 <= k < i ==> is_white_space(#[trigger] s@[k]),
        decreases n - i,
    {
        if !white_space(s.get_char(i)) {
            return false;
        }
        i = i + 1;
    }
    true
}

impl Style {
    /// A copy with the same codes.
    pub fn duplicate(&self) -> (r: Style)
        ensures
            r == *self,
    {
        Style { foreground: self.foreground.clone(), background: self.background.clone() }
    }

    /// Whether both codes agree.
    pub fn same(&self, other: &Style) -> (r: bool)
        ensures
            r == (self@ == other@),
    {
        self.foreground == other.foreground && self.background == other.background
    }

    /// The escape fragment that switches the terminal from `previous` to
    /// this style; empty when nothing that this style names changed.
    pub fn format(&self, previous: &Style) -> (r: String)
        ensures
            r@ == style_change(self@, previous@),
    {
        let f = !(self.foreground == previous.foreground) && !blank(self.foreground.as_str());
        let b = !(self.background == previous.background) && !blank(self.background.as_str());
        if !f && !b {
            return String::new();
        }
        let mut out = String::from_str("\x1b[");
        if f {
            out.append(self.foreground.as_str());
        }
        if f && b {
            out.append(";");
        }
        if b {
            out.append(self.background.as_str());
        }
        out.append("m");
        out
    }

    /// A style with only a foreground code.
    pub fn foreground(color: &str) -> (r: Style)
        ensures
            r@.foreground == color@,
            r@.background == Seq::<char>::empty(),
    {
        Style { foreground: String::from_str(color), background: String::new() }
    }

    /// A style with only a background code.
    pub fn background(color: &str) -> (r: Style)
        ensures
            r@.foreground == Seq::<char>::empty(),
            r@.background == color@,
    {
        Style { foreground: String::new(), background: String::from_str(color) }
    }

    /// A style with both codes.
    pub fn new(fg: &str, bg: &str) -> (r: Style)
        ensures
            r@.foreground == fg@,
            r@.background == bg@,
    {
        Style { foreground: String::from_str(fg), background: String::from_str(bg) }
    }

    /// The terminal's own colours.
    pub fn default_colors() -> (r: Style)
        ensures
            r@ == default_style(),
    {
        Style { foreground: String::from_str("39"), background: String::from_str("49") }
    }
}

impl Default for Style {
    /// The terminal's own colours.
    fn default() -> (r: Style)
        ensures
            r@ == default_style(),
    {
        Style::default_colors()
    }
}

impl PartialEq for Style {
    fn eq(&self, other: &Style) -> (r: bool) {
        self.same(other)
    }
}

impl vstd::std_specs::cmp::PartialEqSpecImpl for Style {
    open spec fn obeys_eq_spec() -> bool {
        true
    }

    open spec fn eq_spec(&self, other: &Style) -> bool {
        self@ == other@
    }
}

} // verus!
