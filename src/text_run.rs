use vstd::prelude::*;
use vstd::std_specs::cmp::PartialEqSpec;

use crate::cell::{
    Cell, CursorKey, Flags, Indexed, Point, RenderableCell, RenderableCellContent, BOLD, HIDDEN,
    INVERSE, MAX_ZEROWIDTH_CHARS,
};
use crate::color::{
    bg_alpha_of, bg_lookup, compute_bg_alpha, compute_bg_rgb, compute_fg_rgb, fg_lookup, Color,
    Config, List, Rgb, ALPHA_OPAQUE,
};

verus! {

/// Where a glyph lies in the texture atlas and how it is placed in its cell.
/// Each measure is the bit pattern of a single-precision float.
#[derive(Debug, Clone, Copy, PartialEq, Eq, Structural, Default)]
pub struct Glyph {
    pub tex_id: u32,
    pub colored: bool,
    pub top: u32,
    pub left: u32,
    pub width: u32,
    pub height: u32,
    pub uv_bot: u32,
    pub uv_left: u32,
    pub uv_width: u32,
    pub uv_height: u32,
}

/// The signature of the cell that opens a run.
#[derive(Debug, Clone, Copy, PartialEq, Eq, Structural)]
pub struct RunStart {
    pub line: usize,
    pub column: usize,
    pub fg: Color,
    pub bg: Color,
    pub selected: bool,
    pub flags: Flags,
}

impl RunStart {
    /// The signature of `cell` with the selection state `selected`.
    pub open spec fn of_spec(cell: Indexed<Cell>, selected: bool) -> RunStart {
        RunStart {
            line: cell.line,
            column: cell.column,
            fg: cell.inner.fg,
            bg: cell.inner.bg,
            selected,
            flags: cell.inner.flags,
        }
    }

    /// The signature that a run opened at `cell` starts from.
    pub fn of(cell: &Indexed<Cell>, selected: bool) -> (r: RunStart)
        ensures
            r == RunStart::of_spec(*cell, selected),
    {
        RunStart {
            line: cell.line,
            column: cell.column,
            fg: cell.inner.fg,
            bg: cell.inner.bg,
            selected,
            flags: cell.inner.flags,
        }
    }

    /// Compare cell and check if it belongs to the same run: same line, same
    /// resolved foreground and background, same attributes and same selection
    /// state. Cells that look alike merge, whatever color references they hold.
    pub fn belongs_to_text_run(
        &self,
        config: &Config,
        colors: &List,
        cell: &Indexed<Cell>,
        selected: bool,
    ) -> (r: bool)
        requires
            colors.wf(),
        ensures
            r == (self.line == cell.line && resolve(*config, *colors, *self).0 == resolve(
                *config,
                *colors,
                RunStart::of_spec(*cell, selected),
            ).0 && resolve(*config, *colors, *self).1 == resolve(
                *config,
                *colors,
                RunStart::of_spec(*cell, selected),
            ).1 && self.flags == cell.inner.flags && self.selected == selected),
    {
        if self.line != cell.line || self.flags != cell.inner.flags || self.selected != selected {
            return false;
        }
        let (fg, bg, _) = TextRun::color_to_rgb(config, colors, self);
        let (cell_fg, cell_bg, _) = TextRun::color_to_rgb(
            config,
            colors,
            &RunStart::of(cell, selected),
        );
        fg == cell_fg && bg == cell_bg
    }
}

/// Render colors of a run opened at `start`: foreground, background and the
/// bit pattern of the background opacity.
///
/// The palette gives the base colors. A selected cell takes the configured
/// selection background, opaque, when there is one. Otherwise a cell that is
/// selected or inverse, but not both, is drawn inverted: with the theme colors
/// swapped in when its base colors agree and it is not hidden, with its own
/// colors swapped else, and opaque either way. Last, a selected cell takes the
/// configured selection text color, when there is one.
pub open spec fn resolve(config: Config, colors: List, start: RunStart) -> (Rgb, Rgb, u32) {
    let fg = fg_lookup(config, colors, start.fg, start.flags.has(BOLD));
    let bg = bg_lookup(colors, start.bg);
    let (fg1, bg1, alpha1) = if start.selected && config.selection_background is Some {
        (fg, config.selection_background->Some_0, ALPHA_OPAQUE)
    } else if start.selected != start.flags.has(INVERSE) {
        if fg == bg && !start.flags.has(HIDDEN) {
            (colors.background, colors.foreground, ALPHA_OPAQUE)
        } else {
            (bg, fg, ALPHA_OPAQUE)
        }
    } else {
        (fg, bg, bg_alpha_of(start.bg))
    };
    if start.selected && config.selection_text is Some {
        (config.selection_text->Some_0, bg1, alpha1)
    } else {
        (fg1, bg1, alpha1)
    }
}

/// What a run shows, as mathematical values.
pub enum ContentView {
    Cursor(CursorKey),
    CharRun(Seq<char>, Seq<Seq<char>>),
}

/// What a run shows: a cursor, or base characters with the zero-width
/// characters combined with each of them.
#[derive(Debug, Clone, Eq, Hash)]
pub enum TextRunContent {
    Cursor(CursorKey),
    CharRun(Vec<char>, Vec<Vec<char>>),
}

pub open spec fn slots_view(z: Seq<Vec<char>>) -> Seq<Seq<char>> {
    z.map_values(|v: Vec<char>| v@)
}

impl View for TextRunContent {
    type V = ContentView;

    open spec fn view(&self) -> ContentView {
        match self {
            TextRunContent::Cursor(k) => ContentView::Cursor(*k),
            TextRunContent::CharRun(s, z) => ContentView::CharRun(s@, slots_view(z@)),
        }
    }
}

fn chars_eq(a: &Vec<char>, b: &Vec<char>) -> (r: bool)
    ensures
        r == (a@ == b@),
{
    if a.len() != b.len() {
        return false;
    }
    let mut i: usize = 0;
    while i < a.len()
        invariant
            a@.len() == b@.len(),
            i <= a@.len(),
            forall|k: int| 0 <= k < i ==> a@[k] == b@[k],
        decreases a@.len() - i,
    {
        if a[i] != b[i] {
            return false;
        }
        i = i + 1;
    }
    assert(a@ =~= b@);
    true
}

fn slots_eq(a: &Vec<Vec<char>>, b: &Vec<Vec<char>>) -> (r: bool)
    ensures
        r == (slots_view(a@) == slots_view(b@)),
{
    if a.len() != b.len() {
        assert(slots_view(a@).len() != slots_view(b@).len());
        return false;
    }
    let mut i: usize = 0;
    while i < a.len()
        invariant
            a@.len() == b@.len(),
            i <= a@.len(),
            forall|k: int| 0 <= k < i ==> a@[k]@ == b@[k]@,
        decreases a@.len() - i,
    {
        if !chars_eq(&a[i], &b[i]) {
            assert(slots_view(a@)[i as int] != slots_view(b@)[i as int]);
            return false;
        }
        i = i + 1;
    }
    assert(slots_view(a@) =~= slots_view(b@));
    true
}

/// Content compares by what it shows.
impl PartialEq for TextRunContent {
    fn eq(&self, other: &TextRunContent) -> (r: bool) {
        match (self, other) {
            (TextRunContent::Cursor(a), TextRunContent::Cursor(b)) => *a == *b,
            (TextRunContent::CharRun(s1, z1), TextRunContent::CharRun(s2, z2)) => {
                chars_eq(s1, s2) && slots_eq(z1, z2)
            },
            _ => false,
        }
    }
}

impl vstd::std_specs::cmp::PartialEqSpecImpl for TextRunContent {
    open spec fn obeys_eq_spec() -> bool {
        true
    }

    open spec fn eq_spec(&self, other: &TextRunContent) -> bool {
        self@ == other@
    }
}

/// Represents a set of renderable cells that all share the same rendering properties.
/// The assumption is that if two cells are in the same TextRun they can be sent off together to
/// be shaped. This allows for ligatures to be rendered but not when something breaks up a ligature
/// (e.g. selection highlight) which is desired behavior.
#[derive(Debug)]
pub struct TextRun {
    /// A run never spans multiple lines.
    pub line: usize,
    /// Span of columns the text run covers, both ends included.
    pub span: (usize, usize),
    /// Cursor or sequence of characters.
    pub content: TextRunContent,
    /// Foreground color of text run content.
    pub fg: Rgb,
    /// Background color of text run content.
    pub bg: Rgb,
    /// Background opacity, as the bit pattern of a single-precision float.
    pub bg_alpha: u32,
    /// Attributes of this text run.
    pub flags: Flags,
    /// Cached glyph and cell for rendering.
    pub data: Option<Vec<(RenderableCell, Glyph)>>,
}

/// What identifies a run's shaping work: its width, content, background
/// opacity bits and attributes. Colors and position do not take part, so
/// shaped output cached under this key may carry cells colored for another
/// run: a consumer takes only glyphs and geometry from it, and colors from the
/// live run.
#[derive(Debug, Clone, PartialEq, Eq, Hash)]
pub struct RunIdentity {
    pub width: usize,
    pub content: TextRunContent,
    pub bg_alpha: u32,
    pub flags: Flags,
}

impl TextRun {
    /// A run's span never ends before it starts.
    pub open spec fn wf(&self) -> bool {
        self.span.0 <= self.span.1
    }

    pub open spec fn width_spec(&self) -> int {
        self.span.1 - self.span.0
    }

    /// Two runs are the same shape: equal width, content, opacity bits and attributes.
    pub open spec fn same_identity(&self, other: &TextRun) -> bool {
        &&& self.width_spec() == other.width_spec()
        &&& self.content@ == other.content@
        &&& self.bg_alpha == other.bg_alpha
        &&& self.flags == other.flags
    }

    /// The key under which shaped output of this run is cached.
    pub fn identity(&self) -> (r: RunIdentity)
        requires
            self.wf(),
        ensures
            r.width == self.width_spec(),
            r.content@ == self.content@,
            r.bg_alpha == self.bg_alpha,
            r.flags == self.flags,
    {
        RunIdentity {
            width: self.span.1 - self.span.0,
            content: self.content.clone_content(),
            bg_alpha: self.bg_alpha,
            flags: self.flags,
        }
    }

    /// Resolves the render colors of a run opened at `start`.
    pub fn color_to_rgb(config: &Config, colors: &List, start: &RunStart) -> (r: (Rgb, Rgb, u32))
        requires
            colors.wf(),
        ensures
            r == resolve(*config, *colors, *start),
            ({
                let fg = fg_lookup(*config, *colors, start.fg, start.flags.has(BOLD));
                let bg = bg_lookup(*colors, start.bg);
                &&& !start.selected && !start.flags.has(INVERSE) ==> r == (fg, bg, bg_alpha_of(start.bg))
                &&& start.selected && config.selection_background is Some ==> r.1
                    == config.selection_background->Some_0 && r.2 == ALPHA_OPAQUE
                &&& start.selected != start.flags.has(INVERSE) && !(start.selected
                    && config.selection_background is Some) && fg == bg && !start.flags.has(HIDDEN)
                    ==> r.1 == colors.foreground && r.2 == ALPHA_OPAQUE && (!(start.selected
                    && config.selection_text is Some) ==> r.0 == colors.background)
                &&& start.selected != start.flags.has(INVERSE) && !(start.selected
                    && config.selection_background is Some) && (fg != bg || start.flags.has(HIDDEN))
                    ==> r.1 == fg && r.2 == ALPHA_OPAQUE && (!(start.selected
                    && config.selection_text is Some) ==> r.0 == bg)
                &&& start.selected && config.selection_text is Some ==> r.0
                    == config.selection_text->Some_0
            }),
    {
        let mut fg = compute_fg_rgb(config, colors, start.fg, start.flags);
        let mut bg = compute_bg_rgb(colors, start.bg);
        let mut bg_alpha = compute_bg_alpha(start.bg);

        if let (true, Some(col)) = (start.selected, config.selection_background) {
            // Override selection background with config colors.
            bg = col;
            bg_alpha = ALPHA_OPAQUE;
        } else if start.selected ^ start.flags.contains(INVERSE) {
            if fg == bg && !start.flags.contains(HIDDEN) {
                // Reveal inverted text when fg/bg is the same.
                fg = colors.background;
                bg = colors.foreground;
            } else {
                // Invert cell fg and bg colors.
                let tmp = fg;
                fg = bg;
                bg = tmp;
            }
            bg_alpha = ALPHA_OPAQUE;
        }
        if let (true, Some(col)) = (start.selected, config.selection_text) {
            fg = col;
        }
        (fg, bg, bg_alpha)
    }

    /// A one-column run showing the cursor `cursor` at the position of `start`,
    /// colored as the cell under it.
    pub fn from_cursor_key(config: &Config, colors: &List, start: RunStart, cursor: CursorKey) -> (r:
        TextRun)
        requires
            colors.wf(),
        ensures
            r.wf(),
            r.line == start.line,
            r.span == (start.column, start.column),
            r.content@ == ContentView::Cursor(cursor),
            (r.fg, r.bg, r.bg_alpha) == resolve(*config, *colors, start),
            r.flags == start.flags,
            r.data is None,
    {
        let (fg, bg, bg_alpha) = Self::color_to_rgb(config, colors, &start);
        TextRun {
            line: start.line,
            span: (start.column, start.column),
            content: TextRunContent::Cursor(cursor),
            fg,
            bg,
            bg_alpha,
            flags: start.flags,
            data: None,
        }
    }

    /// Returns dummy RenderableCell containing no content with positioning and color information
    /// from this TextRun.
    fn dummy_cell_at(&self, col: usize) -> (r: RenderableCell)
        ensures
            r.line == self.line,
            r.column == col,
            r.inner is Chars,
            r.inner->Chars_0@ == Seq::new((MAX_ZEROWIDTH_CHARS + 1) as nat, |i: int| ' '),
            r.fg == self.fg,
            r.bg == self.bg,
            r.bg_alpha == self.bg_alpha,
            r.flags == self.flags,
    {
        let chars = vec![' '; MAX_ZEROWIDTH_CHARS + 1];
        assert(chars@ =~= Seq::new((MAX_ZEROWIDTH_CHARS + 1) as nat, |i: int| ' '));
        RenderableCell {
            line: self.line,
            column: col,
            inner: RenderableCellContent::Chars(chars),
            fg: self.fg,
            bg: self.bg,
            bg_alpha: self.bg_alpha,
            flags: self.flags,
        }
    }

    /// First cell in the TextRun
    pub fn start_cell(&self) -> (r: RenderableCell)
        ensures
            r.line == self.line,
            r.column == self.span.0,
            r.inner is Chars,
            r.inner->Chars_0@ == Seq::new((MAX_ZEROWIDTH_CHARS + 1) as nat, |i: int| ' '),
            r.fg == self.fg,
            r.bg == self.bg,
            r.bg_alpha == self.bg_alpha,
            r.flags == self.flags,
    {
        self.dummy_cell_at(self.span.0)
    }

    /// First point covered by this TextRun
    pub fn start_point(&self) -> (r: Point)
        ensures
            r == (Point { line: self.line, col: self.span.0 }),
    {
        Point { line: self.line, col: self.span.0 }
    }

    /// End point covered by this TextRun
    pub fn end_point(&self) -> (r: Point)
        ensures
            r == (Point { line: self.line, col: self.span.1 }),
    {
        Point { line: self.line, col: self.span.1 }
    }
}

impl TextRunContent {
    /// A copy that shows the same.
    pub fn clone_content(&self) -> (r: TextRunContent)
        ensures
            r@ == self@,
    {
        match self {
            TextRunContent::Cursor(k) => TextRunContent::Cursor(*k),
            TextRunContent::CharRun(s, z) => {
                let s2 = copy_chars(s);
                let mut z2: Vec<Vec<char>> = Vec::new();
                let mut i: usize = 0;
                while i < z.len()
                    invariant
                        i <= z@.len(),
                        z2@.len() == i,
                        forall|k: int| 0 <= k < i ==> z2@[k]@ == z@[k]@,
                    decreases z@.len() - i,
                {
                    let v = copy_chars(&z[i]);
                    z2.push(v);
                    i = i + 1;
                }
                assert(slots_view(z2@) =~= slots_view(z@));
                TextRunContent::CharRun(s2, z2)
            },
        }
    }
}

/// A copy of a character sequence.
pub fn copy_chars(v: &Vec<char>) -> (r: Vec<char>)
    ensures
        r@ == v@,
{
    let r = v.clone();
    assert(r@ =~= v@);
    r
}

/// Runs compare by identity: width, content, opacity bits and attributes.
impl PartialEq for TextRun {
    fn eq(&self, other: &TextRun) -> (r: bool) {
        (self.span.1 as u128) + (other.span.0 as u128) == (other.span.1 as u128) + (
        self.span.0 as u128) && self.content == other.content && self.bg_alpha == other.bg_alpha
            && self.flags == other.flags
    }
}

impl vstd::std_specs::cmp::PartialEqSpecImpl for TextRun {
    open spec fn obeys_eq_spec() -> bool {
        true
    }

    open spec fn eq_spec(&self, other: &TextRun) -> bool {
        self.same_identity(other)
    }
}

/// Runs that agree on width, content, opacity bits and attributes compare
/// equal, whatever their colors, lines and absolute spans.
pub proof fn lemma_identity_ignores_colors_and_position(a: TextRun, b: TextRun)
    requires
        a.width_spec() == b.width_spec(),
        a.content@ == b.content@,
        a.bg_alpha == b.bg_alpha,
        a.flags == b.flags,
    ensures
        a.eq_spec(&b),
        b.eq_spec(&a),
{
}

/// Runs that compare equal agree on width, content, opacity bits and
/// attributes: a change in any one of the four breaks equality.
pub proof fn lemma_identity_distinguishes(a: TextRun, b: TextRun)
    requires
        a.eq_spec(&b),
    ensures
        a.width_spec() == b.width_spec(),
        a.content@ == b.content@,
        a.bg_alpha == b.bg_alpha,
        a.flags == b.flags,
{
}

/// A copy of a run's cached shaping output.
fn clone_data(data: &Option<Vec<(RenderableCell, Glyph)>>) -> (r: Option<Vec<(RenderableCell, Glyph)>>)
    ensures
        r is Some <==> data is Some,
        data is Some ==> r->Some_0@.len() == data->Some_0@.len(),
{
    match data {
        None => None,
        Some(v) => {
            let mut copy: Vec<(RenderableCell, Glyph)> = Vec::new();
            let mut i: usize = 0;
            while i < v.len()
                invariant
                    i <= v@.len(),
                    copy@.len() == i,
                decreases v@.len() - i,
            {
                copy.push((v[i].0.clone(), v[i].1));
                i = i + 1;
            }
            Some(copy)
        },
    }
}

impl Clone for TextRun {
    fn clone(&self) -> (r: TextRun)
        ensures
            r.line == self.line,
            r.span == self.span,
            r.content@ == self.content@,
            r.fg == self.fg,
            r.bg == self.bg,
            r.bg_alpha == self.bg_alpha,
            r.flags == self.flags,
            r.data is Some <==> self.data is Some,
    {
        TextRun {
            line: self.line,
            span: (self.span.0, self.span.1),
            content: self.content.clone_content(),
            fg: self.fg,
            bg: self.bg,
            bg_alpha: self.bg_alpha,
            flags: self.flags,
            data: clone_data(&self.data),
        }
    }
}

impl Eq for TextRun {

}

} // verus!
