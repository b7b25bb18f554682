use crate::glyph_string::{utf8_len, GlyphString};
use vstd::prelude::*;
use vstd::string::*;

verus! {

/// The lines that textwrap makes of one line of text at a width.
pub uninterp spec fn wrapped_lines(line: Seq<char>, width: usize) -> Seq<Seq<char>>;

/// Relies on `textwrap::wrap`, with long words broken, splitting at hyphens and
/// trailing spaces kept: its lines depend on the text and the width alone.
#[verifier::external_body]
fn wrap_line(line: &str, width: usize) -> (r: Vec<String>)
    ensures
        r@.map_values(|s: String| s@) == wrapped_lines(line@, width),
{
    let options = textwrap::Options::new(width)
        .break_words(true)
        .word_splitter(textwrap::WordSplitter::HyphenSplitter)
        .preserve_trailing_space(true);
    textwrap::wrap(line, options).into_iter().map(|l| l.into_owned()).collect()
}

/// A direction in which the cursor moves.
#[derive(Clone, Copy, Debug, PartialEq, Eq)]
pub enum Dir {
    Up,
    Down,
    Left,
    Right,
}

/// Whether glyph `i` ends a hard line (its last character is a line feed).
pub open spec fn is_break(text: GlyphString, i: int) -> bool {
    text.glyph(i).len() > 0 && text.glyph(i).last() == '\n'
}

/// The last glyph of the hard line that runs from glyph `g`: the first line feed
/// glyph at or after `g`, or the last glyph of the text.
pub open spec fn hard_end(text: GlyphString, g: int) -> int
    decreases text.spec_len() - g,
{
    if g < 0 || g + 1 >= text.spec_len() || is_break(text, g) {
        g
    } else {
        hard_end(text, g + 1)
    }
}

/// The end of a hard line's words: its line feed glyph is left out.
pub open spec fn body_end(text: GlyphString, h: int) -> int {
    if is_break(text, h) {
        h
    } else {
        h + 1
    }
}

/// The characters of glyphs `[a, b)`.
pub open spec fn chars_between(text: GlyphString, a: int, b: int) -> Seq<char> {
    text.glyph_seq().subrange(a, b).flatten()
}

/// The first glyph at or after `i` that starts at or after byte `off`, or the end.
pub open spec fn first_start_from(text: GlyphString, off: int, i: int) -> int
    decreases text.spec_len() - i,
{
    if i < 0 || i >= text.spec_len() || text.start_of(i) >= off {
        i
    } else {
        first_start_from(text, off, i + 1)
    }
}

/// The glyph at which byte offset `off` falls, rounded up to a glyph start.
pub open spec fn glyph_at_byte(text: GlyphString, off: int) -> int {
    first_start_from(text, off, 0)
}

/// The byte length of a string, as `str::len` reports it.
pub open spec fn str_byte_len(s: Seq<char>) -> int {
    utf8_len(s) as usize as int
}

pub open spec fn sat_add(a: int, b: int) -> int {
    if a + b > usize::MAX {
        usize::MAX as int
    } else {
        a + b
    }
}

/// The display lines of the hard line whose glyphs start at `cur` and end before `end`,
/// from textwrap's lines `lines[w..]`, the next of which starts at byte `off`: a line
/// ends at the glyph where its last byte ends, lines that would hold no glyph are
/// dropped, and the last line runs to the end of the hard line.
pub open spec fn cut_lines(
    text: GlyphString,
    lines: Seq<Seq<char>>,
    w: int,
    off: int,
    cur: int,
    body: int,
    end: int,
) -> Seq<(int, int)>
    decreases lines.len() - w,
{
    if w < 0 || w >= lines.len() {
        seq![(cur, end)]
    } else {
        let next = sat_add(off, str_byte_len(lines[w]));
        let e = glyph_at_byte(text, next);
        if cur < e < body {
            seq![(cur, e)] + cut_lines(text, lines, w + 1, next, e, body, end)
        } else {
            cut_lines(text, lines, w + 1, next, cur, body, end)
        }
    }
}

/// The display lines of the hard line that starts at glyph `g`.
pub open spec fn hard_line_ranges(text: GlyphString, width: u16, g: int) -> Seq<(int, int)> {
    let h = hard_end(text, g);
    let body = body_end(text, h);
    cut_lines(
        text,
        wrapped_lines(chars_between(text, g, body), width as usize),
        0,
        text.start_of(g),
        g,
        body,
        h + 1,
    )
}

/// The display lines of the text from glyph `g` on, hard line by hard line.
pub open spec fn wrap_from(text: GlyphString, width: u16, g: int) -> Seq<(int, int)>
    decreases text.spec_len() - g,
{
    if g < 0 || g >= text.spec_len() {
        seq![]
    } else {
        let h = hard_end(text, g);
        if h < g || h >= text.spec_len() {
            seq![]
        } else {
            hard_line_ranges(text, width, g) + wrap_from(text, width, h + 1)
        }
    }
}

/// The display lines of the whole text at `width`, as glyph ranges.
pub open spec fn wrap_ranges(text: GlyphString, width: u16) -> Seq<(int, int)> {
    wrap_from(text, width, 0)
}

pub open spec fn range_view(v: Seq<(usize, usize)>) -> Seq<(int, int)> {
    v.map_values(|p: (usize, usize)| (p.0 as int, p.1 as int))
}

/// `r` splits glyphs `[0, n)` into non-empty consecutive ranges, in order.
pub open spec fn is_partition(r: Seq<(usize, usize)>, n: int) -> bool {
    &&& (r.len() == 0 <==> n == 0)
    &&& r.len() > 0 ==> r[0].0 == 0 && r[r.len() - 1].1 == n
    &&& forall|i: int| 0 <= i < r.len() ==> #[trigger] r[i].0 < r[i].1
    &&& forall|i: int| 0 < i < r.len() ==> #[trigger] r[i].0 == r[i - 1].1
}

/// The line that holds glyph `idx`, when `r` is a partition.
pub open spec fn holds(r: Seq<(usize, usize)>, l: int, idx: int) -> bool {
    0 <= l < r.len() && r[l].0 <= idx < r[l].1
}

proof fn lemma_partition_sorted(r: Seq<(usize, usize)>, n: int, i: int, j: int)
    requires
        is_partition(r, n),
        0 <= i < j < r.len(),
    ensures
        r[i].1 <= r[j].0,
    decreases j - i,
{
    if j > i + 1 {
        lemma_partition_sorted(r, n, i, j - 1);
    }
}

/// In a partition of `[0, n)`, each glyph of `[0, n)` lies in exactly one line.
pub proof fn lemma_partition_unique_line(r: Seq<(usize, usize)>, n: int, idx: int, l: int, m: int)
    requires
        is_partition(r, n),
        holds(r, l, idx),
        holds(r, m, idx),
    ensures
        l == m,
{
    if l < m {
        lemma_partition_sorted(r, n, l, m);
    } else if m < l {
        lemma_partition_sorted(r, n, m, l);
    }
}

/// In a partition of `[0, n)`, some line holds each glyph of `[0, n)`.
pub proof fn lemma_partition_covers(r: Seq<(usize, usize)>, n: int, idx: int) -> (l: int)
    requires
        is_partition(r, n),
        0 <= idx < n,
    ensures
        holds(r, l, idx),
    decreases r.len(),
{
    let k = r.len() - 1;
    if r[k].0 <= idx {
        k
    } else {
        let s = r.subrange(0, k);
        assert(is_partition(s, r[k].0 as int)) by {
            assert(k > 0);
        }
        let l = lemma_partition_covers(s, r[k].0 as int, idx);
        l
    }
}

proof fn lemma_first_start_from(text: GlyphString, off: int, r: int, i: int)
    requires
        text.wf(),
        0 <= i <= r <= text.spec_len(),
        forall|k: int| 0 <= k < r ==> text.start_of(k) < off,
        forall|k: int| r <= k < text.spec_len() ==> text.start_of(k) >= off,
    ensures
        first_start_from(text, off, i) == r,
    decreases r - i,
{
    if i < r {
        lemma_first_start_from(text, off, r, i + 1);
    }
}

proof fn lemma_hard_end_bounds(text: GlyphString, g: int)
    requires
        0 <= g < text.spec_len(),
    ensures
        g <= hard_end(text, g) < text.spec_len(),
    decreases text.spec_len() - g,
{
    if g + 1 < text.spec_len() && !is_break(text, g) {
        lemma_hard_end_bounds(text, g + 1);
    }
}

proof fn lemma_wrap_from_step(text: GlyphString, width: u16, g: int)
    requires
        0 <= g < text.spec_len(),
    ensures
        wrap_from(text, width, g) == hard_line_ranges(text, width, g) + wrap_from(
            text,
            width,
            hard_end(text, g) + 1,
        ),
{
    lemma_hard_end_bounds(text, g);
}

proof fn lemma_append_partition(a: Seq<(usize, usize)>, p: Seq<(usize, usize)>, g: int, e: int)
    requires
        is_partition(a, g),
        p.len() > 0,
        p[0].0 == g,
        p[p.len() - 1].1 == e,
        forall|i: int| 0 <= i < p.len() ==> #[trigger] p[i].0 < p[i].1,
        forall|i: int| 0 < i < p.len() ==> #[trigger] p[i].0 == p[i - 1].1,
    ensures
        is_partition(a + p, e),
{
    let r = a + p;
    assert(r[r.len() - 1] == p[p.len() - 1]);
    assert(p[p.len() - 1].0 < p[p.len() - 1].1);
    if a.len() == 0 {
        assert(r[0] == p[0]);
    } else {
        assert(r[0] == a[0]);
    }
    assert forall|i: int| 0 < i < r.len() implies #[trigger] r[i].0 == r[i - 1].1 by {
        if i > a.len() {
            assert(r[i] == p[i - a.len()]);
            assert(r[i - 1] == p[i - 1 - a.len()]);
        } else if i == a.len() {
            assert(r[i] == p[0]);
            assert(r[i - 1] == a[a.len() - 1]);
        }
    }
    assert forall|i: int| 0 <= i < r.len() implies #[trigger] r[i].0 < r[i].1 by {
        if i >= a.len() {
            assert(r[i] == p[i - a.len()]);
        }
    }
}

/// The wrapped lines for one width.
pub struct Inner {
    pub cur_width: u16,
    pub lines: Vec<(usize, usize)>,
}

impl Inner {
    pub open spec fn wf(&self, text: GlyphString) -> bool {
        &&& is_partition(self.lines@, text.spec_len() as int)
        &&& range_view(self.lines@) == wrap_ranges(text, self.cur_width)
    }

    fn glyph_of_byte(text: &GlyphString, off: usize) -> (r: usize)
        requires
            text.wf(),
        ensures
            r == glyph_at_byte(*text, off as int),
            r <= text.spec_len(),
    {
        let r = text.index_of_ptr(off);
        proof {
            lemma_first_start_from(*text, off as int, r as int, 0);
        }
        r
    }

    fn is_break_glyph(text: &GlyphString, i: usize) -> (r: bool)
        requires
            text.wf(),
            i < text.spec_len(),
        ensures
            r == is_break(*text, i as int),
    {
        let t = text.texts[i].as_str();
        let n = t.unicode_len();
        n > 0 && t.get_char(n - 1) == '\n'
    }

    /// The characters of glyphs `[a, b)` as one string.
    fn text_between(text: &GlyphString, a: usize, b: usize) -> (r: String)
        requires
            text.wf(),
            a <= b <= text.spec_len(),
        ensures
            r@ == chars_between(*text, a as int, b as int),
    {
        let mut s = String::new();
        let mut i: usize = a;
        proof {
            assert(text.glyph_seq().subrange(a as int, a as int) =~= Seq::<Seq<char>>::empty());
        }
        while i < b
            invariant
                text.wf(),
                a <= i <= b <= text.spec_len(),
                s@ == chars_between(*text, a as int, i as int),
            decreases b - i,
        {
            proof {
                let pre = text.glyph_seq().subrange(a as int, i as int);
                assert(text.glyph_seq().subrange(a as int, i + 1) =~= pre.push(text.glyph(i as int)));
                pre.lemma_flatten_push(text.glyph(i as int));
            }
            s.append(text.texts[i].as_str());
            i = i + 1;
        }
        s
    }

    /// The last glyph of the hard line that starts at glyph `g`.
    fn hard_line_end(text: &GlyphString, g: usize) -> (r: usize)
        requires
            text.wf(),
            g < text.spec_len(),
        ensures
            r == hard_end(*text, g as int),
            g <= r < text.spec_len(),
    {
        let n = text.len();
        let mut h: usize = g;
        while h + 1 < n && !Self::is_break_glyph(text, h)
            invariant
                text.wf(),
                n == text.spec_len(),
                g <= h < n,
                hard_end(*text, h as int) == hard_end(*text, g as int),
            decreases n - h,
        {
            h = h + 1;
        }
        h
    }

    /// The display lines of one hard line, glyphs `[g, h]`, whose words end before
    /// `body`, from textwrap's lines for those words.
    fn cut_hard_line(
        text: &GlyphString,
        wrapped: &Vec<String>,
        g: usize,
        body: usize,
        h: usize,
    ) -> (r: Vec<(usize, usize)>)
        requires
            text.wf(),
            g <= body <= h + 1 <= text.spec_len(),
            g <= h < usize::MAX,
        ensures
            range_view(r@) == cut_lines(
                *text,
                wrapped@.map_values(|s: String| s@),
                0,
                text.start_of(g as int),
                g as int,
                body as int,
                h + 1,
            ),
            r@.len() > 0,
            r@[0].0 == g,
            r@[r@.len() - 1].1 == h + 1,
            forall|i: int| 0 <= i < r@.len() ==> #[trigger] r@[i].0 < r@[i].1,
            forall|i: int| 0 < i < r@.len() ==> #[trigger] r@[i].0 == r@[i - 1].1,
    {
        let ghost ws = wrapped@.map_values(|s: String| s@);
        let mut part: Vec<(usize, usize)> = Vec::new();
        let mut off: usize = text.glyphs[g].0;
        let mut cur: usize = g;
        let mut w: usize = 0;
        proof {
            assert(range_view(part@) + cut_lines(*text, ws, 0, off as int, g as int, body as int, h + 1)
                =~= cut_lines(*text, ws, 0, off as int, g as int, body as int, h + 1));
        }
        while w < wrapped.len()
            invariant
                text.wf(),
                g <= body <= h + 1 <= text.spec_len(),
                g <= h < usize::MAX,
                g <= cur <= h,
                cur > g ==> cur < body,
                ws == wrapped@.map_values(|s: String| s@),
                w <= wrapped@.len(),
                part@.len() == 0 <==> cur == g,
                part@.len() > 0 ==> part@[0].0 == g && part@[part@.len() - 1].1 == cur,
                forall|i: int| 0 <= i < part@.len() ==> #[trigger] part@[i].0 < part@[i].1,
                forall|i: int| 0 < i < part@.len() ==> #[trigger] part@[i].0 == part@[i - 1].1,
                range_view(part@) + cut_lines(
                    *text,
                    ws,
                    w as int,
                    off as int,
                    cur as int,
                    body as int,
                    h + 1,
                ) == cut_lines(*text, ws, 0, text.start_of(g as int), g as int, body as int, h + 1),
            decreases wrapped@.len() - w,
        {
            let len = wrapped[w].as_str().len();
            proof {
                assert(ws[w as int] == wrapped@[w as int]@);
            }
            let next = off.saturating_add(len);
            let e = Self::glyph_of_byte(text, next);
            let ghost old_part = part@;
            let ghost old_cur = cur as int;
            if cur < e && e < body {
                part.push((cur, e));
                cur = e;
                proof {
                    let a = range_view(old_part);
                    let c = cut_lines(*text, ws, w + 1, next as int, e as int, body as int, h + 1);
                    assert(range_view(part@) =~= a + seq![(old_cur, e as int)]);
                    assert((a + seq![(old_cur, e as int)]) + c =~= a + (seq![(old_cur, e as int)]
                        + c));
                }
            }
            off = next;
            w = w + 1;
        }
        let ghost old_part = part@;
        part.push((cur, h + 1));
        proof {
            assert(range_view(part@) =~= range_view(old_part) + seq![(cur as int, h + 1)]);
        }
        part
    }

    #[verifier::rlimit(40)]
    /// Wraps `text` at `cur_width`: each hard line (ended by a line feed glyph) is
    /// wrapped on its own, and its line feed stays on its last display line.
    pub fn new(text: &GlyphString, cur_width: u16) -> (r: Inner)
        requires
            text.wf(),
        ensures
            r.wf(*text),
            r.cur_width == cur_width,
    {
        let n = text.len();
        let mut lines: Vec<(usize, usize)> = Vec::new();
        let mut g: usize = 0;
        while g < n
            invariant
                text.wf(),
                n == text.spec_len(),
                g <= n,
                is_partition(lines@, g as int),
                range_view(lines@) + wrap_from(*text, cur_width, g as int) == wrap_ranges(
                    *text,
                    cur_width,
                ),
            decreases n - g,
        {
            let h = Self::hard_line_end(text, g);
            let body: usize = if Self::is_break_glyph(text, h) {
                h
            } else {
                h + 1
            };
            let line = Self::text_between(text, g, body);
            let wrapped = wrap_line(line.as_str(), cur_width as usize);
            let mut part = Self::cut_hard_line(text, &wrapped, g, body, h);
            let ghost before = lines@;
            let ghost p = part@;
            lines.append(&mut part);
            proof {
                lemma_hard_end_bounds(*text, g as int);
                lemma_wrap_from_step(*text, cur_width, g as int);
                lemma_append_partition(before, p, g as int, h + 1);
                assert(range_view(lines@) =~= range_view(before) + range_view(p));
                assert(range_view(lines@) + wrap_from(*text, cur_width, h + 1) =~= range_view(before)
                    + wrap_from(*text, cur_width, g as int));
            }
            g = h + 1;
        }
        proof {
            assert(wrap_from(*text, cur_width, n as int) =~= Seq::<(int, int)>::empty());
            assert(range_view(lines@) + wrap_from(*text, cur_width, n as int) =~= range_view(lines@));
        }
        Inner { cur_width, lines }
    }

    /// Wraps again at `line_width`, unless that is the width already wrapped at.
    pub fn wrap(&mut self, text: &GlyphString, line_width: u16)
        requires
            text.wf(),
            old(self).wf(*text),
        ensures
            final(self).wf(*text),
            final(self).cur_width == line_width,
            old(self).cur_width == line_width ==> *final(self) == *old(self),
    {
        if line_width == self.cur_width {
            return;
        }
        *self = Inner::new(text, line_width);
    }

    /// Up to `num` lines from line `first` on.
    pub fn lines(&mut self, text: &GlyphString, line_width: u16, first: usize, num: usize) -> (r: Vec<
        (usize, usize),
    >)
        requires
            text.wf(),
            old(self).wf(*text),
        ensures
            final(self).wf(*text),
            final(self).cur_width == line_width,
            old(self).cur_width == line_width ==> *final(self) == *old(self),
            r@ == window(final(self).lines@, first as int, num as int),
    {
        self.wrap(text, line_width);
        let len = self.lines.len();
        let end: usize = if num > len || first > len - num {
            len
        } else {
            first + num
        };
        let mut ret: Vec<(usize, usize)> = Vec::new();
        if first >= end {
            return ret;
        }
        let mut i: usize = first;
        while i < end
            invariant
                first <= i <= end <= self.lines@.len(),
                ret@ == self.lines@.subrange(first as int, i as int),
            decreases end - i,
        {
            proof {
                assert(self.lines@.subrange(first as int, i + 1) =~= self.lines@.subrange(
                    first as int,
                    i as int,
                ).push(self.lines@[i as int]));
            }
            ret.push(self.lines[i]);
            i = i + 1;
        }
        ret
    }

    /// The line that holds glyph `idx`, and how far into that line it is.
    pub fn line_offset_of_idx(&mut self, text: &GlyphString, line_width: u16, idx: usize) -> (r:
        Option<(usize, usize)>)
        requires
            text.wf(),
            old(self).wf(*text),
        ensures
            final(self).wf(*text),
            final(self).cur_width == line_width,
            old(self).cur_width == line_width ==> *final(self) == *old(self),
            offset_view(r) == line_offset(final(self).lines@, idx as int),
    {
        self.wrap(text, line_width);
        self.find_line(idx)
    }

    fn find_line(&self, idx: usize) -> (r: Option<(usize, usize)>)
        requires
            exists|n: int| is_partition(self.lines@, n),
        ensures
            offset_view(r) == line_offset(self.lines@, idx as int),
            r matches Some((l, o)) ==> holds(self.lines@, l as int, idx as int) && o == idx
                - self.lines@[l as int].0,
    {
        let ghost n = choose|n: int| is_partition(self.lines@, n);
        let len = self.lines.len();
        if len == 0 || idx >= self.lines[len - 1].1 {
            proof {
                assert forall|l: int| !holds(self.lines@, l, idx as int) by {
                    if 0 <= l < len - 1 {
                        lemma_partition_sorted(self.lines@, n, l, len - 1);
                    }
                }
            }
            return None;
        }
        // The last line that starts at or before idx.
        let mut lo: usize = 0;
        let mut hi: usize = len - 1;
        while lo < hi
            invariant
                is_partition(self.lines@, n),
                len == self.lines@.len(),
                lo <= hi < len,
                self.lines@[lo as int].0 <= idx,
                idx < self.lines@[hi as int].1,
            decreases hi - lo,
        {
            let mid = lo + (hi - lo + 1) / 2;
            if self.lines[mid].0 <= idx {
                lo = mid;
            } else {
                proof {
                    assert(self.lines@[mid as int].0 == self.lines@[mid - 1].1);
                }
                hi = mid - 1;
            }
        }
        let l = lo;
        proof {
            assert(holds(self.lines@, l as int, idx as int));
            assert forall|m: int| holds(self.lines@, m, idx as int) implies m == l by {
                lemma_partition_unique_line(self.lines@, n, idx as int, l as int, m);
            }
        }
        Some((l, idx - self.lines[l].0))
    }

    /// Where the cursor at glyph `cur_char` goes when moved in `dir`; `None` where there
    /// is no line to move to, or the cursor is past the text.
    pub fn move_cursor(&mut self, text: &GlyphString, line_width: u16, cur_char: usize, dir: Dir) -> (r:
        Option<usize>)
        requires
            text.wf(),
            old(self).wf(*text),
        ensures
            final(self).wf(*text),
            final(self).cur_width == line_width,
            old(self).cur_width == line_width ==> *final(self) == *old(self),
            opt_view(r) == cursor_target(final(self).lines@, cur_char as int, dir),
    {
        self.wrap(text, line_width);
        let found = self.find_line(cur_char);
        match found {
            None => None,
            Some((line, offset)) => {
                match dir {
                    Dir::Up => {
                        if line == 0 {
                            None
                        } else {
                            let (start, end) = self.lines[line - 1];
                            proof {
                                assert(start < end);
                            }
                            Some(if offset < end - 1 - start {
                                start + offset
                            } else {
                                end - 1
                            })
                        }
                    },
                    Dir::Down => {
                        if line >= self.lines.len() - 1 {
                            None
                        } else {
                            let (start, end) = self.lines[line + 1];
                            proof {
                                assert(start < end);
                            }
                            Some(if offset < end - 1 - start {
                                start + offset
                            } else {
                                end - 1
                            })
                        }
                    },
                    Dir::Right => {
                        let end = self.lines[line].1;
                        Some(if cur_char + 1 < end - 1 {
                            cur_char + 1
                        } else {
                            end - 1
                        })
                    },
                    Dir::Left => {
                        let start = self.lines[line].0;
                        let prev = if cur_char > 0 {
                            cur_char - 1
                        } else {
                            0
                        };
                        Some(if prev > start {
                            prev
                        } else {
                            start
                        })
                    },
                }
            },
        }
    }
}

/// Lines `[first, first + num)` of `r`, cut at its end.
pub open spec fn window(r: Seq<(usize, usize)>, first: int, num: int) -> Seq<(usize, usize)> {
    let end = if first + num > r.len() {
        r.len() as int
    } else {
        first + num
    };
    if first < end {
        r.subrange(first, end)
    } else {
        seq![]
    }
}

/// The line that holds glyph `idx` and the glyph's place in it, if a line holds it.
pub open spec fn line_offset(r: Seq<(usize, usize)>, idx: int) -> Option<(int, int)> {
    if exists|l: int| holds(r, l, idx) {
        let l = choose|l: int| holds(r, l, idx);
        Some((l, idx - r[l].0))
    } else {
        None
    }
}

pub open spec fn offset_view(r: Option<(usize, usize)>) -> Option<(int, int)> {
    match r {
        Some((a, b)) => Some((a as int, b as int)),
        None => None,
    }
}

pub open spec fn opt_view(r: Option<usize>) -> Option<int> {
    match r {
        Some(a) => Some(a as int),
        None => None,
    }
}

pub open spec fn min_int(a: int, b: int) -> int {
    if a < b {
        a
    } else {
        b
    }
}

pub open spec fn max_int(a: int, b: int) -> int {
    if a > b {
        a
    } else {
        b
    }
}

/// Where the cursor at `cur` goes in `dir`: left and right by one glyph, kept within
/// its line; up and down to the same place in the neighbouring line, kept within that
/// line; nowhere where there is no such line or no line holds `cur`.
pub open spec fn cursor_target(r: Seq<(usize, usize)>, cur: int, dir: Dir) -> Option<int> {
    match line_offset(r, cur) {
        None => None,
        Some((line, offset)) => match dir {
            Dir::Up => if line == 0 {
                None
            } else {
                Some(min_int(r[line - 1].0 + offset, r[line - 1].1 - 1))
            },
            Dir::Down => if line + 1 >= r.len() {
                None
            } else {
                Some(min_int(r[line + 1].0 + offset, r[line + 1].1 - 1))
            },
            Dir::Right => Some(min_int(cur + 1, r[line].1 - 1)),
            Dir::Left => Some(max_int(max_int(cur - 1, 0), r[line].0 as int)),
        },
    }
}

/// The wrap cache of a text: the lines for the width asked for last.
pub struct TextWrapper {
    pub w: Option<Inner>,
}

impl TextWrapper {
    pub open spec fn wf(&self, text: GlyphString) -> bool {
        self.w matches Some(inner) ==> inner.wf(text)
    }

    /// After a query at `width`: the cache holds the lines for that width, and it was
    /// left as it was if it held them already.
    pub open spec fn rewrapped(&self, before: TextWrapper, text: GlyphString, width: u16) -> bool {
        &&& self.wf(text)
        &&& self.w matches Some(inner) && inner.cur_width == width
        &&& (before.w matches Some(b) && b.cur_width == width) ==> *self == before
    }

    /// The lines of the cache, once it has been filled.
    pub open spec fn line_ranges(&self) -> Seq<(usize, usize)> {
        match self.w {
            Some(inner) => inner.lines@,
            None => seq![],
        }
    }

    pub fn new() -> (r: TextWrapper)
        ensures
            r.w is None,
    {
        TextWrapper { w: None }
    }

    fn with_inner(&mut self, text: &GlyphString, line_width: u16)
        requires
            text.wf(),
            old(self).wf(*text),
        ensures
            final(self).rewrapped(*old(self), *text, line_width),
    {
        match self.w.take() {
            Some(mut inner) => {
                inner.wrap(text, line_width);
                self.w = Some(inner);
            },
            None => {
                self.w = Some(Inner::new(text, line_width));
            },
        }
    }

    /// Up to `num` display lines from line `first` on, at `line_width`.
    pub fn lines(&mut self, text: &GlyphString, line_width: u16, first: usize, num: usize) -> (r: Vec<
        (usize, usize),
    >)
        requires
            text.wf(),
            old(self).wf(*text),
        ensures
            final(self).rewrapped(*old(self), *text, line_width),
            range_view(final(self).line_ranges()) == wrap_ranges(*text, line_width),
            r@ == window(final(self).line_ranges(), first as int, num as int),
    {
        self.with_inner(text, line_width);
        match &mut self.w {
            Some(inner) => inner.lines(text, line_width, first, num),
            None => Vec::new(),
        }
    }

    /// The display line at `line_width` that holds glyph `idx`, and the glyph's place in
    /// it; `None` past the end of the text.
    pub fn line_offset_of_idx(&mut self, text: &GlyphString, line_width: u16, idx: usize) -> (r:
        Option<(usize, usize)>)
        requires
            text.wf(),
            old(self).wf(*text),
        ensures
            final(self).rewrapped(*old(self), *text, line_width),
            range_view(final(self).line_ranges()) == wrap_ranges(*text, line_width),
            offset_view(r) == line_offset(final(self).line_ranges(), idx as int),
    {
        self.with_inner(text, line_width);
        match &mut self.w {
            Some(inner) => inner.line_offset_of_idx(text, line_width, idx),
            None => None,
        }
    }

    /// Where the cursor at glyph `cur_char` goes when moved in `dir` over the display
    /// lines at `line_width`.
    pub fn move_cursor(&mut self, text: &GlyphString, line_width: u16, cur_char: usize, dir: Dir) -> (r:
        Option<usize>)
        requires
            text.wf(),
            old(self).wf(*text),
        ensures
            final(self).rewrapped(*old(self), *text, line_width),
            range_view(final(self).line_ranges()) == wrap_ranges(*text, line_width),
            opt_view(r) == cursor_target(final(self).line_ranges(), cur_char as int, dir),
    {
        self.with_inner(text, line_width);
        match &mut self.w {
            Some(inner) => inner.move_cursor(text, line_width, cur_char, dir),
            None => None,
        }
    }
}

/// Asking the cache for the lines at one width twice in a row gives the same lines,
/// and the second query leaves the cache exactly as the first one left it (nothing is
/// wrapped again).
pub proof fn lemma_same_width_twice(
    text: GlyphString,
    width: u16,
    before: TextWrapper,
    first: TextWrapper,
    second: TextWrapper,
)
    requires
        first.rewrapped(before, text, width),
        second.rewrapped(first, text, width),
    ensures
        second == first,
        second.line_ranges() == first.line_ranges(),
        range_view(second.line_ranges()) == wrap_ranges(text, width),
{
}

/// Every glyph of the text lies on exactly one display line, and looking it up gives
/// that line and the glyph's place in it.
pub proof fn lemma_every_glyph_on_one_line(r: Seq<(usize, usize)>, n: int, idx: int)
    requires
        is_partition(r, n),
        0 <= idx < n,
    ensures
        line_offset(r, idx) matches Some((l, o)) && holds(r, l, idx) && o == idx - r[l].0 && (
        forall|m: int| #[trigger] holds(r, m, idx) ==> m == l),
{
    let l = lemma_partition_covers(r, n, idx);
    let c = choose|l: int| holds(r, l, idx);
    assert(holds(r, c, idx));
    assert forall|m: int| #[trigger] holds(r, m, idx) implies m == c by {
        lemma_partition_unique_line(r, n, idx, c, m);
    }
}

/// Left and right moves stay on the cursor's line; up and down moves land on the line
/// above or below, at most at that line's last glyph.
pub proof fn lemma_cursor_stays_in_line(r: Seq<(usize, usize)>, n: int, cur: int, dir: Dir)
    requires
        is_partition(r, n),
    ensures
        cursor_target(r, cur, dir) matches Some(t) ==> (line_offset(r, cur) matches Some((line, _))
            && match dir {
            Dir::Left | Dir::Right => holds(r, line, t),
            Dir::Up => holds(r, line - 1, t),
            Dir::Down => holds(r, line + 1, t),
        }),
{
    if exists|l: int| holds(r, l, cur) {
        let line = choose|l: int| holds(r, l, cur);
        assert(holds(r, line, cur));
        if line > 0 {
            assert(r[line - 1].0 < r[line - 1].1);
        }
        if line + 1 < r.len() {
            assert(r[line + 1].0 < r[line + 1].1);
        }
    }
}

} // verus!
