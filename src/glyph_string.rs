use unicode_segmentation::UnicodeSegmentation;
use vstd::prelude::*;
use vstd::string::*;
use vstd::seq_lib::lemma_flatten_concat;
use vstd::utf8::*;

verus! {

/// The extended grapheme clusters of a string, in order.
pub uninterp spec fn grapheme_clusters(s: Seq<char>) -> Seq<Seq<char>>;

/// Relies on `UnicodeSegmentation::graphemes` (extended clusters): the clusters are
/// non-empty pieces of the string that, put back together in order, give the string.
#[verifier::external_body]
fn split_graphemes(s: &str) -> (r: Vec<String>)
    ensures
        r@.map_values(|t: String| t@) == grapheme_clusters(s@),
        r@.map_values(|t: String| t@).flatten() == s@,
        forall|i: int| 0 <= i < r@.len() ==> (#[trigger] r@[i])@.len() > 0,
{
    s.graphemes(true).map(String::from).collect()
}

/// Number of bytes in the UTF-8 encoding of `s`.
pub open spec fn utf8_len(s: Seq<char>) -> nat {
    encode_utf8(s).len()
}

pub proof fn lemma_encode_utf8_concat(a: Seq<char>, b: Seq<char>)
    ensures
        encode_utf8(a + b) == encode_utf8(a) + encode_utf8(b),
    decreases a.len(),
{
    if a.len() == 0 {
        assert(a + b =~= b);
        assert(encode_utf8(a) + encode_utf8(b) =~= encode_utf8(b));
    } else {
        assert((a + b).drop_first() =~= a.drop_first() + b);
        lemma_encode_utf8_concat(a.drop_first(), b);
        assert((a + b)[0] == a[0]);
        assert(encode_utf8(a + b) =~= encode_utf8(a) + encode_utf8(b));
    }
}

pub proof fn lemma_utf8_len_positive(c: Seq<char>)
    requires
        c.len() > 0,
    ensures
        utf8_len(c) > 0,
{
    let first = c[0] as u32;
    assert(encode_utf8(c) == encode_scalar(first) + encode_utf8(c.drop_first()));
}

/// A text together with its division into grapheme clusters ("glyphs").
///
/// `glyphs[i]` is the half-open byte range of glyph `i` in `string`, and `texts[i]`
/// holds the glyph's characters.
pub struct GlyphString {
    pub string: String,
    pub glyphs: Vec<(usize, usize)>,
    pub texts: Vec<String>,
}

impl GlyphString {
    /// The characters of every glyph, in order.
    pub open spec fn glyph_seq(&self) -> Seq<Seq<char>> {
        self.texts@.map_values(|t: String| t@)
    }

    pub open spec fn spec_len(&self) -> nat {
        self.glyphs@.len()
    }

    /// The characters of glyph `i`.
    pub open spec fn glyph(&self, i: int) -> Seq<char> {
        self.texts@[i]@
    }

    pub open spec fn start_of(&self, i: int) -> int {
        self.glyphs@[i].0 as int
    }

    pub open spec fn end_of(&self, i: int) -> int {
        self.glyphs@[i].1 as int
    }

    pub open spec fn wf(&self) -> bool {
        &&& self.texts@.len() == self.glyphs@.len()
        &&& self.spec_len() <= usize::MAX
        &&& self.glyph_seq().flatten() == self.string@
        &&& forall|i: int| 0 <= i < self.spec_len() ==> (#[trigger] self.glyph(i)).len() > 0
        &&& forall|i: int|
            0 <= i < self.spec_len() ==> self.end_of(i) - self.start_of(i) == utf8_len(
                #[trigger] self.glyph(i),
            )
        &&& self.spec_len() > 0 ==> self.start_of(0) == 0
        &&& forall|i: int| 0 < i < self.spec_len() ==> #[trigger] self.start_of(i) == self.end_of(i - 1)
        &&& forall|i: int, j: int|
            0 <= i < j < self.spec_len() ==> #[trigger] self.end_of(i) <= #[trigger] self.start_of(j)
        &&& forall|i: int| 0 <= i < self.spec_len() ==> self.start_of(i) < #[trigger] self.end_of(i)
    }

    /// Splits `string` into its grapheme clusters and records the byte range of each.
    pub fn new(string: String) -> (r: GlyphString)
        requires
            utf8_len(string@) <= usize::MAX,
        ensures
            r.wf(),
            r.string@ == string@,
            r.glyph_seq() == grapheme_clusters(string@),
    {
        let texts = split_graphemes(string.as_str());
        let ghost views = texts@.map_values(|t: String| t@);
        proof {
            lemma_encode_utf8_concat(Seq::<char>::empty(), Seq::<char>::empty());
            assert(views.subrange(0, 0).flatten() =~= Seq::<char>::empty());
            assert(views.subrange(0, views.len() as int) =~= views);
        }
        let mut glyphs: Vec<(usize, usize)> = Vec::new();
        let mut offset: usize = 0;
        let mut i: usize = 0;
        while i < texts.len()
            invariant
                i <= texts@.len(),
                views == texts@.map_values(|t: String| t@),
                views.flatten() == string@,
                utf8_len(string@) <= usize::MAX,
                forall|k: int| 0 <= k < texts@.len() ==> (#[trigger] texts@[k])@.len() > 0,
                glyphs@.len() == i,
                offset == utf8_len(views.subrange(0, i as int).flatten()),
                i > 0 ==> glyphs@[i - 1].1 == offset,
                i > 0 ==> glyphs@[0].0 == 0,
                forall|k: int| 0 < k < i ==> #[trigger] glyphs@[k].0 == glyphs@[k - 1].1,
                forall|k: int|
                    0 <= k < i ==> glyphs@[k].1 - glyphs@[k].0 == utf8_len(#[trigger] texts@[k]@),
                forall|k: int| 0 <= k < i ==> glyphs@[k].0 < #[trigger] glyphs@[k].1,
                forall|k: int| 0 <= k < i ==> #[trigger] glyphs@[k].1 <= offset,
                forall|k: int, j: int| 0 <= k < j < i ==> #[trigger] glyphs@[k].1 <= #[trigger] glyphs@[j].0,
            decreases texts@.len() - i,
        {
            let len = texts[i].as_str().len();
            proof {
                let pre = views.subrange(0, i as int);
                let post = views.subrange(0, i as int + 1);
                let rest = views.subrange(i as int + 1, views.len() as int);
                assert(post =~= pre.push(views[i as int]));
                pre.lemma_flatten_push(views[i as int]);
                lemma_encode_utf8_concat(pre.flatten(), views[i as int]);
                assert(views =~= post + rest);
                lemma_flatten_concat(post, rest);
                lemma_encode_utf8_concat(post.flatten(), rest.flatten());
                assert(views[i as int] == texts@[i as int]@);
                lemma_utf8_len_positive(views[i as int]);
            }
            glyphs.push((offset, offset + len));
            offset = offset + len;
            i = i + 1;
        }
        proof {
            assert(views.subrange(0, i as int) =~= views);
        }
        GlyphString { string, glyphs, texts }
    }

    /// Number of glyphs.
    pub fn len(&self) -> (r: usize)
        requires
            self.wf(),
        ensures
            r == self.spec_len(),
    {
        self.glyphs.len()
    }

    /// The index of the first glyph that starts at or after byte `ptr`, or `len()` if
    /// there is none: the glyph that starts at `ptr`, or the insertion point of `ptr`
    /// among the glyph starts.
    pub fn index_of_ptr(&self, ptr: usize) -> (r: usize)
        requires
            self.wf(),
        ensures
            r <= self.spec_len(),
            forall|i: int| 0 <= i < r ==> self.start_of(i) < ptr,
            forall|i: int| r <= i < self.spec_len() ==> self.start_of(i) >= ptr,
    {
        let mut lo: usize = 0;
        let mut hi: usize = self.glyphs.len();
        while lo < hi
            invariant
                self.wf(),
                lo <= hi <= self.spec_len(),
                forall|i: int| 0 <= i < lo ==> self.start_of(i) < ptr,
                forall|i: int| hi <= i < self.spec_len() ==> self.start_of(i) >= ptr,
            decreases hi - lo,
        {
            let mid = lo + (hi - lo) / 2;
            if self.glyphs[mid].0 < ptr {
                proof {
                    assert forall|i: int| 0 <= i <= mid implies self.start_of(i) < ptr by {
                        if i < mid {
                            assert(self.end_of(i) <= self.start_of(mid as int));
                        }
                    }
                }
                lo = mid + 1;
            } else {
                proof {
                    assert forall|i: int| mid <= i < self.spec_len() implies self.start_of(i) >= ptr by {
                        if i > mid {
                            assert(self.end_of(mid as int) <= self.start_of(i));
                        }
                    }
                }
                hi = mid;
            }
        }
        lo
    }

    /// The characters of glyph `i`, or `None` past the end.
    pub fn glyph_at(&self, i: usize) -> (r: Option<&str>)
        requires
            self.wf(),
        ensures
            i < self.spec_len() ==> r is Some && r->0@ == self.glyph(i as int),
            i >= self.spec_len() ==> r is None,
    {
        if i < self.texts.len() {
            Some(self.texts[i].as_str())
        } else {
            None
        }
    }

    /// Whether glyph `i` is exactly the character `c`.
    pub fn glyph_is_char(&self, i: usize, c: char) -> (r: bool)
        requires
            self.wf(),
            i < self.spec_len(),
        ensures
            r == (self.glyph(i as int) == seq![c]),
    {
        let t = self.texts[i].as_str();
        if t.unicode_len() == 1 {
            let d = t.get_char(0);
            proof {
                if d == c {
                    assert(t@ =~= seq![c]);
                }
            }
            d == c
        } else {
            false
        }
    }

    /// Whether every character of glyph `i` is white space.
    pub fn glyph_is_whitespace(&self, i: usize) -> (r: bool)
        requires
            self.wf(),
            i < self.spec_len(),
        ensures
            r == all_whitespace(self.glyph(i as int)),
    {
        let t = self.texts[i].as_str();
        let n = t.unicode_len();
        let mut k: usize = 0;
        while k < n
            invariant
                self.wf(),
                i < self.spec_len(),
                t@ == self.glyph(i as int),
                n == t@.len(),
                k <= n,
                forall|j: int| 0 <= j < k ==> is_white_space(#[trigger] t@[j]),
            decreases n - k,
        {
            if !char_is_whitespace(t.get_char(k)) {
                return false;
            }
            k = k + 1;
        }
        true
    }

    /// The glyphs in order.
    pub fn glyphs(&self) -> (r: UChars<'_>)
        requires
            self.wf(),
        ensures
            r.text == self,
            r.pos == 0,
    {
        UChars { text: self, pos: 0 }
    }
}

/// Whether `c` has the Unicode White_Space property.
pub open spec fn is_white_space(c: char) -> bool {
    ||| '\u{9}' <= c <= '\u{d}'
    ||| c == ' '
    ||| c == '\u{85}'
    ||| c == '\u{a0}'
    ||| c == '\u{1680}'
    ||| '\u{2000}' <= c <= '\u{200a}'
    ||| c == '\u{2028}'
    ||| c == '\u{2029}'
    ||| c == '\u{202f}'
    ||| c == '\u{205f}'
    ||| c == '\u{3000}'
}

pub open spec fn all_whitespace(s: Seq<char>) -> bool {
    forall|j: int| 0 <= j < s.len() ==> is_white_space(#[trigger] s[j])
}

/// Relies on `char::is_whitespace`: true exactly for the characters with the Unicode
/// White_Space property.
#[verifier::external_body]
fn char_is_whitespace(c: char) -> (r: bool)
    ensures
        r == is_white_space(c),
{
    c.is_whitespace()
}

/// A walk over the glyphs of a [`GlyphString`], from the first to the last.
pub struct UChars<'a> {
    pub text: &'a GlyphString,
    pub pos: usize,
}

impl<'a> UChars<'a> {
    /// The next glyph, if any.
    pub fn next(&mut self) -> (r: Option<&'a str>)
        requires
            old(self).text.wf(),
        ensures
            final(self).text == old(self).text,
            old(self).pos < old(self).text.spec_len() ==> r is Some && r->0@ == old(self).text.glyph(
                old(self).pos as int,
            ) && final(self).pos == old(self).pos + 1,
            old(self).pos >= old(self).text.spec_len() ==> r is None && final(self).pos == old(self).pos,
    {
        if self.pos < self.text.len() {
            let t = self.text.texts[self.pos].as_str();
            self.pos = self.pos + 1;
            Some(t)
        } else {
            None
        }
    }

    /// Skips `n` glyphs and returns the one after them, if any.
    pub fn nth(&mut self, n: usize) -> (r: Option<&'a str>)
        requires
            old(self).text.wf(),
        ensures
            final(self).text == old(self).text,
            old(self).pos + n < old(self).text.spec_len() ==> r is Some && r->0@ == old(self).text.glyph(
                old(self).pos + n,
            ) && final(self).pos == old(self).pos + n + 1,
            old(self).pos + n >= old(self).text.spec_len() ==> r is None && final(self).pos
                == old(self).text.spec_len(),
    {
        let len = self.text.len();
        if self.pos < len && n < len - self.pos {
            self.pos = self.pos + n;
            self.next()
        } else {
            self.pos = len;
            None
        }
    }
}

} // verus!
