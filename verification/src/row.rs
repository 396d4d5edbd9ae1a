//! A single line of text. Contents are stored as a string; every index the
//! editor uses (cursor column, render bounds, edit positions) counts
//! grapheme clusters, and the cluster count is cached beside the text.

use crate::graphemes::{grapheme_clusters, grapheme_clusters_exact, grapheme_count, graphemes_of,
    push_char};
use vstd::prelude::*;
use vstd::seq_lib::lemma_flatten_concat;
use vstd::string::*;

verus! {

/// One grapheme cluster as it is displayed: a tab renders as a single
/// space; every other cluster shows as itself.
pub open spec fn render_cluster(g: Seq<char>) -> Seq<char> {
    if g == seq!['\t'] {
        seq![' ']
    } else {
        g
    }
}

/// The displayed text of a run of grapheme clusters, in order.
pub open spec fn spec_render(gs: Seq<Seq<char>>) -> Seq<char>
    decreases gs.len(),
{
    if gs.len() == 0 {
        Seq::empty()
    } else {
        spec_render(gs.drop_last()) + render_cluster(gs.last())
    }
}

/// The displayed slice of a line between grapheme indices `start` and
/// `end`, both clamped: `end` to the cluster count, `start` to `end`.
pub open spec fn spec_render_range(row: Seq<char>, start: int, end: int) -> Seq<char> {
    let g = graphemes_of(row);
    let e = if end > g.len() { g.len() as int } else { end };
    let s = if start > e { e } else { start };
    spec_render(g.subrange(s, e))
}

/// Contents after inserting character `c` at grapheme index `at`: at or
/// past the end the character is appended; otherwise it stands between the
/// clusters before and after `at`.
pub open spec fn spec_insert_at(row: Seq<char>, at: int, c: char) -> Seq<char> {
    let g = graphemes_of(row);
    if at >= g.len() {
        row.push(c)
    } else {
        g.take(at).flatten() + seq![c] + g.skip(at).flatten()
    }
}

/// Contents after deleting the grapheme cluster at index `at`; unchanged
/// when `at` is out of range.
pub open spec fn spec_delete_at(row: Seq<char>, at: int) -> Seq<char> {
    let g = graphemes_of(row);
    if at >= g.len() {
        row
    } else {
        g.take(at).flatten() + g.skip(at + 1).flatten()
    }
}

/// A line of text with its grapheme-cluster count cached.
pub struct Row {
    contents: String,
    len: usize,
}

impl View for Row {
    type V = Seq<char>;

    closed spec fn view(&self) -> Seq<char> {
        self.contents@
    }
}

impl Row {
    /// The cached count always equals the true grapheme-cluster count of
    /// the contents; every mutation reestablishes this.
    pub closed spec fn wf(&self) -> bool {
        self.len == graphemes_of(self@).len()
    }

    /// The number of grapheme clusters in this line, in spec form.
    pub open spec fn grapheme_len(&self) -> nat {
        graphemes_of(self@).len()
    }

    pub fn from(slice: &str) -> (row: Row)
        ensures
            row@ == slice@,
            row.wf(),
    {
        let len = grapheme_count(slice);
        Row { contents: slice.to_owned(), len }
    }

    pub fn len(&self) -> (n: usize)
        requires
            self.wf(),
        ensures
            n == self.grapheme_len(),
    {
        self.len
    }

    pub fn is_empty(&self) -> (r: bool)
        requires
            self.wf(),
        ensures
            r == (self.grapheme_len() == 0),
    {
        self.len == 0
    }

    /// Raw contents of the line, exactly as stored.
    pub fn contents(&self) -> (s: &str)
        ensures
            s@ == self@,
    {
        self.contents.as_str()
    }

    /// Recomputes the cached grapheme count from the contents.
    pub fn update_len(&mut self)
        ensures
            final(self)@ == old(self)@,
            final(self).wf(),
    {
        self.len = grapheme_count(self.contents.as_str());
    }

    /// The visible slice between grapheme indices `start` and `end`, with
    /// out-of-range bounds clamped rather than rejected; tabs display as
    /// single spaces while the stored text keeps the literal tab.
    pub fn render(&self, start: usize, end: usize) -> (r: String)
        ensures
            r@ == spec_render_range(self@, start as int, end as int),
    {
        let v = grapheme_clusters(self.contents.as_str());
        let ghost g = graphemes_of(self@);
        let e = if end > v.len() {
            v.len()
        } else {
            end
        };
        let s = if start > e {
            e
        } else {
            start
        };
        let mut result = String::new();
        let mut i = s;
        proof {
            assert(g.subrange(s as int, s as int) =~= Seq::empty());
        }
        while i < e
            invariant
                s <= i <= e <= v@.len(),
                v@.len() == g.len(),
                forall|j: int| 0 <= j < v@.len() ==> #[trigger] v@[j]@ == g[j],
                result@ == spec_render(g.subrange(s as int, i as int)),
            decreases e - i,
        {
            let cl = &v[i];
            if cl.as_str().unicode_len() == 1 && cl.as_str().get_char(0) == '\t' {
                proof {
                    assert(cl@ =~= seq!['\t']);
                }
                push_char(&mut result, ' ');
            } else {
                proof {
                    if cl@ == seq!['\t'] {
                        assert(cl@.len() == 1 && cl@[0] == '\t');
                    }
                }
                result.append(cl.as_str());
            }
            proof {
                let pre = g.subrange(s as int, i as int);
                assert(g.subrange(s as int, i + 1).drop_last() =~= pre);
                assert(g.subrange(s as int, i + 1).last() == g[i as int]);
            }
            i += 1;
        }
        result
    }

    /// Inserts one character at grapheme index `at`; at or past the end it
    /// appends. The cached count is recomputed, since the new character may
    /// combine with a neighbouring cluster.
    pub fn insert(&mut self, at: usize, c: char)
        requires
            old(self).wf(),
        ensures
            final(self).wf(),
            final(self)@ == spec_insert_at(old(self)@, at as int, c),
    {
        if at >= self.len {
            push_char(&mut self.contents, c);
        } else {
            let v = grapheme_clusters(self.contents.as_str());
            let ghost g = graphemes_of(old(self)@);
            let mut result = self.collect_range(&v, String::new(), 0, at);
            push_char(&mut result, c);
            let end = v.len();
            let result = self.collect_range(&v, result, at, end);
            proof {
                assert(g.subrange(0, at as int) =~= g.take(at as int));
                assert(g.subrange(at as int, g.len() as int) =~= g.skip(at as int));
            }
            self.contents = result;
        }
        self.update_len();
    }

    /// Removes the grapheme cluster at index `at`; a no-op when `at` is out
    /// of range.
    pub fn delete(&mut self, at: usize)
        requires
            old(self).wf(),
        ensures
            final(self).wf(),
            final(self)@ == spec_delete_at(old(self)@, at as int),
    {
        if at >= self.len {
            return;
        }
        let v = grapheme_clusters(self.contents.as_str());
        let ghost g = graphemes_of(old(self)@);
        let result = self.collect_range(&v, String::new(), 0, at);
        let end = v.len();
        let result = self.collect_range(&v, result, at + 1, end);
        proof {
            assert(g.subrange(0, at as int) =~= g.take(at as int));
            assert(g.subrange(at + 1, g.len() as int) =~= g.skip(at + 1));
        }
        self.contents = result;
        self.update_len();
    }

    /// Splits the line at a grapheme boundary, clamped to the cluster
    /// count: the first part holds the clusters before `at`, the second the
    /// rest, and together they hold exactly the original contents.
    pub fn split(&self, at: usize) -> (pair: (Row, Row))
        requires
            self.wf(),
        ensures
            pair.0.wf(),
            pair.1.wf(),
            pair.0@ == graphemes_of(self@).take(clamp_at(self@, at as int)).flatten(),
            pair.1@ == graphemes_of(self@).skip(clamp_at(self@, at as int)).flatten(),
            pair.0@ + pair.1@ == self@,
    {
        let v = grapheme_clusters_exact(self.contents.as_str());
        let ghost g = graphemes_of(self@);
        let a = if at > v.len() {
            v.len()
        } else {
            at
        };
        let head = self.collect_range(&v, String::new(), 0, a);
        let end = v.len();
        let tail = self.collect_range(&v, String::new(), a, end);
        proof {
            assert(g.subrange(0, a as int) =~= g.take(a as int));
            assert(g.subrange(a as int, g.len() as int) =~= g.skip(a as int));
            lemma_flatten_concat(g.take(a as int), g.skip(a as int));
            assert(g.take(a as int) + g.skip(a as int) =~= g);
        }
        (Row::from(head.as_str()), Row::from(tail.as_str()))
    }

    /// Appends the contents of another line to this one; clusters may merge
    /// at the seam, so the count is recomputed.
    pub fn append(&mut self, other: &Row)
        ensures
            final(self).wf(),
            final(self)@ == old(self)@ + other@,
    {
        self.contents.append(other.contents.as_str());
        self.update_len();
    }

    /// Appends clusters `[from, to)` of this line's segmentation to `acc`.
    fn collect_range(&self, v: &Vec<String>, acc: String, from: usize, to: usize) -> (r: String)
        requires
            from <= to <= v@.len(),
            v@.len() == graphemes_of(self@).len(),
            forall|j: int| 0 <= j < v@.len() ==> #[trigger] v@[j]@ == graphemes_of(self@)[j],
        ensures
            r@ == acc@ + graphemes_of(self@).subrange(from as int, to as int).flatten(),
    {
        let ghost g = graphemes_of(self@);
        let mut result = acc;
        let mut i = from;
        proof {
            assert(g.subrange(from as int, from as int) =~= Seq::empty());
            assert(result@ =~= result@ + Seq::<Seq<char>>::empty().flatten());
        }
        while i < to
            invariant
                from <= i <= to <= v@.len(),
                v@.len() == g.len(),
                forall|j: int| 0 <= j < v@.len() ==> #[trigger] v@[j]@ == g[j],
                result@ == acc@ + g.subrange(from as int, i as int).flatten(),
            decreases to - i,
        {
            result.append(v[i].as_str());
            proof {
                let pre = g.subrange(from as int, i as int);
                assert(g.subrange(from as int, i + 1) =~= pre.push(g[i as int]));
                pre.lemma_flatten_push(g[i as int]);
            }
            i += 1;
        }
        result
    }
}

/// An index into a line's clusters, clamped to the cluster count.
pub open spec fn clamp_at(row: Seq<char>, at: int) -> int {
    let n = graphemes_of(row).len() as int;
    if at > n {
        n
    } else {
        at
    }
}

impl Default for Row {
    /// An empty line.
    fn default() -> (row: Row)
        ensures
            row@ == Seq::<char>::empty(),
            row.wf(),
    {
        proof {
            reveal_strlit("");
            assert(""@ =~= Seq::<char>::empty());
        }
        Row::from("")
    }
}

} // verus!
