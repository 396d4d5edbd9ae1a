//! The buffer: an ordered sequence of lines. Text loads by splitting on
//! line feeds (a carriage return before a line feed is dropped), persists by
//! terminating every line with a line feed, and is edited by grapheme
//! position: inserting characters, splitting a line on a line feed, and
//! deleting, which at the end of a line joins the next line onto it.

use crate::editor::Position;
use crate::graphemes::graphemes_of;
use crate::row::{clamp_at, spec_delete_at, spec_insert_at, Row};
use vstd::prelude::*;
use vstd::string::*;

verus! {

/// Index of the first line feed in `t`, or `t.len()` when there is none.
pub open spec fn first_nl(t: Seq<char>) -> nat
    decreases t.len(),
{
    if t.len() == 0 {
        0
    } else if t[0] == '\n' {
        0
    } else {
        1 + first_nl(t.drop_first())
    }
}

/// A line as loaded: a trailing carriage return is dropped, so that both
/// plain and carriage-return line termination load to the same line.
pub open spec fn strip_cr(s: Seq<char>) -> Seq<char> {
    if s.len() > 0 && s.last() == '\r' {
        s.drop_last()
    } else {
        s
    }
}

/// The lines of a text: split on line feeds, each segment stripped of a
/// trailing carriage return; a final segment without a terminator is a line
/// too, and a trailing line feed adds no empty line.
pub open spec fn spec_lines(t: Seq<char>) -> Seq<Seq<char>>
    decreases t.len(),
{
    if t.len() == 0 {
        Seq::empty()
    } else {
        let i = first_nl(t) as int;
        if i >= t.len() {
            seq![t]
        } else {
            seq![strip_cr(t.take(i))] + spec_lines(t.skip(i + 1))
        }
    }
}

/// The persisted form of a sequence of lines: each line followed by a line
/// feed, in order.
pub open spec fn spec_persist(rows: Seq<Seq<char>>) -> Seq<char>
    decreases rows.len(),
{
    if rows.len() == 0 {
        Seq::empty()
    } else {
        rows.first() + seq!['\n'] + spec_persist(rows.drop_first())
    }
}

/// The buffer after inserting character `c` at grapheme column `x` of line
/// `y`. A line feed splits the line; one past the last line, a fresh line
/// receives the character; past that the buffer is unchanged.
pub open spec fn spec_doc_insert(doc: Seq<Seq<char>>, x: int, y: int, c: char) -> Seq<Seq<char>> {
    if c == '\n' {
        if y == doc.len() {
            doc.push(Seq::empty())
        } else if y < doc.len() {
            let g = graphemes_of(doc[y]);
            let a = clamp_at(doc[y], x);
            doc.update(y, g.take(a).flatten()).insert(y + 1, g.skip(a).flatten())
        } else {
            doc
        }
    } else if y == doc.len() {
        doc.push(spec_insert_at(Seq::empty(), x, c))
    } else if y < doc.len() {
        doc.update(y, spec_insert_at(doc[y], x, c))
    } else {
        doc
    }
}

/// The buffer after deleting at grapheme column `x` of line `y`: at the end
/// of a line that has a successor, the successor is joined onto it;
/// otherwise the cluster at `x` is removed from the line.
pub open spec fn spec_doc_delete(doc: Seq<Seq<char>>, x: int, y: int) -> Seq<Seq<char>> {
    if y >= doc.len() {
        doc
    } else if x == graphemes_of(doc[y]).len() && y + 1 < doc.len() {
        doc.update(y, doc[y] + doc[y + 1]).remove(y + 1)
    } else {
        doc.update(y, spec_delete_at(doc[y], x))
    }
}

pub proof fn lemma_first_nl(t: Seq<char>)
    ensures
        first_nl(t) <= t.len(),
        first_nl(t) < t.len() ==> t[first_nl(t) as int] == '\n',
        forall|j: int| 0 <= j < first_nl(t) ==> t[j] != '\n',
    decreases t.len(),
{
    if t.len() == 0 {
    } else if t[0] == '\n' {
    } else {
        lemma_first_nl(t.drop_first());
        assert forall|j: int| 0 <= j < first_nl(t) implies t[j] != '\n' by {
            if j > 0 {
                assert(t.drop_first()[j - 1] == t[j]);
            }
        }
    }
}

pub proof fn lemma_first_nl_is(t: Seq<char>, k: int)
    requires
        0 <= k < t.len(),
        t[k] == '\n',
        forall|j: int| 0 <= j < k ==> t[j] != '\n',
    ensures
        first_nl(t) == k,
    decreases k,
{
    if k == 0 {
    } else {
        assert(t[0] != '\n');
        assert forall|j: int| 0 <= j < k - 1 implies t.drop_first()[j] != '\n' by {
            assert(t.drop_first()[j] == t[j + 1]);
        }
        assert(t.drop_first()[k - 1] == t[k]);
        lemma_first_nl_is(t.drop_first(), k - 1);
    }
}

pub proof fn lemma_first_nl_none(t: Seq<char>)
    requires
        forall|j: int| 0 <= j < t.len() ==> t[j] != '\n',
    ensures
        first_nl(t) == t.len(),
    decreases t.len(),
{
    if t.len() == 0 {
    } else {
        assert forall|j: int| 0 <= j < t.drop_first().len() implies t.drop_first()[j] != '\n' by {
            assert(t.drop_first()[j] == t[j + 1]);
        }
        lemma_first_nl_none(t.drop_first());
    }
}

/// One step of splitting: with the first line feed at or after `start`
/// standing at `i`, the lines of the suffix from `start` are the stripped
/// segment before `i` followed by the lines of the suffix after `i`.
proof fn lemma_lines_step(t: Seq<char>, start: int, i: int)
    requires
        0 <= start <= i < t.len(),
        t[i] == '\n',
        forall|j: int| start <= j < i ==> t[j] != '\n',
    ensures
        spec_lines(t.skip(start)) == seq![strip_cr(t.subrange(start, i))] + spec_lines(
            t.skip(i + 1),
        ),
{
    let rest = t.skip(start);
    assert forall|j: int| 0 <= j < i - start implies rest[j] != '\n' by {
        assert(rest[j] == t[start + j]);
    }
    assert(rest[i - start] == t[i]);
    lemma_first_nl_is(rest, i - start);
    assert(rest.take(i - start) =~= t.subrange(start, i));
    assert(rest.skip(i - start + 1) =~= t.skip(i + 1));
}

/// The tail of splitting: from `start` to the end there is no line feed, so
/// the suffix is one line when nonempty and no line at all when empty.
proof fn lemma_lines_tail(t: Seq<char>, start: int)
    requires
        0 <= start <= t.len(),
        forall|j: int| start <= j < t.len() ==> t[j] != '\n',
    ensures
        start < t.len() ==> spec_lines(t.skip(start)) == seq![t.skip(start)],
        start == t.len() ==> spec_lines(t.skip(start)) == Seq::<Seq<char>>::empty(),
{
    let rest = t.skip(start);
    assert forall|j: int| 0 <= j < rest.len() implies rest[j] != '\n' by {
        assert(rest[j] == t[start + j]);
    }
    lemma_first_nl_none(rest);
    if start == t.len() {
        assert(rest =~= Seq::<char>::empty());
    }
}

/// Persisting one more line appends that line and a line feed.
proof fn lemma_persist_push(rows: Seq<Seq<char>>, r: Seq<char>)
    ensures
        spec_persist(rows.push(r)) == spec_persist(rows) + r + seq!['\n'],
    decreases rows.len(),
{
    if rows.len() == 0 {
        assert(rows.push(r).drop_first() =~= rows);
        assert(rows.push(r).first() == r);
        assert(spec_persist(rows) =~= Seq::<char>::empty());
        assert(spec_persist(rows.push(r)) =~= spec_persist(rows) + r + seq!['\n']);
    } else {
        assert(rows.push(r).drop_first() =~= rows.drop_first().push(r));
        assert(rows.push(r).first() == rows.first());
        lemma_persist_push(rows.drop_first(), r);
        assert(spec_persist(rows.push(r)) =~= spec_persist(rows) + r + seq!['\n']);
    }
}

/// Round trip: a text in which every line ends with a line feed, and no
/// line feed is preceded by a carriage return, loads into lines that
/// persist back to exactly the original text.
pub proof fn lemma_persist_load_round_trip(text: Seq<char>)
    requires
        text.len() == 0 || text.last() == '\n',
        forall|i: int| 0 <= i < text.len() - 1 ==> !(#[trigger] text[i] == '\r' && text[i + 1]
            == '\n'),
    ensures
        spec_persist(spec_lines(text)) == text,
    decreases text.len(),
{
    if text.len() > 0 {
        lemma_first_nl(text);
        let i = first_nl(text) as int;
        assert(i < text.len()) by {
            if i == text.len() {
                assert(text[text.len() - 1] == '\n');
            }
        }
        let seg = text.take(i);
        let rest = text.skip(i + 1);
        assert(strip_cr(seg) == seg) by {
            if seg.len() > 0 && seg.last() == '\r' {
                assert(text[i - 1] == '\r' && text[i] == '\n');
            }
        }
        assert(rest.len() == 0 || rest.last() == '\n') by {
            if rest.len() > 0 {
                assert(rest.last() == text.last());
            }
        }
        assert forall|j: int| 0 <= j < rest.len() - 1 implies !(#[trigger] rest[j] == '\r'
            && rest[j + 1] == '\n') by {
            assert(rest[j] == text[i + 1 + j]);
            assert(rest[j + 1] == text[i + 1 + j + 1]);
        }
        lemma_persist_load_round_trip(rest);
        let lines = seq![seg] + spec_lines(rest);
        assert(spec_lines(text) == lines);
        assert(lines.first() == seg);
        assert(lines.drop_first() =~= spec_lines(rest));
        assert(spec_persist(lines) == seg + seq!['\n'] + rest);
        assert(seg + seq!['\n'] + rest =~= text);
    }
}

/// An ordered sequence of lines; line 0 is topmost. The name of the file it
/// came from, if any, rides along for saving and display.
pub struct Document {
    rows: Vec<Row>,
    file_name: Option<String>,
}

impl View for Document {
    type V = Seq<Seq<char>>;

    closed spec fn view(&self) -> Seq<Seq<char>> {
        self.rows@.map_values(|r: Row| r@)
    }
}

impl Document {
    /// Every line's cached grapheme count is accurate.
    pub closed spec fn wf(&self) -> bool {
        forall|i: int| 0 <= i < self.rows@.len() ==> (#[trigger] self.rows@[i]).wf()
    }

    /// The name of the file this buffer came from, if any.
    pub closed spec fn spec_file_name(&self) -> Option<String> {
        self.file_name
    }

    /// A buffer never holds more lines than `usize` can count.
    pub proof fn lemma_len_bound(&self)
        ensures
            self@.len() <= usize::MAX,
    {
        vstd::std_specs::vec::axiom_spec_len(&self.rows);
    }

    pub fn file_name(&self) -> (r: &Option<String>)
        ensures
            *r == self.spec_file_name(),
    {
        &self.file_name
    }

    /// Records where the buffer persists to; the lines are untouched.
    pub fn set_file_name(&mut self, name: Option<String>)
        ensures
            final(self)@ == old(self)@,
            final(self).wf() == old(self).wf(),
            final(self).spec_file_name() == name,
    {
        self.file_name = name;
    }

    /// An empty buffer: no lines at all, which is the legitimate state of a
    /// freshly started editor without a file.
    pub fn new() -> (d: Document)
        ensures
            d.wf(),
            d@ == Seq::<Seq<char>>::empty(),
            d.spec_file_name() == None::<String>,
    {
        let d = Document { rows: Vec::new(), file_name: None };
        proof {
            assert(d@ =~= Seq::<Seq<char>>::empty());
        }
        d
    }

    /// Loads a buffer from text, one line per segment.
    pub fn load(text: &str) -> (d: Document)
        ensures
            d.wf(),
            d@ == spec_lines(text@),
            d.spec_file_name() == None::<String>,
    {
        let ghost t = text@;
        let n = text.unicode_len();
        let mut rows: Vec<Row> = Vec::new();
        let mut start: usize = 0;
        let mut i: usize = 0;
        proof {
            assert(t.skip(0) =~= t);
            assert(rows@.map_values(|r: Row| r@) =~= Seq::<Seq<char>>::empty());
        }
        while i < n
            invariant
                start <= i <= n,
                n == t.len(),
                text@ == t,
                spec_lines(t) == rows@.map_values(|r: Row| r@) + spec_lines(t.skip(start as int)),
                forall|j: int| start <= j < i ==> t[j] != '\n',
                forall|j: int| 0 <= j < rows@.len() ==> (#[trigger] rows@[j]).wf(),
            decreases n - i,
        {
            if text.get_char(i) == '\n' {
                let seg_end = if i > start && text.get_char(i - 1) == '\r' {
                    i - 1
                } else {
                    i
                };
                let seg = text.substring_char(start, seg_end);
                let row = Row::from(seg);
                proof {
                    lemma_lines_step(t, start as int, i as int);
                    assert(seg@ == strip_cr(t.subrange(start as int, i as int))) by {
                        if i > start && t[i - 1] == '\r' {
                            assert(t.subrange(start as int, i as int).last() == t[i - 1]);
                            assert(t.subrange(start as int, i as int).drop_last() =~= t.subrange(
                                start as int,
                                i - 1,
                            ));
                        } else if i > start {
                            assert(t.subrange(start as int, i as int).last() == t[i - 1]);
                        }
                    }
                    let old_map = rows@.map_values(|r: Row| r@);
                    assert(rows@.push(row).map_values(|r: Row| r@) =~= old_map.push(seg@));
                    assert(old_map + (seq![seg@] + spec_lines(t.skip(i + 1))) =~= old_map.push(
                        seg@,
                    ) + spec_lines(t.skip(i + 1)));
                }
                rows.push(row);
                start = i + 1;
            }
            i += 1;
        }
        if start < n {
            let seg = text.substring_char(start, n);
            let row = Row::from(seg);
            proof {
                lemma_lines_tail(t, start as int);
                assert(seg@ == t.skip(start as int));
                let old_map = rows@.map_values(|r: Row| r@);
                assert(rows@.push(row).map_values(|r: Row| r@) =~= old_map.push(seg@));
                assert(old_map + seq![seg@] =~= old_map.push(seg@));
            }
            rows.push(row);
        } else {
            proof {
                lemma_lines_tail(t, start as int);
                assert(rows@.map_values(|r: Row| r@) + Seq::<Seq<char>>::empty()
                    =~= rows@.map_values(|r: Row| r@));
            }
        }
        Document { rows, file_name: None }
    }

    /// The persisted form of the buffer: every line followed by a line
    /// feed. This is the exact inverse of loading, for texts of the shape
    /// `lemma_persist_load_round_trip` names.
    pub fn persist(&self) -> (s: String)
        ensures
            s@ == spec_persist(self@),
    {
        let mut s = String::new();
        let mut i: usize = 0;
        proof {
            assert(self@.take(0) =~= Seq::<Seq<char>>::empty());
        }
        while i < self.rows.len()
            invariant
                i <= self.rows@.len(),
                self@.len() == self.rows@.len(),
                s@ == spec_persist(self@.take(i as int)),
            decreases self.rows@.len() - i,
        {
            let row = &self.rows[i];
            s.append(row.contents());
            crate::graphemes::push_char(&mut s, '\n');
            proof {
                assert(self@.take(i + 1) =~= self@.take(i as int).push(self@[i as int]));
                lemma_persist_push(self@.take(i as int), self@[i as int]);
                assert(row@ == self@[i as int]);
            }
            i += 1;
        }
        proof {
            assert(self@.take(self.rows@.len() as int) =~= self@);
        }
        s
    }

    /// Bounds-checked line lookup.
    pub fn row(&self, index: usize) -> (r: Option<&Row>)
        ensures
            match r {
                Some(row) => index < self@.len() && row@ == self@[index as int] && (self.wf()
                    ==> row.wf()),
                None => index >= self@.len(),
            },
    {
        if index < self.rows.len() {
            Some(&self.rows[index])
        } else {
            None
        }
    }

    pub fn is_empty(&self) -> (r: bool)
        ensures
            r == (self@.len() == 0),
    {
        self.rows.is_empty()
    }

    pub fn len(&self) -> (n: usize)
        ensures
            n == self@.len(),
    {
        self.rows.len()
    }

    /// Inserts a character at a buffer position. One line past the end, a
    /// fresh line is appended first; a line feed splits the addressed line.
    pub fn insert(&mut self, at: &Position, c: char)
        requires
            old(self).wf(),
        ensures
            final(self).wf(),
            final(self)@ == spec_doc_insert(old(self)@, at.x as int, at.y as int, c),
            final(self).spec_file_name() == old(self).spec_file_name(),
    {
        if c == '\n' {
            self.insert_newline(at);
            return;
        }
        if at.y == self.rows.len() {
            let mut row = Row::default();
            row.insert(at.x, c);
            proof {
                let old_map = old(self)@;
                assert(self.rows@.push(row).map_values(|r: Row| r@) =~= old_map.push(row@));
            }
            self.rows.push(row);
        } else if at.y < self.rows.len() {
            proof {
                assert(self.rows@[at.y as int].wf());
            }
            let row = &mut self.rows[at.y];
            row.insert(at.x, c);
            proof {
                assert(self.rows@.map_values(|r: Row| r@) =~= old(self)@.update(
                    at.y as int,
                    spec_insert_at(old(self)@[at.y as int], at.x as int, c),
                ));
            }
        }
    }

    /// Splits line `y` at column `x`: the clusters before `x` stay, the
    /// rest become a fresh line right below.
    fn insert_newline(&mut self, at: &Position)
        requires
            old(self).wf(),
        ensures
            final(self).wf(),
            final(self)@ == spec_doc_insert(old(self)@, at.x as int, at.y as int, '\n'),
            final(self).spec_file_name() == old(self).spec_file_name(),
    {
        if at.y > self.rows.len() {
            return;
        }
        if at.y == self.rows.len() {
            let row = Row::default();
            proof {
                assert(self.rows@.push(row).map_values(|r: Row| r@) =~= old(self)@.push(
                    Seq::<char>::empty(),
                ));
            }
            self.rows.push(row);
            return;
        }
        proof {
            assert(self.rows@[at.y as int].wf());
        }
        let (head, tail) = self.rows[at.y].split(at.x);
        let ghost old_doc = old(self)@;
        self.rows[at.y] = head;
        self.rows.insert(at.y + 1, tail);
        proof {
            let g = graphemes_of(old_doc[at.y as int]);
            let a = clamp_at(old_doc[at.y as int], at.x as int);
            assert(self.rows@.map_values(|r: Row| r@) =~= old_doc.update(
                at.y as int,
                g.take(a).flatten(),
            ).insert(at.y + 1, g.skip(a).flatten()));
        }
    }

    /// Deletes at a buffer position: at the end of a line with a successor,
    /// the successor is joined onto it (the line break disappears);
    /// otherwise the cluster at the column is removed.
    pub fn delete(&mut self, at: &Position)
        requires
            old(self).wf(),
        ensures
            final(self).wf(),
            final(self)@ == spec_doc_delete(old(self)@, at.x as int, at.y as int),
            final(self).spec_file_name() == old(self).spec_file_name(),
    {
        let len = self.rows.len();
        if at.y >= len {
            return;
        }
        proof {
            assert(self.rows@[at.y as int].wf());
        }
        let row_len = self.rows[at.y].len();
        if at.x == row_len && at.y + 1 < len {
            let next = self.rows.remove(at.y + 1);
            let ghost old_doc = old(self)@;
            let row = &mut self.rows[at.y];
            row.append(&next);
            proof {
                assert(self.rows@.map_values(|r: Row| r@) =~= old_doc.update(
                    at.y as int,
                    old_doc[at.y as int] + old_doc[at.y + 1],
                ).remove(at.y + 1));
            }
        } else {
            let row = &mut self.rows[at.y];
            row.delete(at.x);
            proof {
                assert(self.rows@.map_values(|r: Row| r@) =~= old(self)@.update(
                    at.y as int,
                    spec_delete_at(old(self)@[at.y as int], at.x as int),
                ));
            }
        }
    }
}

} // verus!
