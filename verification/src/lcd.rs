//! Differential rendering for a two-line, sixteen-column character display.
//!
//! The renderer remembers the character it last wrote to every cell. Asked
//! for a new text, it compares cell by cell and hands back one write for each
//! cell that has to change, and none for those that already show the right
//! character.
use vstd::prelude::*;
use vstd::std_specs::iter::IteratorSpec;

verus! {

/// Number of cells in one display line.
pub const LINE_WIDTH: usize = 16;

/// Device address of the first cell of the upper line.
pub const FIRST_LINE_ADDRESS: u8 = 0x00;

/// Device address of the first cell of the lower line.
pub const SECOND_LINE_ADDRESS: u8 = 0x40;

/// Highest address a line may start at so that all its cells are addressable.
pub const MAX_LINE_ADDRESS: u8 = 240;

/// One command for the display: move the cursor to `pos`, then write `ch`.
#[derive(Debug, Clone, Copy, PartialEq, Eq, Structural)]
pub struct CellWrite {
    pub pos: u8,
    pub ch: char,
}

/// The text a line is brought to for `text`: its first sixteen characters,
/// filled up with spaces where it has fewer.
pub open spec fn padded(text: Seq<char>) -> Seq<char> {
    Seq::new(
        LINE_WIDTH as nat,
        |i: int|
            if i < text.len() {
                text[i]
            } else {
                ' '
            },
    )
}

/// A line of spaces.
pub open spec fn blank() -> Seq<char> {
    Seq::new(LINE_WIDTH as nat, |i: int| ' ')
}

/// The positions at which two texts of the same length differ.
pub open spec fn differing(prev: Seq<char>, next: Seq<char>) -> Set<int> {
    Set::new(|i: int| 0 <= i < prev.len() && prev[i] != next[i])
}

/// The number of positions at which two texts of the same length differ.
pub open spec fn hamming_distance(prev: Seq<char>, next: Seq<char>) -> nat {
    differing(prev, next).len()
}

/// The write that puts the character of `next` into cell `i` of a line at
/// `base`.
pub open spec fn cell_write_at(next: Seq<char>, base: u8, i: int) -> CellWrite {
    CellWrite { pos: (base + i) as u8, ch: next[i] }
}

/// The writes that turn the first `n` cells of a line at `base` from `prev`
/// into `next`: in rising order of position, one for each cell that differs,
/// carrying the cell's address and its new character.
pub open spec fn writes_upto(prev: Seq<char>, next: Seq<char>, base: u8, n: int) -> Seq<CellWrite>
    decreases n,
{
    if n <= 0 {
        Seq::empty()
    } else {
        let earlier = writes_upto(prev, next, base, n - 1);
        if prev[n - 1] != next[n - 1] {
            earlier.push(cell_write_at(next, base, n - 1))
        } else {
            earlier
        }
    }
}

/// What a line remembers: the address of its first cell and the characters
/// it believes the display shows.
pub struct LineView {
    pub base: u8,
    pub cells: Seq<char>,
}

impl LineView {
    /// A line of sixteen cells that lies within the address space.
    pub open spec fn wf(self) -> bool {
        &&& self.cells.len() == LINE_WIDTH
        &&& self.base <= MAX_LINE_ADDRESS
    }

    /// A line at `base` showing only spaces.
    pub open spec fn blank(base: u8) -> LineView {
        LineView { base, cells: blank() }
    }

    /// The writes that bring the line to `text`.
    pub open spec fn writes_for(self, text: Seq<char>) -> Seq<CellWrite> {
        writes_upto(self.cells, padded(text), self.base, LINE_WIDTH as int)
    }

    /// The line once it shows `text`.
    pub open spec fn updated(self, text: Seq<char>) -> LineView {
        LineView { base: self.base, cells: padded(text) }
    }
}

/// The positions below `n` at which two texts differ.
spec fn differing_upto(prev: Seq<char>, next: Seq<char>, n: int) -> Set<int> {
    Set::new(|i: int| 0 <= i < n && prev[i] != next[i])
}

proof fn lemma_writes_upto_len(prev: Seq<char>, next: Seq<char>, base: u8, n: int)
    requires
        0 <= n,
    ensures
        differing_upto(prev, next, n).finite(),
        writes_upto(prev, next, base, n).len() == differing_upto(prev, next, n).len(),
        writes_upto(prev, next, base, n).len() <= n,
    decreases n,
{
    if n == 0 {
        assert(differing_upto(prev, next, 0) =~= Set::<int>::empty());
    } else {
        lemma_writes_upto_len(prev, next, base, n - 1);
        let before = differing_upto(prev, next, n - 1);
        if prev[n - 1] != next[n - 1] {
            assert(differing_upto(prev, next, n) =~= before.insert(n - 1));
        } else {
            assert(differing_upto(prev, next, n) =~= before);
        }
    }
}

/// An update issues as many writes as there are cells in which the line and
/// the new text differ.
pub proof fn lemma_write_count_is_hamming_distance(line: LineView, text: Seq<char>)
    requires
        line.wf(),
    ensures
        line.writes_for(text).len() == hamming_distance(line.cells, padded(text)),
        hamming_distance(line.cells, padded(text)) <= LINE_WIDTH,
{
    lemma_writes_upto_len(line.cells, padded(text), line.base, LINE_WIDTH as int);
    assert(differing(line.cells, padded(text)) =~= differing_upto(
        line.cells,
        padded(text),
        LINE_WIDTH as int,
    ));
}

/// Between two updates in a row, the second issues as many writes as there
/// are cells in which the two texts differ once both are cut or filled up to
/// sixteen characters. What the line showed before the first does not matter.
pub proof fn lemma_consecutive_updates(line: LineView, first: Seq<char>, second: Seq<char>)
    requires
        line.wf(),
    ensures
        line.updated(first).writes_for(second).len() == hamming_distance(
            padded(first),
            padded(second),
        ),
{
    lemma_write_count_is_hamming_distance(line.updated(first), second);
}

proof fn lemma_writes_upto_same(cells: Seq<char>, base: u8, n: int)
    ensures
        writes_upto(cells, cells, base, n) == Seq::<CellWrite>::empty(),
    decreases n,
{
    if n > 0 {
        lemma_writes_upto_same(cells, base, n - 1);
    }
}

/// Updating a line to the text it was last updated to issues no write and
/// changes nothing.
pub proof fn lemma_repeated_update_is_silent(line: LineView, text: Seq<char>)
    ensures
        line.updated(text).writes_for(text) == Seq::<CellWrite>::empty(),
        line.updated(text).updated(text) == line.updated(text),
        hamming_distance(padded(text), padded(text)) == 0,
{
    lemma_writes_upto_same(padded(text), line.base, LINE_WIDTH as int);
    assert(differing(padded(text), padded(text)) =~= Set::<int>::empty());
}

/// A text is cut after sixteen characters; a shorter one keeps its characters
/// and is filled up with spaces; the empty text gives the blank line.
pub proof fn lemma_padded_shape(text: Seq<char>)
    ensures
        padded(text).len() == LINE_WIDTH,
        padded(Seq::empty()) == blank(),
        text.len() >= LINE_WIDTH ==> padded(text) == text.subrange(0, LINE_WIDTH as int),
        text.len() <= LINE_WIDTH ==> padded(text) == text + Seq::new(
            (LINE_WIDTH - text.len()) as nat,
            |i: int| ' ',
        ),
{
    assert(padded(Seq::empty()) =~= blank());
    if text.len() >= LINE_WIDTH {
        assert(padded(text) =~= text.subrange(0, LINE_WIDTH as int));
    }
    if text.len() <= LINE_WIDTH {
        assert(padded(text) =~= text + Seq::new((LINE_WIDTH - text.len()) as nat, |i: int| ' '));
    }
}

proof fn lemma_writes_upto_shape(prev: Seq<char>, next: Seq<char>, base: u8, n: int)
    requires
        0 <= n,
        base + n <= 256,
    ensures
        forall|k: int|
            #![trigger writes_upto(prev, next, base, n)[k]]
            0 <= k < writes_upto(prev, next, base, n).len() ==> {
                let w = writes_upto(prev, next, base, n)[k];
                &&& base <= w.pos < base + n
                &&& prev[w.pos - base] != next[w.pos - base]
                &&& w.ch == next[w.pos - base]
            },
        forall|j: int, k: int|
            #![trigger writes_upto(prev, next, base, n)[j], writes_upto(prev, next, base, n)[k]]
            0 <= j < k < writes_upto(prev, next, base, n).len() ==> writes_upto(
                prev,
                next,
                base,
                n,
            )[j].pos < writes_upto(prev, next, base, n)[k].pos,
        forall|i: int|
            0 <= i < n && prev[i] != next[i] ==> writes_upto(prev, next, base, n).contains(
                #[trigger] cell_write_at(next, base, i),
            ),
    decreases n,
{
    if n > 0 {
        lemma_writes_upto_shape(prev, next, base, n - 1);
        let earlier = writes_upto(prev, next, base, n - 1);
        let all = writes_upto(prev, next, base, n);
        if prev[n - 1] != next[n - 1] {
            let last = cell_write_at(next, base, n - 1);
            assert(all == earlier.push(last));
            assert(all[earlier.len() as int] == last);
            assert forall|i: int| 0 <= i < n && prev[i] != next[i] implies all.contains(
                #[trigger] cell_write_at(next, base, i),
            ) by {
                if i < n - 1 {
                    let k = choose|k: int|
                        0 <= k < earlier.len() && earlier[k] == cell_write_at(next, base, i);
                    assert(all[k] == cell_write_at(next, base, i));
                }
            }
        } else {
            assert(all == earlier);
        }
    }
}

/// What an update issues, cell by cell: every write goes to a cell of the
/// line that shows something else than the new text and carries the new
/// character; the writes come in rising order of address; and every cell that
/// has to change gets its write.
pub proof fn lemma_writes_are_the_changes(line: LineView, text: Seq<char>)
    requires
        line.wf(),
    ensures
        forall|k: int|
            #![trigger line.writes_for(text)[k]]
            0 <= k < line.writes_for(text).len() ==> {
                let w = line.writes_for(text)[k];
                &&& line.base <= w.pos < line.base + LINE_WIDTH
                &&& line.cells[w.pos - line.base] != padded(text)[w.pos - line.base]
                &&& w.ch == padded(text)[w.pos - line.base]
            },
        forall|j: int, k: int|
            #![trigger line.writes_for(text)[j], line.writes_for(text)[k]]
            0 <= j < k < line.writes_for(text).len() ==> line.writes_for(text)[j].pos
                < line.writes_for(text)[k].pos,
        forall|i: int|
            0 <= i < LINE_WIDTH && line.cells[i] != padded(text)[i] ==> line.writes_for(
                text,
            ).contains(#[trigger] cell_write_at(padded(text), line.base, i)),
{
    lemma_writes_upto_shape(line.cells, padded(text), line.base, LINE_WIDTH as int);
}

/// One display cell: its device address and the character last written to it.
#[derive(Clone, Copy)]
pub struct LcdChar {
    last_ch: char,
    pos: u8,
}

impl LcdChar {
    /// The character the cell is believed to show.
    pub closed spec fn shown(&self) -> char {
        self.last_ch
    }

    /// The device address of the cell.
    pub closed spec fn address(&self) -> u8 {
        self.pos
    }

    /// A cell at `pos` showing a space.
    pub fn new(pos: u8) -> (cell: LcdChar)
        ensures
            cell.shown() == ' ',
            cell.address() == pos,
    {
        LcdChar { last_ch: ' ', pos }
    }

    /// Brings the cell to `ch`. Returns the write to issue when the cell
    /// shows something else, and nothing when it already shows `ch`.
    pub fn write(&mut self, ch: &char) -> (issued: Option<CellWrite>)
        ensures
            final(self).address() == old(self).address(),
            final(self).shown() == *ch,
            issued == if old(self).shown() != *ch {
                Some(CellWrite { pos: old(self).address(), ch: *ch })
            } else {
                None::<CellWrite>
            },
        no_unwind
    {
        if self.last_ch != *ch {
            self.last_ch = *ch;
            Some(CellWrite { pos: self.pos, ch: *ch })
        } else {
            None
        }
    }
}

/// One line of the display.
#[derive(Clone, Copy)]
pub struct LcdLine {
    cells: [LcdChar; LINE_WIDTH],
}

impl View for LcdLine {
    type V = LineView;

    closed spec fn view(&self) -> LineView {
        LineView {
            base: self.cells[0].pos,
            cells: Seq::new(LINE_WIDTH as nat, |i: int| self.cells[i].last_ch),
        }
    }
}

impl LcdLine {
    #[verifier::type_invariant]
    spec fn addresses_consecutive(self) -> bool {
        forall|i: int| 0 <= i < LINE_WIDTH ==> (#[trigger] self.cells[i]).pos == self.cells[0].pos + i
    }

    /// A blank line whose first cell is at `line_address`.
    pub fn new(line_address: u8) -> (line: LcdLine)
        requires
            line_address <= MAX_LINE_ADDRESS,
        ensures
            line@ == LineView::blank(line_address),
            line@.wf(),
    {
        let mut cells = [LcdChar { last_ch: ' ', pos: line_address }; LINE_WIDTH];
        let mut i: usize = 0;
        while i < LINE_WIDTH
            invariant
                i <= LINE_WIDTH,
                line_address <= MAX_LINE_ADDRESS,
                forall|j: int| 0 <= j < LINE_WIDTH ==> (#[trigger] cells[j]).last_ch == ' ',
                forall|j: int| 0 <= j < i ==> (#[trigger] cells[j]).pos == line_address + j,
                cells[0].pos == line_address,
            decreases LINE_WIDTH - i,
        {
            cells[i] = LcdChar { last_ch: ' ', pos: line_address + i as u8 };
            i += 1;
        }
        let line = LcdLine { cells };
        assert(line@.cells =~= LineView::blank(line_address).cells);
        line
    }

    /// The characters the line is believed to show.
    pub fn text(&self) -> (cells: Vec<char>)
        ensures
            cells@ == self@.cells,
    {
        let mut cells: Vec<char> = Vec::new();
        let mut i: usize = 0;
        while i < LINE_WIDTH
            invariant
                i <= LINE_WIDTH,
                cells@.len() == i,
                forall|j: int| 0 <= j < i ==> cells@[j] == (#[trigger] self.cells[j]).last_ch,
            decreases LINE_WIDTH - i,
        {
            cells.push(self.cells[i].last_ch);
            i += 1;
        }
        assert(cells@ =~= self@.cells);
        cells
    }

    /// Brings the line to `line`, cut off after sixteen characters or filled
    /// up with spaces, and returns the writes to issue, in rising order of
    /// position: one for each cell that changes, none for the others.
    pub fn update(&mut self, line: &str) -> (writes: Vec<CellWrite>)
        ensures
            // Every line is well formed, before the call and after it.
            old(self)@.wf(),
            final(self)@.wf(),
            final(self)@ == old(self)@.updated(line@),
            writes@ == old(self)@.writes_for(line@),
            writes@.len() == hamming_distance(old(self)@.cells, padded(line@)),
            writes@.len() <= LINE_WIDTH,
    {
        proof {
            use_type_invariant(&*self);
            assert(self.cells[LINE_WIDTH - 1].pos == self.cells[0].pos + (LINE_WIDTH - 1));
        }
        let ghost before = self@;
        let ghost target = padded(line@);
        let mut writes: Vec<CellWrite> = Vec::new();
        let mut chars = line.chars();
        let mut i: usize = 0;
        while i < LINE_WIDTH
            invariant
                i <= LINE_WIDTH,
                target == padded(line@),
                chars.obeys_prophetic_iter_laws(),
                chars.remaining() =~= line@.skip(if i <= line@.len() { i as int } else { line@.len() as int }),
                before.wf(),
                self@.base == before.base,
                forall|j: int| 0 <= j < LINE_WIDTH ==> (#[trigger] self.cells[j]).pos == before.base + j,
                forall|j: int| 0 <= j < i ==> (#[trigger] self.cells[j]).last_ch == target[j],
                forall|j: int| i <= j < LINE_WIDTH ==> (#[trigger] self.cells[j]).last_ch == before.cells[j],
                writes@ == writes_upto(before.cells, target, before.base, i as int),
            decreases LINE_WIDTH - i,
        {
            let ch = match chars.next() {
                Some(c) => c,
                None => ' ',
            };
            assert(ch == target[i as int]);
            match self.cells[i].write(&ch) {
                Some(w) => writes.push(w),
                None => {},
            }
            i += 1;
        }
        assert(self@.cells =~= target);
        proof {
            lemma_write_count_is_hamming_distance(before, line@);
        }
        writes
    }
}

/// What the display shows, line by line.
pub struct LcdView {
    pub first: Seq<char>,
    pub second: Seq<char>,
}

impl LcdView {
    /// Both lines hold sixteen characters.
    pub open spec fn wf(self) -> bool {
        &&& self.first.len() == LINE_WIDTH
        &&& self.second.len() == LINE_WIDTH
    }

    /// A display showing only spaces.
    pub open spec fn blank() -> LcdView {
        LcdView { first: self::blank(), second: self::blank() }
    }

    /// The upper line with its device address.
    pub open spec fn first_line(self) -> LineView {
        LineView { base: FIRST_LINE_ADDRESS, cells: self.first }
    }

    /// The lower line with its device address.
    pub open spec fn second_line(self) -> LineView {
        LineView { base: SECOND_LINE_ADDRESS, cells: self.second }
    }
}

/// The two lines of the display, the upper one at device addresses
/// `0x00..0x10`, the lower one at `0x40..0x50`.
pub struct Lcd {
    line1: LcdLine,
    line2: LcdLine,
}

impl View for Lcd {
    type V = LcdView;

    closed spec fn view(&self) -> LcdView {
        LcdView { first: self.line1@.cells, second: self.line2@.cells }
    }
}

impl Lcd {
    #[verifier::type_invariant]
    spec fn lines_at_their_addresses(self) -> bool {
        &&& self.line1@ == self@.first_line()
        &&& self.line2@ == self@.second_line()
    }

    /// A display with both lines blank.
    pub fn new() -> (lcd: Lcd)
        ensures
            lcd@ == LcdView::blank(),
            lcd@.wf(),
    {
        Lcd { line1: LcdLine::new(FIRST_LINE_ADDRESS), line2: LcdLine::new(SECOND_LINE_ADDRESS) }
    }

    /// The characters the upper line is believed to show.
    pub fn first_text(&self) -> (cells: Vec<char>)
        ensures
            cells@ == self@.first,
    {
        self.line1.text()
    }

    /// The characters the lower line is believed to show.
    pub fn second_text(&self) -> (cells: Vec<char>)
        ensures
            cells@ == self@.second,
    {
        self.line2.text()
    }

    /// Brings the upper line to `line` and returns the writes to issue. The
    /// lower line is left alone.
    pub fn update_first_line(&mut self, line: &str) -> (writes: Vec<CellWrite>)
        ensures
            old(self)@.wf(),
            final(self)@.first == padded(line@),
            final(self)@.second == old(self)@.second,
            writes@ == old(self)@.first_line().writes_for(line@),
            writes@.len() == hamming_distance(old(self)@.first, padded(line@)),
            writes@.len() <= LINE_WIDTH,
    {
        proof {
            use_type_invariant(&*self);
        }
        // The line is updated on a copy and stored back whole.
        let mut row = self.line1;
        let writes = row.update(line);
        self.line1 = row;
        writes
    }

    /// Brings the lower line to `line` and returns the writes to issue. The
    /// upper line is left alone.
    pub fn update_second_line(&mut self, line: &str) -> (writes: Vec<CellWrite>)
        ensures
            old(self)@.wf(),
            final(self)@.first == old(self)@.first,
            final(self)@.second == padded(line@),
            writes@ == old(self)@.second_line().writes_for(line@),
            writes@.len() == hamming_distance(old(self)@.second, padded(line@)),
            writes@.len() <= LINE_WIDTH,
    {
        proof {
            use_type_invariant(&*self);
        }
        let mut row = self.line2;
        let writes = row.update(line);
        self.line2 = row;
        writes
    }

    /// Brings both lines to their texts and returns the writes to issue:
    /// those of the upper line, then those of the lower line. The display is
    /// never cleared.
    pub fn update_two_lines(&mut self, line1: &str, line2: &str) -> (writes: Vec<CellWrite>)
        ensures
            old(self)@.wf(),
            final(self)@.first == padded(line1@),
            final(self)@.second == padded(line2@),
            writes@ == old(self)@.first_line().writes_for(line1@) + old(
                self,
            )@.second_line().writes_for(line2@),
            writes@.len() == hamming_distance(old(self)@.first, padded(line1@)) + hamming_distance(
                old(self)@.second,
                padded(line2@),
            ),
    {
        let mut writes = self.update_first_line(line1);
        let mut lower = self.update_second_line(line2);
        writes.append(&mut lower);
        writes
    }
}

} // verus!
