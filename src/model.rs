use vstd::prelude::*;

verus! {

/// The largest length a buffer may reach: positions fit a 31-bit signed integer.
pub const MAX_LEN: u32 = 0x7fff_ffff;

/// Whether `c` counts as part of a word: letters, digits, `_` and every non-ASCII character.
pub open spec fn is_word_char(c: char) -> bool {
    ('a' <= c && c <= 'z') || ('A' <= c && c <= 'Z') || ('0' <= c && c <= '9') || c == '_'
        || (c as u32) >= 0x80
}

/// What one change did, as its listeners see it.
pub struct Change {
    pub pos: u32,
    pub inserted: u32,
    pub deleted: u32,
    pub restyled: u32,
    pub deleted_text: Seq<char>,
}

/// What `undo` puts back: `inserted` characters at `pos` are replaced by `deleted`.
pub struct UndoStep {
    pub pos: u32,
    pub inserted: u32,
    pub deleted: Seq<char>,
}

/// The abstract state of a buffer.
pub struct BufferView {
    pub content: Seq<char>,
    pub selection: Option<(u32, u32)>,
    pub highlight: Option<(u32, u32)>,
    pub tab_distance: u32,
    pub undo_enabled: bool,
    pub undo: Option<UndoStep>,
    pub listeners: Seq<u64>,
    pub pending: Seq<(u64, Change)>,
    pub last_change: Option<Change>,
}

/// A range that lies within a text of length `len`.
pub open spec fn range_within(r: Option<(u32, u32)>, len: int) -> bool {
    match r {
        None => true,
        Some((s, e)) => s <= e && e <= len,
    }
}

/// Where position `p` goes when `del` characters at `pos` are replaced by `ins` characters.
pub open spec fn moved(p: int, pos: int, del: int, ins: int) -> int {
    if p < pos {
        p
    } else if p >= pos + del {
        p - del + ins
    } else {
        pos
    }
}

/// A range after `del` characters at `pos` are replaced by `ins` characters: a range that
/// lay wholly in the removed text is gone, text inserted just after a non-empty range stays
/// outside it, and any other range has each end moved.
pub open spec fn shifted(r: Option<(u32, u32)>, pos: int, del: int, ins: int) -> Option<(u32, u32)> {
    match r {
        None => None,
        Some((s, e)) => if del > 0 && pos <= s && e <= pos + del {
            None
        } else if del == 0 && s < pos && e == pos {
            Some((s, e))
        } else {
            Some((moved(s as int, pos, del, ins) as u32, moved(e as int, pos, del, ins) as u32))
        },
    }
}

/// One notification of `ev` for each listener, in registration order.
pub open spec fn notices(listeners: Seq<u64>, ev: Change) -> Seq<(u64, Change)> {
    listeners.map_values(|id: u64| (id, ev))
}

/// Whether a file's text can be loaded: it was read, and it is no longer than `MAX_LEN`.
pub open spec fn loadable(contents: Option<&str>) -> bool {
    contents is Some && contents->0@.len() <= MAX_LEN
}

/// The characters of `c` in range `r`; empty for no range.
pub open spec fn range_text(c: Seq<char>, r: Option<(u32, u32)>) -> Seq<char> {
    match r {
        None => Seq::empty(),
        Some((s, e)) => c.subrange(s as int, e as int),
    }
}

/// Where the line that holds `pos` starts: just after the last line break before `pos`.
pub open spec fn line_start_of(c: Seq<char>, pos: int) -> int
    decreases pos,
{
    if pos <= 0 {
        0
    } else if c[pos - 1] == '\n' {
        pos
    } else {
        line_start_of(c, pos - 1)
    }
}

/// Where the line that holds `pos` ends: at the first line break from `pos` on, or the end.
pub open spec fn line_end_of(c: Seq<char>, pos: int) -> int
    decreases c.len() - pos,
{
    if pos >= c.len() {
        c.len() as int
    } else if c[pos] == '\n' {
        pos
    } else {
        line_end_of(c, pos + 1)
    }
}

/// Where the run of word characters that ends at `pos` starts.
pub open spec fn word_start_of(c: Seq<char>, pos: int) -> int
    decreases pos,
{
    if pos <= 0 {
        0
    } else if !is_word_char(c[pos - 1]) {
        pos
    } else {
        word_start_of(c, pos - 1)
    }
}

/// Where the run of word characters that starts at `pos` ends.
pub open spec fn word_end_of(c: Seq<char>, pos: int) -> int
    decreases c.len() - pos,
{
    if pos >= c.len() {
        c.len() as int
    } else if !is_word_char(c[pos]) {
        pos
    } else {
        word_end_of(c, pos + 1)
    }
}

/// The number of line breaks in `s`.
pub open spec fn newlines(s: Seq<char>) -> nat
    decreases s.len(),
{
    if s.len() == 0 {
        0
    } else {
        newlines(s.drop_last()) + if s.last() == '\n' { 1nat } else { 0nat }
    }
}

/// The line that holds `pos` lies between its start and its end.
pub(crate) proof fn lemma_line_bounds(c: Seq<char>, pos: int)
    requires
        0 <= pos <= c.len(),
    ensures
        0 <= line_start_of(c, pos) <= pos <= line_end_of(c, pos) <= c.len(),
{
    lemma_line_start_bounds(c, pos);
    lemma_line_end_bounds(c, pos);
}

pub(crate) proof fn lemma_line_start_bounds(c: Seq<char>, pos: int)
    requires
        0 <= pos <= c.len(),
    ensures
        0 <= line_start_of(c, pos) <= pos,
    decreases pos,
{
    if pos > 0 && c[pos - 1] != '\n' {
        lemma_line_start_bounds(c, pos - 1);
    }
}

pub(crate) proof fn lemma_line_end_bounds(c: Seq<char>, pos: int)
    requires
        0 <= pos <= c.len(),
    ensures
        pos <= line_end_of(c, pos) <= c.len(),
    decreases c.len() - pos,
{
    if pos < c.len() && c[pos] != '\n' {
        lemma_line_end_bounds(c, pos + 1);
    }
}

/// Holds of every identifier but `id`.
pub open spec fn others(id: u64) -> spec_fn(u64) -> bool {
    |x: u64| x != id
}

/// `ins` put in place of `c[pos..pos + del]`.
pub open spec fn spliced(c: Seq<char>, pos: int, del: int, ins: Seq<char>) -> Seq<char> {
    c.subrange(0, pos) + ins + c.subrange(pos + del, c.len() as int)
}

impl BufferView {
    /// The state of a new buffer.
    pub open spec fn initial() -> BufferView {
        BufferView {
            content: Seq::empty(),
            selection: None,
            highlight: None,
            tab_distance: 8,
            undo_enabled: true,
            undo: None,
            listeners: Seq::empty(),
            pending: Seq::empty(),
            last_change: None,
        }
    }

    /// The invariant of every buffer.
    pub open spec fn inv(self) -> bool {
        &&& self.content.len() <= MAX_LEN
        &&& range_within(self.selection, self.content.len() as int)
        &&& range_within(self.highlight, self.content.len() as int)
        &&& self.listeners.no_duplicates()
        &&& match self.undo {
            None => true,
            Some(u) => {
                &&& self.undo_enabled
                &&& u.pos + u.inserted <= self.content.len()
                &&& self.content.len() - u.inserted + u.deleted.len() <= MAX_LEN
            },
        }
    }

    /// The event that replacing `del` characters at `pos` by `ins` reports.
    pub open spec fn change_event(self, pos: int, del: int, ins: Seq<char>) -> Change {
        Change {
            pos: pos as u32,
            inserted: ins.len() as u32,
            deleted: del as u32,
            restyled: 0,
            deleted_text: self.content.subrange(pos, pos + del),
        }
    }

    /// The state after `del` characters at `pos` are replaced by `ins`: ranges move, the
    /// change becomes the one to undo, and every listener is notified of it.
    pub open spec fn edit(self, pos: int, del: int, ins: Seq<char>) -> BufferView {
        let ev = self.change_event(pos, del, ins);
        BufferView {
            content: spliced(self.content, pos, del, ins),
            selection: shifted(self.selection, pos, del, ins.len() as int),
            highlight: shifted(self.highlight, pos, del, ins.len() as int),
            tab_distance: self.tab_distance,
            undo_enabled: self.undo_enabled,
            undo: if self.undo_enabled {
                Some(UndoStep { pos: pos as u32, inserted: ins.len() as u32, deleted: ev.deleted_text })
            } else {
                None
            },
            listeners: self.listeners,
            pending: self.pending + notices(self.listeners, ev),
            last_change: Some(ev),
        }
    }

    /// This state with `listeners` registered instead.
    pub open spec fn with_listeners(self, listeners: Seq<u64>) -> BufferView {
        BufferView { listeners, ..self }
    }

    /// The state after `ins` is put in place of range `r`; unchanged for no range.
    pub open spec fn replaced_range(self, r: Option<(u32, u32)>, ins: Seq<char>) -> BufferView {
        match r {
            None => self,
            Some((s, e)) => self.edit(s as int, e - s, ins),
        }
    }

    /// Whether `n` characters may be put in place of range `r`.
    pub open spec fn can_replace_range(self, r: Option<(u32, u32)>, n: int) -> bool {
        match r {
            None => true,
            Some((s, e)) => self.content.len() - (e - s) + n <= MAX_LEN,
        }
    }

    /// This state with content `c`.
    pub open spec fn with_content(self, c: Seq<char>) -> BufferView {
        BufferView { content: c, ..self }
    }

    /// This state with tab width `d`.
    pub open spec fn with_tab_distance(self, d: u32) -> BufferView {
        BufferView { tab_distance: d, ..self }
    }

    /// This state with selection `r`.
    pub open spec fn with_selection(self, r: Option<(u32, u32)>) -> BufferView {
        BufferView { selection: r, ..self }
    }

    /// This state with highlight `r`.
    pub open spec fn with_highlight(self, r: Option<(u32, u32)>) -> BufferView {
        BufferView { highlight: r, ..self }
    }

    /// This state with `pending` waiting for delivery instead.
    pub open spec fn with_pending(self, pending: Seq<(u64, Change)>) -> BufferView {
        BufferView { pending, ..self }
    }

    /// This state with undo turned on or off; off forgets the change to undo.
    pub open spec fn with_undo_enabled(self, flag: bool) -> BufferView {
        BufferView { undo_enabled: flag, undo: if flag { self.undo } else { None }, ..self }
    }

    /// This state after the change to undo is reverted, with nothing left to undo.
    pub open spec fn undone(self) -> BufferView
        recommends
            self.undo is Some,
    {
        let u = self.undo->0;
        BufferView { undo: None, ..self.edit(u.pos as int, u.inserted as int, u.deleted) }
    }

    /// The last change, or an all-zero change if there was none.
    pub open spec fn last_or_zero(self) -> Change {
        match self.last_change {
            Some(c) => c,
            None => Change { pos: 0, inserted: 0, deleted: 0, restyled: 0, deleted_text: Seq::empty() },
        }
    }

    /// Whether `del` characters at `pos` may be replaced by `n` characters.
    pub open spec fn can_edit(self, pos: int, del: int, n: int) -> bool {
        &&& 0 <= pos
        &&& 0 <= del
        &&& pos + del <= self.content.len()
        &&& self.content.len() - del + n <= MAX_LEN
    }
}

} // verus!
