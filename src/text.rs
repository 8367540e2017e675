use vstd::prelude::*;

use crate::error::FltkError;
use crate::model::{
    BufferView, Change, MAX_LEN, UndoStep, is_word_char, line_end_of, line_start_of, loadable,
    lemma_line_bounds, moved, newlines, notices, others, range_text, range_within, shifted,
    spliced, word_end_of, word_start_of,
};

verus! {

/// Whether `c` counts as part of a word.
pub fn word_char(c: char) -> (r: bool)
    ensures
        r == is_word_char(c),
{
    ('a' <= c && c <= 'z') || ('A' <= c && c <= 'Z') || ('0' <= c && c <= '9') || c == '_'
        || (c as u32) >= 0x80
}

/// Relies on `String::push`: appends one character to the string.
#[verifier::external_body]
fn push_char(s: &mut String, c: char)
    ensures
        final(s)@ == old(s)@.push(c),
{
    s.push(c)
}

/// The characters of `s`, in order.
fn chars_of(s: &str) -> (r: Vec<char>)
    ensures
        r@ == s@,
{
    let mut v: Vec<char> = Vec::new();
    for c in it: s.chars()
        invariant
            v@ == it.seq().take(it.index() as int),
    {
        v.push(c);
    }
    assert(v@ =~= s@);
    v
}

/// A string holding the characters `v[start..end]`.
fn string_of(v: &Vec<char>, start: usize, end: usize) -> (r: String)
    requires
        start <= end <= v.len(),
    ensures
        r@ == v@.subrange(start as int, end as int),
{
    let mut s = String::new();
    let mut i: usize = start;
    while i < end
        invariant
            start <= i <= end <= v.len(),
            s@ == v@.subrange(start as int, i as int),
        decreases end - i,
    {
        push_char(&mut s, v[i]);
        i = i + 1;
        assert(s@ =~= v@.subrange(start as int, i as int));
    }
    s
}

/// A change of the buffer, handed to each registered listener.
#[derive(Debug)]
pub struct ModifyEvent {
    pub pos: u32,
    pub inserted: u32,
    pub deleted: u32,
    pub restyled: u32,
    pub deleted_text: String,
}

impl View for ModifyEvent {
    type V = Change;

    open spec fn view(&self) -> Change {
        Change {
            pos: self.pos,
            inserted: self.inserted,
            deleted: self.deleted,
            restyled: self.restyled,
            deleted_text: self.deleted_text@,
        }
    }
}

impl ModifyEvent {
    /// A copy of this event.
    pub fn duplicate(&self) -> (r: ModifyEvent)
        ensures
            r@ == self@,
    {
        ModifyEvent {
            pos: self.pos,
            inserted: self.inserted,
            deleted: self.deleted,
            restyled: self.restyled,
            deleted_text: self.deleted_text.clone(),
        }
    }
}

/// One event addressed to one listener.
#[derive(Debug)]
pub struct Notification {
    pub listener: u64,
    pub event: ModifyEvent,
}

impl View for Notification {
    type V = (u64, Change);

    open spec fn view(&self) -> (u64, Change) {
        (self.listener, self.event@)
    }
}

/// Appends `src[start..end]` to `dst`.
fn extend_from(dst: &mut Vec<char>, src: &Vec<char>, start: usize, end: usize)
    requires
        start <= end <= src.len(),
    ensures
        final(dst)@ == old(dst)@ + src@.subrange(start as int, end as int),
{
    let mut i: usize = start;
    while i < end
        invariant
            start <= i <= end <= src.len(),
            dst@ == old(dst)@ + src@.subrange(start as int, i as int),
        decreases end - i,
    {
        dst.push(src[i]);
        i = i + 1;
        assert(dst@ =~= old(dst)@ + src@.subrange(start as int, i as int));
    }
}

/// Where position `p` goes when `del` characters at `pos` are replaced by `ins` characters.
fn move_pos(p: u32, pos: u32, del: u32, ins: u32) -> (r: u32)
    requires
        pos + del <= MAX_LEN,
        p <= MAX_LEN,
        p >= pos + del ==> p - del + ins <= MAX_LEN,
    ensures
        r == moved(p as int, pos as int, del as int, ins as int),
{
    if p < pos {
        p
    } else if p >= pos + del {
        p - del + ins
    } else {
        pos
    }
}

/// A range after `del` characters at `pos` are replaced by `ins` characters.
fn shift_range(r: Option<(u32, u32)>, pos: u32, del: u32, ins: u32, len: u32) -> (out: Option<(u32, u32)>)
    requires
        range_within(r, len as int),
        len <= MAX_LEN,
        pos + del <= len,
        len - del + ins <= MAX_LEN,
    ensures
        out == shifted(r, pos as int, del as int, ins as int),
        range_within(out, len - del + ins),
{
    match r {
        None => None,
        Some((s, e)) => {
            if del > 0 && pos <= s && e <= pos + del {
                None
            } else if del == 0 && s < pos && e == pos {
                Some((s, e))
            } else {
                Some((move_pos(s, pos, del, ins), move_pos(e, pos, del, ins)))
            }
        },
    }
}

impl Clone for TextBuffer {
    /// A new buffer that holds the same characters, with none of the selection, highlight,
    /// change to undo, listeners or notifications of this one.
    fn clone(&self) -> (r: TextBuffer)
        ensures
            self.wf() ==> r.wf() && r@ == BufferView::initial().with_content(self@.content),
    {
        let mut r = TextBuffer::default();
        if self.content.len() <= MAX_LEN as usize {
            extend_from(&mut r.content, &self.content, 0, self.content.len());
            assert(self@.content.subrange(0, self@.content.len() as int) =~= self@.content);
        }
        r
    }
}

/// The change that `undo` would revert.
#[derive(Debug)]
struct UndoRecord {
    pos: u32,
    inserted: u32,
    deleted: Vec<char>,
}

/// A text buffer: characters with an optional selection and highlight, single-step undo and
/// listeners that are notified of every change.
#[derive(Debug)]
pub struct TextBuffer {
    content: Vec<char>,
    selection: Option<(u32, u32)>,
    highlight: Option<(u32, u32)>,
    tab_dist: u32,
    undo_enabled: bool,
    undo: Option<UndoRecord>,
    listeners: Vec<u64>,
    next_listener: u64,
    pending: Vec<Notification>,
    last_change: Option<ModifyEvent>,
}

impl View for TextBuffer {
    type V = BufferView;

    closed spec fn view(&self) -> BufferView {
        BufferView {
            content: self.content@,
            selection: self.selection,
            highlight: self.highlight,
            tab_distance: self.tab_dist,
            undo_enabled: self.undo_enabled,
            undo: match self.undo {
                None => None,
                Some(u) => Some(UndoStep { pos: u.pos, inserted: u.inserted, deleted: u.deleted@ }),
            },
            listeners: self.listeners@,
            pending: self.pending@.map_values(|n: Notification| n@),
            last_change: match self.last_change {
                None => None,
                Some(ev) => Some(ev@),
            },
        }
    }
}

impl TextBuffer {
    /// The buffer's invariant; every buffer handed out satisfies it.
    pub closed spec fn wf(&self) -> bool {
        &&& self@.inv()
        &&& forall|i: int| 0 <= i < self.listeners.len() ==> self.listeners[i] < self.next_listener
    }

    /// Every well-formed buffer's state satisfies the invariant of the abstract state.
    pub proof fn lemma_view_inv(&self)
        requires
            self.wf(),
        ensures
            self@.inv(),
    {
    }

    /// An empty buffer: no selection, no highlight, tab distance 8, undo enabled, no listener.
    pub fn default() -> (r: TextBuffer)
        ensures
            r.wf(),
            r@ == BufferView::initial(),
    {
        let r = TextBuffer {
            content: Vec::new(),
            selection: None,
            highlight: None,
            tab_dist: 8,
            undo_enabled: true,
            undo: None,
            listeners: Vec::new(),
            next_listener: 0,
            pending: Vec::new(),
            last_change: None,
        };
        assert(r@.pending =~= Seq::<(u64, Change)>::empty());
        assert(r@.content =~= Seq::<char>::empty());
        r
    }

    /// Replaces the whole content by `txt`.
    pub fn set_text(&mut self, txt: &str)
        requires
            old(self).wf(),
            txt@.len() <= MAX_LEN,
        ensures
            final(self).wf(),
            final(self)@ == old(self)@.edit(0, old(self)@.content.len() as int, txt@),
    {
        let ins = chars_of(txt);
        let len = self.content.len() as u32;
        self.apply(0, len, &ins);
    }

    /// The whole content.
    pub fn text(&self) -> (r: String)
        requires
            self.wf(),
        ensures
            r@ == self@.content,
    {
        let r = string_of(&self.content, 0, self.content.len());
        assert(self@.content.subrange(0, self@.content.len() as int) =~= self@.content);
        r
    }

    /// Adds `txt` at the end.
    pub fn append(&mut self, txt: &str)
        requires
            old(self).wf(),
            old(self)@.content.len() + txt@.len() <= MAX_LEN,
        ensures
            final(self).wf(),
            final(self)@ == old(self)@.edit(old(self)@.content.len() as int, 0, txt@),
    {
        let ins = chars_of(txt);
        let len = self.content.len() as u32;
        self.apply(len, 0, &ins);
    }

    /// The number of characters held.
    pub fn length(&self) -> (r: u32)
        requires
            self.wf(),
        ensures
            r == self@.content.len(),
    {
        self.content.len() as u32
    }

    /// Removes the characters in `[start, end)`.
    pub fn remove(&mut self, start: u32, end: u32)
        requires
            old(self).wf(),
            start <= end <= old(self)@.content.len(),
        ensures
            final(self).wf(),
            final(self)@ == old(self)@.edit(start as int, end - start, Seq::empty()),
    {
        let ins: Vec<char> = Vec::new();
        self.apply(start, end - start, &ins);
        assert(ins@ =~= Seq::<char>::empty());
    }

    /// The characters in `[start, end)`, or `None` where that is no range of the content.
    pub fn text_range(&self, start: u32, end: u32) -> (r: Option<String>)
        requires
            self.wf(),
        ensures
            start <= end <= self@.content.len() ==> r is Some && r->0@ == self@.content.subrange(
                start as int,
                end as int,
            ),
            !(start <= end <= self@.content.len()) ==> r is None,
    {
        if start <= end && (end as usize) <= self.content.len() {
            Some(string_of(&self.content, start as usize, end as usize))
        } else {
            None
        }
    }

    /// Inserts `txt` at `pos`.
    pub fn insert(&mut self, pos: u32, txt: &str)
        requires
            old(self).wf(),
            pos <= old(self)@.content.len(),
            old(self)@.content.len() + txt@.len() <= MAX_LEN,
        ensures
            final(self).wf(),
            final(self)@ == old(self)@.edit(pos as int, 0, txt@),
    {
        let ins = chars_of(txt);
        self.apply(pos, 0, &ins);
    }

    /// Puts `txt` in place of the characters in `[start, end)`, as one change.
    pub fn replace(&mut self, start: u32, end: u32, txt: &str)
        requires
            old(self).wf(),
            start <= end <= old(self)@.content.len(),
            old(self)@.content.len() - (end - start) + txt@.len() <= MAX_LEN,
        ensures
            final(self).wf(),
            final(self)@ == old(self)@.edit(start as int, end - start, txt@),
    {
        let ins = chars_of(txt);
        self.apply(start, end - start, &ins);
    }

    /// Inserts at `to` the characters in `[start, end)` of `source_buf`.
    pub fn copy(&mut self, source_buf: &TextBuffer, start: u32, end: u32, to: u32)
        requires
            old(self).wf(),
            source_buf.wf(),
            start <= end <= source_buf@.content.len(),
            to <= old(self)@.content.len(),
            old(self)@.content.len() + (end - start) <= MAX_LEN,
        ensures
            final(self).wf(),
            final(self)@ == old(self)@.edit(
                to as int,
                0,
                source_buf@.content.subrange(start as int, end as int),
            ),
    {
        let mut ins: Vec<char> = Vec::new();
        extend_from(&mut ins, &source_buf.content, start as usize, end as usize);
        assert(ins@ =~= source_buf@.content.subrange(start as int, end as int));
        self.apply(to, 0, &ins);
    }

    /// Whether another listener can be registered: the supply of identifiers is not spent.
    pub closed spec fn ids_left(&self) -> bool {
        self.next_listener < u64::MAX
    }

    /// Registers a listener and returns its identifier, which no registered listener has;
    /// `None` once identifiers are spent. Every later change is reported to it.
    pub fn add_modify_callback(&mut self) -> (r: Option<u64>)
        requires
            old(self).wf(),
        ensures
            final(self).wf(),
            r is Some <==> old(self).ids_left(),
            r is None ==> final(self)@ == old(self)@,
            r is Some ==> !old(self)@.listeners.contains(r->0),
            r is Some ==> final(self)@ == old(self)@.with_listeners(old(self)@.listeners.push(r->0)),
    {
        if self.next_listener == u64::MAX {
            return None;
        }
        let id = self.next_listener;
        self.next_listener = self.next_listener + 1;
        self.listeners.push(id);
        assert(forall|i: int| 0 <= i < old(self).listeners.len() ==> old(self).listeners@[i] != id);
        assert(self@.listeners.no_duplicates());
        Some(id)
    }

    /// Unregisters the listener `id`; it is told of no later change.
    pub fn remove_modify_callback(&mut self, id: u64)
        requires
            old(self).wf(),
        ensures
            final(self).wf(),
            final(self)@ == old(self)@.with_listeners(old(self)@.listeners.filter(others(id))),
    {
        let mut kept: Vec<u64> = Vec::new();
        let mut i: usize = 0;
        while i < self.listeners.len()
            invariant
                i <= self.listeners.len(),
                self.listeners@.no_duplicates(),
                kept@ == self.listeners@.take(i as int).filter(others(id)),
                kept@.no_duplicates(),
            decreases self.listeners.len() - i,
        {
            let x = self.listeners[i];
            proof {
                broadcast use vstd::seq_lib::group_filter_ensures;

                self.listeners@.take(i as int).lemma_filter_push(x, others(id));
                assert(self.listeners@.take(i + 1) =~= self.listeners@.take(i as int).push(x));
                assert(!self.listeners@.take(i as int).contains(x));
                if kept@.contains(x) {
                    self.listeners@.take(i as int).lemma_filter_contains_rev(others(id), x);
                }
            }
            if x != id {
                kept.push(x);
            }
            i = i + 1;
        }
        assert(self.listeners@.take(i as int) =~= self.listeners@);
        self.listeners = kept;
        assert forall|j: int| 0 <= j < self.listeners.len() implies self.listeners[j] < self.next_listener by {
            broadcast use vstd::seq_lib::group_filter_ensures;

            assert(self.listeners@.contains(self.listeners@[j]));
            old(self).listeners@.lemma_filter_contains_rev(others(id), self.listeners@[j]);
        }
    }

    /// Reports the last change again to every listener (an all-zero change if there was none).
    pub fn call_modify_callbacks(&mut self)
        requires
            old(self).wf(),
        ensures
            final(self).wf(),
            final(self)@ == old(self)@.with_pending(
                old(self)@.pending + notices(old(self)@.listeners, old(self)@.last_or_zero()),
            ),
    {
        let ev = match &self.last_change {
            Some(e) => e.duplicate(),
            None => ModifyEvent { pos: 0, inserted: 0, deleted: 0, restyled: 0, deleted_text: String::new() },
        };
        self.notify(&ev);
    }

    /// Hands out, oldest first, the notifications not yet delivered, and forgets them.
    pub fn take_notifications(&mut self) -> (r: Vec<Notification>)
        requires
            old(self).wf(),
        ensures
            final(self).wf(),
            r@.map_values(|n: Notification| n@) == old(self)@.pending,
            final(self)@ == old(self)@.with_pending(Seq::empty()),
    {
        let mut out: Vec<Notification> = Vec::new();
        std::mem::swap(&mut out, &mut self.pending);
        assert(self@.pending =~= Seq::<(u64, Change)>::empty());
        out
    }

    /// Reverts the last change, as a change of its own, and leaves nothing to undo; fails with
    /// `UndoError` where undo is disabled or there is nothing to undo.
    pub fn undo(&mut self) -> (r: Result<(), FltkError>)
        requires
            old(self).wf(),
        ensures
            final(self).wf(),
            !old(self)@.undo_enabled ==> old(self)@.undo is None,
            old(self)@.undo is None ==> r == Err::<(), FltkError>(FltkError::UndoError),
            old(self)@.undo is None ==> final(self)@ == old(self)@,
            old(self)@.undo is Some ==> r is Ok,
            old(self)@.undo is Some ==> final(self)@ == old(self)@.undone(),
    {
        match self.undo.take() {
            None => Err(FltkError::UndoError),
            Some(rec) => {
                let ghost mid = self@;
                self.apply(rec.pos, rec.inserted, &rec.deleted);
                self.undo = None;
                assert(mid.edit(rec.pos as int, rec.inserted as int, rec.deleted@).pending
                    == old(self)@.edit(rec.pos as int, rec.inserted as int, rec.deleted@).pending);
                Ok(())
            },
        }
    }

    /// Turns undo on or off; turning it off forgets the change that could be undone.
    pub fn can_undo(&mut self, flag: bool)
        requires
            old(self).wf(),
        ensures
            final(self).wf(),
            final(self)@ == old(self)@.with_undo_enabled(flag),
    {
        self.undo_enabled = flag;
        if !flag {
            self.undo = None;
        }
    }

    /// Replaces the content by what a file held: `contents` is the file's text, or `None` where
    /// it could not be read. Fails with `ResourceNotFound`, changing nothing, where there is no
    /// text or it is longer than `MAX_LEN`.
    pub fn load_file(&mut self, contents: Option<&str>) -> (r: Result<(), FltkError>)
        requires
            old(self).wf(),
        ensures
            final(self).wf(),
            loadable(contents) ==> r is Ok,
            loadable(contents) ==> final(self)@ == old(self)@.edit(
                0,
                old(self)@.content.len() as int,
                contents->0@,
            ),
            !loadable(contents) ==> r == Err::<(), FltkError>(FltkError::ResourceNotFound),
            !loadable(contents) ==> final(self)@ == old(self)@,
    {
        match contents {
            None => Err(FltkError::ResourceNotFound),
            Some(t) => {
                let ins = chars_of(t);
                if ins.len() > MAX_LEN as usize {
                    Err(FltkError::ResourceNotFound)
                } else {
                    let len = self.content.len() as u32;
                    self.apply(0, len, &ins);
                    Ok(())
                }
            },
        }
    }

    /// The column width of a tab.
    pub fn tab_distance(&self) -> (r: u32)
        requires
            self.wf(),
        ensures
            r == self@.tab_distance,
    {
        self.tab_dist
    }

    /// Sets the column width of a tab.
    pub fn set_tab_distance(&mut self, tab_dist: u32)
        requires
            old(self).wf(),
            tab_dist <= MAX_LEN,
        ensures
            final(self).wf(),
            final(self)@ == old(self)@.with_tab_distance(tab_dist),
    {
        self.tab_dist = tab_dist;
    }

    /// Selects `[start, end)`; an empty range is a selection too.
    pub fn select(&mut self, start: u32, end: u32)
        requires
            old(self).wf(),
            start <= end <= old(self)@.content.len(),
        ensures
            final(self).wf(),
            final(self)@ == old(self)@.with_selection(Some((start, end))),
    {
        self.selection = Some((start, end));
    }

    /// Whether there is a selection.
    pub fn selected(&self) -> (r: bool)
        requires
            self.wf(),
        ensures
            r == self@.selection is Some,
    {
        self.selection.is_some()
    }

    /// Drops the selection.
    pub fn unselect(&mut self)
        requires
            old(self).wf(),
        ensures
            final(self).wf(),
            final(self)@ == old(self)@.with_selection(None),
    {
        self.selection = None;
    }

    /// The selected range, if there is one.
    pub fn selection_position(&mut self) -> (r: Option<(u32, u32)>)
        requires
            old(self).wf(),
        ensures
            *final(self) == *old(self),
            r == old(self)@.selection,
    {
        self.selection
    }

    /// The selected characters; empty where there is no selection.
    pub fn selection_text(&mut self) -> (r: String)
        requires
            old(self).wf(),
        ensures
            *final(self) == *old(self),
            r@ == range_text(old(self)@.content, old(self)@.selection),
    {
        self.range_string(self.selection)
    }

    /// Removes the selected characters, as one change; does nothing where there is no selection.
    pub fn remove_selection(&mut self)
        requires
            old(self).wf(),
        ensures
            final(self).wf(),
            final(self)@ == old(self)@.replaced_range(old(self)@.selection, Seq::empty()),
    {
        if let Some((start, end)) = self.selection {
            self.remove(start, end);
        }
    }

    /// Puts `txt` in place of the selected characters, as one change; does nothing where there
    /// is no selection.
    pub fn replace_selection(&mut self, txt: &str)
        requires
            old(self).wf(),
            old(self)@.can_replace_range(old(self)@.selection, txt@.len() as int),
        ensures
            final(self).wf(),
            final(self)@ == old(self)@.replaced_range(old(self)@.selection, txt@),
    {
        if let Some((start, end)) = self.selection {
            self.replace(start, end, txt);
        }
    }

    /// Highlights `[start, end)`, apart from the selection; an empty range is a highlight too.
    pub fn highlight(&mut self, start: u32, end: u32)
        requires
            old(self).wf(),
            start <= end <= old(self)@.content.len(),
        ensures
            final(self).wf(),
            final(self)@ == old(self)@.with_highlight(Some((start, end))),
    {
        self.highlight = Some((start, end));
    }

    /// Whether there is a highlight.
    pub fn is_highlighted(&mut self) -> (r: bool)
        requires
            old(self).wf(),
        ensures
            *final(self) == *old(self),
            r == old(self)@.highlight is Some,
    {
        self.highlight.is_some()
    }

    /// Drops the highlight.
    pub fn unhighlight(&mut self)
        requires
            old(self).wf(),
        ensures
            final(self).wf(),
            final(self)@ == old(self)@.with_highlight(None),
    {
        self.highlight = None;
    }

    /// The highlighted range, if there is one.
    pub fn highlight_position(&mut self) -> (r: Option<(u32, u32)>)
        requires
            old(self).wf(),
        ensures
            *final(self) == *old(self),
            r == old(self)@.highlight,
    {
        self.highlight
    }

    /// The highlighted characters; empty where there is no highlight.
    pub fn highlight_text(&mut self) -> (r: String)
        requires
            old(self).wf(),
        ensures
            *final(self) == *old(self),
            r@ == range_text(old(self)@.content, old(self)@.highlight),
    {
        self.range_string(self.highlight)
    }

    /// The characters of a range of the content; empty for no range.
    fn range_string(&self, r: Option<(u32, u32)>) -> (out: String)
        requires
            self.wf(),
            range_within(r, self@.content.len() as int),
        ensures
            out@ == range_text(self@.content, r),
    {
        match r {
            None => String::new(),
            Some((start, end)) => string_of(&self.content, start as usize, end as usize),
        }
    }

    /// The line that holds `pos`, without its line break.
    pub fn line_text(&self, pos: u32) -> (r: String)
        requires
            self.wf(),
            pos <= self@.content.len(),
        ensures
            r@ == self@.content.subrange(
                line_start_of(self@.content, pos as int),
                line_end_of(self@.content, pos as int),
            ),
    {
        let start = self.line_start(pos);
        let mut end: usize = pos as usize;
        while end < self.content.len() && self.content[end] != '\n'
            invariant
                pos <= end <= self.content.len(),
                line_end_of(self@.content, end as int) == line_end_of(self@.content, pos as int),
            decreases self.content.len() - end,
        {
            end = end + 1;
        }
        proof {
            lemma_line_bounds(self@.content, pos as int);
        }
        string_of(&self.content, start as usize, end)
    }

    /// Where the line that holds `pos` starts.
    pub fn line_start(&self, pos: u32) -> (r: u32)
        requires
            self.wf(),
            pos <= self@.content.len(),
        ensures
            r == line_start_of(self@.content, pos as int),
    {
        let mut i: u32 = pos;
        while i > 0 && self.content[(i - 1) as usize] != '\n'
            invariant
                i <= pos <= self.content.len(),
                line_start_of(self@.content, i as int) == line_start_of(self@.content, pos as int),
            decreases i,
        {
            i = i - 1;
        }
        i
    }

    /// Where the word that ends at or runs through `pos` starts.
    pub fn word_start(&self, pos: u32) -> (r: u32)
        requires
            self.wf(),
            pos <= self@.content.len(),
        ensures
            r == word_start_of(self@.content, pos as int),
    {
        let mut i: u32 = pos;
        while i > 0 && word_char(self.content[(i - 1) as usize])
            invariant
                i <= pos <= self.content.len(),
                word_start_of(self@.content, i as int) == word_start_of(self@.content, pos as int),
            decreases i,
        {
            i = i - 1;
        }
        i
    }

    /// Where the word that starts at or runs through `pos` ends.
    pub fn word_end(&self, pos: u32) -> (r: u32)
        requires
            self.wf(),
            pos <= self@.content.len(),
        ensures
            r == word_end_of(self@.content, pos as int),
    {
        let mut i: u32 = pos;
        while (i as usize) < self.content.len() && word_char(self.content[i as usize])
            invariant
                pos <= i <= self.content.len(),
                self.content.len() <= MAX_LEN,
                word_end_of(self@.content, i as int) == word_end_of(self@.content, pos as int),
            decreases self.content.len() - i,
        {
            i = i + 1;
        }
        i
    }

    /// The number of line breaks in `[start, end)`.
    pub fn count_lines(&self, start: u32, end: u32) -> (r: u32)
        requires
            self.wf(),
            start <= end <= self@.content.len(),
        ensures
            r == newlines(self@.content.subrange(start as int, end as int)),
    {
        let mut n: u32 = 0;
        let mut i: u32 = start;
        while i < end
            invariant
                start <= i <= end <= self.content.len() <= MAX_LEN,
                n == newlines(self@.content.subrange(start as int, i as int)),
                n <= i - start,
            decreases end - i,
        {
            assert(self@.content.subrange(start as int, i + 1).drop_last()
                =~= self@.content.subrange(start as int, i as int));
            if self.content[i as usize] == '\n' {
                n = n + 1;
            }
            i = i + 1;
        }
        n
    }

    /// Replaces `del` characters at `pos` by `ins`, and reports the change.
    fn apply(&mut self, pos: u32, del: u32, ins: &Vec<char>)
        requires
            old(self).wf(),
            old(self)@.can_edit(pos as int, del as int, ins.len() as int),
        ensures
            final(self).wf(),
            final(self)@ == old(self)@.edit(pos as int, del as int, ins@),
    {
        let ghost v = self@;
        let len = self.content.len();
        let end = (pos + del) as usize;
        let mut removed: Vec<char> = Vec::new();
        extend_from(&mut removed, &self.content, pos as usize, end);
        let deleted_text = string_of(&self.content, pos as usize, end);
        let mut fresh: Vec<char> = Vec::new();
        extend_from(&mut fresh, &self.content, 0, pos as usize);
        extend_from(&mut fresh, ins, 0, ins.len());
        extend_from(&mut fresh, &self.content, end, len);
        let n = ins.len() as u32;
        self.selection = shift_range(self.selection, pos, del, n, len as u32);
        self.highlight = shift_range(self.highlight, pos, del, n, len as u32);
        self.content = fresh;
        if self.undo_enabled {
            self.undo = Some(UndoRecord { pos, inserted: n, deleted: removed });
        } else {
            self.undo = None;
        }
        let ev = ModifyEvent { pos, inserted: n, deleted: del, restyled: 0, deleted_text };
        assert(ins@.subrange(0, ins.len() as int) =~= ins@);
        assert(self@.content =~= spliced(v.content, pos as int, del as int, ins@));
        assert(ev@ == v.change_event(pos as int, del as int, ins@));
        self.notify(&ev);
        self.last_change = Some(ev);
        assert(self@.pending == v.edit(pos as int, del as int, ins@).pending);
    }

    /// Hands `ev` to every registered listener.
    fn notify(&mut self, ev: &ModifyEvent)
        ensures
            final(self).pending@.map_values(|n: Notification| n@)
                == old(self).pending@.map_values(|n: Notification| n@) + notices(old(self).listeners@, ev@),
            final(self).content == old(self).content,
            final(self).selection == old(self).selection,
            final(self).highlight == old(self).highlight,
            final(self).tab_dist == old(self).tab_dist,
            final(self).undo_enabled == old(self).undo_enabled,
            final(self).undo == old(self).undo,
            final(self).listeners == old(self).listeners,
            final(self).next_listener == old(self).next_listener,
            final(self).last_change == old(self).last_change,
    {
        let ghost start = self.pending@.map_values(|n: Notification| n@);
        let mut i: usize = 0;
        while i < self.listeners.len()
            invariant
                i <= self.listeners.len(),
                self.pending@.map_values(|n: Notification| n@)
                    == start + notices(self.listeners@.take(i as int), ev@),
                self.content == old(self).content,
                self.selection == old(self).selection,
                self.highlight == old(self).highlight,
                self.tab_dist == old(self).tab_dist,
                self.undo_enabled == old(self).undo_enabled,
                self.undo == old(self).undo,
                self.listeners == old(self).listeners,
                self.next_listener == old(self).next_listener,
                self.last_change == old(self).last_change,
                start == old(self).pending@.map_values(|n: Notification| n@),
            decreases self.listeners.len() - i,
        {
            let n = Notification { listener: self.listeners[i], event: ev.duplicate() };
            let ghost before = self.pending@;
            self.pending.push(n);
            assert(self.pending@.map_values(|n: Notification| n@)
                =~= before.map_values(|n: Notification| n@).push(n@));
            assert(self.listeners@.take(i + 1) =~= self.listeners@.take(i as int).push(self.listeners@[i as int]));
            i = i + 1;
            assert(notices(self.listeners@.take(i as int), ev@)
                =~= notices(self.listeners@.take(i - 1), ev@).push((self.listeners@[i - 1], ev@)));
        }
        assert(self.listeners@.take(i as int) =~= self.listeners@);
    }
}

} // verus!
