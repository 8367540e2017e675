use vstd::prelude::*;

use crate::model::{BufferView, Change, MAX_LEN, notices};

verus! {

/// The number of notifications in `ns` addressed to listener `id`.
pub open spec fn sent_to(ns: Seq<(u64, Change)>, id: u64) -> nat
    decreases ns.len(),
{
    if ns.len() == 0 {
        0
    } else {
        sent_to(ns.drop_last(), id) + if ns.last().0 == id { 1nat } else { 0nat }
    }
}

/// Putting the characters of a range back in place of that range leaves the content as it was.
pub proof fn lemma_replace_with_own_text(v: BufferView, start: int, end: int)
    requires
        v.inv(),
        0 <= start <= end <= v.content.len(),
    ensures
        v.edit(start, end - start, v.content.subrange(start, end)).content == v.content,
{
    assert(v.edit(start, end - start, v.content.subrange(start, end)).content =~= v.content);
}

/// Inserting a text and then removing as many characters at the same place restores the content.
pub proof fn lemma_insert_then_remove(v: BufferView, pos: int, s: Seq<char>)
    requires
        v.inv(),
        0 <= pos <= v.content.len(),
        v.content.len() + s.len() <= MAX_LEN,
    ensures
        v.edit(pos, 0, s).edit(pos, s.len() as int, Seq::empty()).content == v.content,
{
    let w = v.edit(pos, 0, s);
    assert(w.content.subrange(0, pos) =~= v.content.subrange(0, pos));
    assert(w.content.subrange(pos + s.len(), w.content.len() as int) =~= v.content.subrange(
        pos,
        v.content.len() as int,
    ));
    assert(w.edit(pos, s.len() as int, Seq::empty()).content =~= v.content);
}

/// A range just selected is the selection reported; after unselecting there is none.
pub proof fn lemma_select_then_position(v: BufferView, start: u32, end: u32)
    ensures
        v.with_selection(Some((start, end))).selection == Some((start, end)),
        v.with_selection(Some((start, end))).with_selection(None).selection is None,
{
}

/// Copying the whole of a text into an empty buffer makes the buffer hold exactly that text.
pub proof fn lemma_copy_into_empty(v: BufferView, src: Seq<char>)
    requires
        v.inv(),
        v.content.len() == 0,
        src.len() <= MAX_LEN,
    ensures
        v.edit(0, 0, src.subrange(0, src.len() as int)).content == src,
{
    assert(v.edit(0, 0, src.subrange(0, src.len() as int)).content =~= src);
}

/// Undoing a change, with undo enabled, restores the content from before the change.
pub proof fn lemma_undo_restores(v: BufferView, pos: int, del: int, ins: Seq<char>)
    requires
        v.inv(),
        v.undo_enabled,
        v.can_edit(pos, del, ins.len() as int),
    ensures
        v.edit(pos, del, ins).undone().content == v.content,
{
    let w = v.edit(pos, del, ins);
    let n = ins.len() as int;
    assert(w.content.subrange(0, pos) =~= v.content.subrange(0, pos));
    assert(w.content.subrange(pos + n, w.content.len() as int) =~= v.content.subrange(
        pos + del,
        v.content.len() as int,
    ));
    assert(w.undone().content =~= v.content);
}

/// After one character is appended, a registered listener has been sent exactly one new
/// notification, and it reports one character inserted and none deleted.
pub proof fn lemma_append_notifies_once(v: BufferView, id: u64, c: char)
    requires
        v.inv(),
        v.listeners.contains(id),
        v.content.len() + 1 <= MAX_LEN,
    ensures
        ({
            let w = v.edit(v.content.len() as int, 0, seq![c]);
            let fresh = w.pending.subrange(v.pending.len() as int, w.pending.len() as int);
            &&& sent_to(fresh, id) == 1
            &&& forall|i: int|
                0 <= i < fresh.len() && (#[trigger] fresh[i]).0 == id ==> fresh[i].1.inserted == 1
                    && fresh[i].1.deleted == 0
        }),
{
    let len = v.content.len() as int;
    let w = v.edit(len, 0, seq![c]);
    let ev = v.change_event(len, 0, seq![c]);
    let fresh = w.pending.subrange(v.pending.len() as int, w.pending.len() as int);
    assert(fresh =~= notices(v.listeners, ev));
    lemma_sent_once(v.listeners, id, ev);
}

proof fn lemma_sent_none(ls: Seq<u64>, id: u64, ev: Change)
    requires
        !ls.contains(id),
    ensures
        sent_to(notices(ls, ev), id) == 0,
    decreases ls.len(),
{
    if ls.len() > 0 {
        assert(notices(ls, ev).drop_last() =~= notices(ls.drop_last(), ev));
        assert(!ls.drop_last().contains(id)) by {
            if ls.drop_last().contains(id) {
                let k = choose|k: int| 0 <= k < ls.drop_last().len() && ls.drop_last()[k] == id;
                assert(ls[k] == id);
            }
        }
        assert(ls[ls.len() - 1] != id);
        lemma_sent_none(ls.drop_last(), id, ev);
    }
}

proof fn lemma_sent_once(ls: Seq<u64>, id: u64, ev: Change)
    requires
        ls.no_duplicates(),
        ls.contains(id),
    ensures
        sent_to(notices(ls, ev), id) == 1,
    decreases ls.len(),
{
    let rest = ls.drop_last();
    assert(notices(ls, ev).drop_last() =~= notices(rest, ev));
    if ls.last() == id {
        assert(!rest.contains(id)) by {
            if rest.contains(id) {
                let k = choose|k: int| 0 <= k < rest.len() && rest[k] == id;
                assert(ls[k] == ls[ls.len() - 1]);
            }
        }
        lemma_sent_none(rest, id, ev);
    } else {
        let k = choose|k: int| 0 <= k < ls.len() && ls[k] == id;
        assert(k < ls.len() - 1);
        assert(rest[k] == id);
        assert(rest.no_duplicates());
        lemma_sent_once(rest, id, ev);
    }
}

} // verus!
