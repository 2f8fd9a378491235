//! The wantlist: what one side wants from another, by content identifier.
//!
//! A wantlist holds at most one entry per identifier. An entry asks for the
//! block, asks whether the other side has the block, or withdraws an earlier
//! want. The same type serves as the node's own list of outstanding wants and
//! as the delta that waits in a message for one peer.

use vstd::prelude::*;
use crate::assoc::{
    delete, has_key, key_index, keys_unique, lemma_delete, lemma_key_index, lemma_upsert, lookup,
    upsert, Key,
};
use crate::ids::Cid;

verus! {

/// The urgency of a want: higher is more urgent. It travels unchanged.
pub type Priority = i32;

/// What an entry of a wantlist says.
#[derive(Clone, Copy, Debug, PartialEq, Eq, Structural)]
pub enum WantKind {
    /// Send the block.
    WantBlock,
    /// Say whether you have the block.
    WantHave,
    /// Forget an earlier want.
    Cancel,
}

/// The kind and priority recorded for one identifier.
#[derive(Clone, Copy, Debug, PartialEq, Eq, Structural)]
pub struct Want {
    pub kind: WantKind,
    pub priority: Priority,
}

/// One entry of a wantlist.
#[derive(Clone, Debug, PartialEq, Eq)]
pub struct WantEntry {
    pub cid: Cid,
    pub want: Want,
}

/// A wantlist as the contracts see it: its entries in order, and its full flag.
pub struct WantlistView {
    pub entries: Seq<(Key, Want)>,
    pub full: bool,
}

/// The entries of `s[..n]` of the given kind, in order, each with its priority.
pub open spec fn select_kind(s: Seq<(Key, Want)>, kind: WantKind, n: int) -> Seq<(Key, Priority)>
    decreases n,
{
    if n <= 0 || n > s.len() {
        Seq::empty()
    } else {
        let before = select_kind(s, kind, n - 1);
        if s[n - 1].1.kind == kind {
            before.push((s[n - 1].0, s[n - 1].1.priority))
        } else {
            before
        }
    }
}

/// All entries of the given kind, in order.
pub open spec fn of_kind(s: Seq<(Key, Want)>, kind: WantKind) -> Seq<(Key, Priority)> {
    select_kind(s, kind, s.len() as int)
}

/// The entries of `s[..n]` that are not of the given kind, in order.
pub open spec fn without_kind(s: Seq<(Key, Want)>, kind: WantKind, n: int) -> Seq<(Key, Want)>
    decreases n,
{
    if n <= 0 || n > s.len() {
        Seq::empty()
    } else {
        let before = without_kind(s, kind, n - 1);
        if s[n - 1].1.kind != kind {
            before.push(s[n - 1])
        } else {
            before
        }
    }
}

/// Whether `x` is one of `s[..n]` and not of the given kind.
pub open spec fn kept_from(s: Seq<(Key, Want)>, kind: WantKind, n: int, x: (Key, Want)) -> bool {
    exists|j: int| 0 <= j < n && #[trigger] s[j] == x && s[j].1.kind != kind
}

/// Leaving entries out keeps the others in order, and so keeps identifiers unique.
pub proof fn lemma_without_kind(s: Seq<(Key, Want)>, kind: WantKind, n: int)
    requires
        keys_unique(s),
        0 <= n <= s.len(),
    ensures
        keys_unique(without_kind(s, kind, n)),
        without_kind(s, kind, n).len() <= n,
        forall|i: int|
            0 <= i < without_kind(s, kind, n).len() ==> kept_from(
                s,
                kind,
                n,
                #[trigger] without_kind(s, kind, n)[i],
            ),
    decreases n,
{
    if n > 0 {
        lemma_without_kind(s, kind, n - 1);
        let before = without_kind(s, kind, n - 1);
        let t = without_kind(s, kind, n);
        assert forall|i: int| 0 <= i < t.len() implies kept_from(s, kind, n, #[trigger] t[i]) by {
            if i < before.len() {
                assert(kept_from(s, kind, n - 1, before[i]));
                let j = choose|j: int|
                    0 <= j < n - 1 && #[trigger] s[j] == before[i] && s[j].1.kind != kind;
                assert(s[j] == t[i]);
            } else {
                assert(s[n - 1] == t[i]);
            }
        }
        assert forall|a: int, b: int| 0 <= a < b < t.len() implies (#[trigger] t[a]).0 != (
        #[trigger] t[b]).0 by {
            if b < before.len() {
                assert(before[a].0 != before[b].0);
            } else {
                assert(kept_from(s, kind, n - 1, before[a]));
                let j = choose|j: int|
                    0 <= j < n - 1 && #[trigger] s[j] == before[a] && s[j].1.kind != kind;
                assert(s[j].0 != s[n - 1].0);
            }
        }
    }
}

/// Whether `s` has an entry of the given kind for `cid`.
pub open spec fn has_kind(s: Seq<(Key, Want)>, cid: Key, kind: WantKind) -> bool {
    match lookup(s, cid) {
        Some(w) => w.kind == kind,
        None => false,
    }
}

impl WantlistView {
    /// No identifier has two entries.
    pub open spec fn wf(self) -> bool {
        keys_unique(self.entries)
    }

    /// The list without entries.
    pub open spec fn empty(full: bool) -> WantlistView {
        WantlistView { entries: Seq::empty(), full }
    }

    pub open spec fn is_empty(self) -> bool {
        self.entries.len() == 0
    }

    /// The entry for `cid` asks for the block with the given priority.
    pub open spec fn want_block(self, cid: Key, priority: Priority) -> WantlistView {
        WantlistView {
            entries: upsert(self.entries, cid, Want { kind: WantKind::WantBlock, priority }),
            ..self
        }
    }

    /// The entry for `cid` asks for a presence, unless it already asks for the block.
    pub open spec fn want_have_block(self, cid: Key, priority: Priority) -> WantlistView {
        if has_kind(self.entries, cid, WantKind::WantBlock) {
            self
        } else {
            WantlistView {
                entries: upsert(self.entries, cid, Want { kind: WantKind::WantHave, priority }),
                ..self
            }
        }
    }

    /// The entry for `cid` is a cancel.
    pub open spec fn cancel_block(self, cid: Key) -> WantlistView {
        WantlistView {
            entries: upsert(self.entries, cid, Want { kind: WantKind::Cancel, priority: 0 }),
            ..self
        }
    }

    /// There is no entry for `cid`.
    pub open spec fn remove_block(self, cid: Key) -> WantlistView {
        WantlistView { entries: delete(self.entries, cid), ..self }
    }

    /// There is no Want-Have for `cid`; another entry for `cid` stays.
    pub open spec fn remove_want_block(self, cid: Key) -> WantlistView {
        if has_kind(self.entries, cid, WantKind::WantHave) {
            WantlistView { entries: delete(self.entries, cid), ..self }
        } else {
            self
        }
    }

    pub open spec fn set_full(self, full: bool) -> WantlistView {
        WantlistView { full, ..self }
    }

    /// The list without its wants for presences.
    pub open spec fn without_want_have(self) -> WantlistView {
        WantlistView {
            entries: without_kind(self.entries, WantKind::WantHave, self.entries.len() as int),
            ..self
        }
    }
}

/// Every operation of the wantlist keeps the list free of repeated identifiers.
pub proof fn lemma_wantlist_ops_wf(w: WantlistView, cid: Key, priority: Priority)
    requires
        w.wf(),
    ensures
        w.want_block(cid, priority).wf(),
        w.want_have_block(cid, priority).wf(),
        w.cancel_block(cid).wf(),
        w.remove_block(cid).wf(),
        w.remove_want_block(cid).wf(),
{
    lemma_upsert(w.entries, cid, Want { kind: WantKind::WantBlock, priority });
    lemma_upsert(w.entries, cid, Want { kind: WantKind::WantHave, priority });
    lemma_upsert(w.entries, cid, Want { kind: WantKind::Cancel, priority: 0 });
    lemma_delete(w.entries, cid);
}

/// The wantlist.
#[derive(Clone, Debug, PartialEq, Eq)]
pub struct Wantlist {
    entries: Vec<WantEntry>,
    full: bool,
}

impl View for Wantlist {
    type V = WantlistView;

    closed spec fn view(&self) -> WantlistView {
        WantlistView {
            entries: Seq::new(
                self.entries@.len(),
                |i: int| (self.entries@[i].cid@, self.entries@[i].want),
            ),
            full: self.full,
        }
    }
}

impl Wantlist {
    /// No identifier has two entries.
    pub open spec fn wf(&self) -> bool {
        self@.wf()
    }

    /// An empty wantlist whose full flag is clear.
    pub fn new() -> (list: Wantlist)
        ensures
            list@ == WantlistView::empty(false),
            list.wf(),
    {
        let list = Wantlist { entries: Vec::new(), full: false };
        assert(list@.entries =~= Seq::empty());
        list
    }

    /// Whether the list has no entry. The full flag does not count.
    pub fn is_empty(&self) -> (empty: bool)
        ensures
            empty == self@.is_empty(),
    {
        self.entries.len() == 0
    }

    /// The number of entries.
    pub fn len(&self) -> (n: usize)
        ensures
            n == self@.entries.len(),
    {
        self.entries.len()
    }

    /// Whether the list announces itself as complete rather than as a delta.
    pub fn full(&self) -> (full: bool)
        ensures
            full == self@.full,
    {
        self.full
    }

    /// Sets the full flag.
    pub fn set_full(&mut self, full: bool)
        ensures
            final(self)@ == old(self)@.set_full(full),
    {
        self.full = full;
        assert(self@.entries =~= old(self)@.entries);
    }

    fn position(&self, cid: &Cid) -> (at: Option<usize>)
        requires
            self.wf(),
        ensures
            match at {
                Some(i) => i < self@.entries.len() && has_key(self@.entries, cid@) && key_index(
                    self@.entries,
                    cid@,
                ) == i,
                None => !has_key(self@.entries, cid@),
            },
    {
        let mut i: usize = 0;
        while i < self.entries.len()
            invariant
                i <= self.entries.len(),
                self.wf(),
                forall|j: int| 0 <= j < i ==> (#[trigger] self@.entries[j]).0 != cid@,
            decreases self.entries.len() - i,
        {
            if self.entries[i].cid.same(cid) {
                proof {
                    lemma_key_index(self@.entries, cid@, i as int);
                }
                return Some(i);
            }
            i += 1;
        }
        None
    }

    /// What the list records for `cid`, if anything.
    pub fn get(&self, cid: &Cid) -> (found: Option<Want>)
        requires
            self.wf(),
        ensures
            found == lookup(self@.entries, cid@),
    {
        match self.position(cid) {
            Some(i) => Some(self.entries[i].want),
            None => None,
        }
    }

    fn put(&mut self, cid: &Cid, want: Want)
        requires
            old(self).wf(),
        ensures
            final(self)@.entries == upsert(old(self)@.entries, cid@, want),
            final(self)@.full == old(self)@.full,
            final(self).wf(),
    {
        proof {
            lemma_upsert(self@.entries, cid@, want);
        }
        match self.position(cid) {
            Some(i) => {
                self.entries.set(i, WantEntry { cid: cid.clone(), want });
                assert(self@.entries =~= old(self)@.entries.update(i as int, (cid@, want)));
            },
            None => {
                self.entries.push(WantEntry { cid: cid.clone(), want });
                assert(self@.entries =~= old(self)@.entries.push((cid@, want)));
            },
        }
    }

    fn take(&mut self, cid: &Cid)
        requires
            old(self).wf(),
        ensures
            final(self)@.entries == delete(old(self)@.entries, cid@),
            final(self)@.full == old(self)@.full,
            final(self).wf(),
    {
        proof {
            lemma_delete(self@.entries, cid@);
        }
        match self.position(cid) {
            Some(i) => {
                let _ = self.entries.remove(i);
                assert(self@.entries =~= old(self)@.entries.remove(i as int));
            },
            None => {},
        }
    }

    /// Asks for the block of `cid` with the given priority. An earlier entry
    /// for `cid`, of whatever kind, is overwritten in place.
    pub fn want_block(&mut self, cid: &Cid, priority: Priority)
        requires
            old(self).wf(),
        ensures
            final(self)@ == old(self)@.want_block(cid@, priority),
            final(self).wf(),
    {
        self.put(cid, Want { kind: WantKind::WantBlock, priority });
    }

    /// Asks whether the other side has `cid`, unless the list already asks for
    /// the block itself.
    pub fn want_have_block(&mut self, cid: &Cid, priority: Priority)
        requires
            old(self).wf(),
        ensures
            final(self)@ == old(self)@.want_have_block(cid@, priority),
            final(self).wf(),
    {
        let wants_block = match self.get(cid) {
            Some(w) => w.kind == WantKind::WantBlock,
            None => false,
        };
        if !wants_block {
            self.put(cid, Want { kind: WantKind::WantHave, priority });
        }
    }

    /// Replaces whatever is recorded for `cid` by a cancel.
    pub fn cancel_block(&mut self, cid: &Cid)
        requires
            old(self).wf(),
        ensures
            final(self)@ == old(self)@.cancel_block(cid@),
            final(self).wf(),
    {
        self.put(cid, Want { kind: WantKind::Cancel, priority: 0 });
    }

    /// Drops whatever is recorded for `cid` and records no cancel.
    pub fn remove_block(&mut self, cid: &Cid)
        requires
            old(self).wf(),
        ensures
            final(self)@ == old(self)@.remove_block(cid@),
            final(self).wf(),
    {
        self.take(cid);
    }

    /// Drops a Want-Have for `cid` and records no cancel.
    pub fn remove_want_block(&mut self, cid: &Cid)
        requires
            old(self).wf(),
        ensures
            final(self)@ == old(self)@.remove_want_block(cid@),
            final(self).wf(),
    {
        let wants_have = match self.get(cid) {
            Some(w) => w.kind == WantKind::WantHave,
            None => false,
        };
        if wants_have {
            self.take(cid);
        }
    }

    /// A copy of the list without its wants for presences, for a peer whose
    /// protocol version knows none.
    pub fn without_want_have(&self) -> (list: Wantlist)
        requires
            self.wf(),
        ensures
            list@ == self@.without_want_have(),
            list.wf(),
    {
        let mut kept: Vec<WantEntry> = Vec::new();
        let ghost entries = self@.entries;
        let mut i: usize = 0;
        while i < self.entries.len()
            invariant
                i <= self.entries.len(),
                entries == self@.entries,
                kept@.len() == without_kind(entries, WantKind::WantHave, i as int).len(),
                forall|j: int|
                    0 <= j < kept@.len() ==> ((#[trigger] kept@[j]).cid@, kept@[j].want)
                        == without_kind(entries, WantKind::WantHave, i as int)[j],
            decreases self.entries.len() - i,
        {
            let entry = &self.entries[i];
            if entry.want.kind != WantKind::WantHave {
                kept.push(WantEntry { cid: entry.cid.clone(), want: entry.want });
            }
            i += 1;
        }
        let list = Wantlist { entries: kept, full: self.full };
        proof {
            lemma_without_kind(entries, WantKind::WantHave, entries.len() as int);
            assert(list@.entries =~= without_kind(
                entries,
                WantKind::WantHave,
                entries.len() as int,
            ));
        }
        list
    }

    fn collect(&self, kind: WantKind) -> (out: Vec<(Cid, Priority)>)
        ensures
            out@.len() == of_kind(self@.entries, kind).len(),
            forall|i: int|
                0 <= i < out@.len() ==> (#[trigger] out@[i]).0@ == of_kind(self@.entries, kind)[i].0
                    && out@[i].1 == of_kind(self@.entries, kind)[i].1,
    {
        let mut out: Vec<(Cid, Priority)> = Vec::new();
        let mut i: usize = 0;
        while i < self.entries.len()
            invariant
                i <= self.entries.len(),
                out@.len() == select_kind(self@.entries, kind, i as int).len(),
                forall|j: int|
                    0 <= j < out@.len() ==> (#[trigger] out@[j]).0@ == select_kind(
                        self@.entries,
                        kind,
                        i as int,
                    )[j].0 && out@[j].1 == select_kind(self@.entries, kind, i as int)[j].1,
            decreases self.entries.len() - i,
        {
            let entry = &self.entries[i];
            if entry.want.kind == kind {
                out.push((entry.cid.clone(), entry.want.priority));
            }
            i += 1;
        }
        out
    }

    /// The identifiers whose block is asked for, in order, each with its priority.
    pub fn blocks(&self) -> (out: Vec<(Cid, Priority)>)
        ensures
            out@.len() == of_kind(self@.entries, WantKind::WantBlock).len(),
            forall|i: int|
                0 <= i < out@.len() ==> (#[trigger] out@[i]).0@ == of_kind(
                    self@.entries,
                    WantKind::WantBlock,
                )[i].0 && out@[i].1 == of_kind(self@.entries, WantKind::WantBlock)[i].1,
    {
        self.collect(WantKind::WantBlock)
    }

    /// The identifiers whose presence is asked for, in order, each with its priority.
    pub fn want_have_blocks(&self) -> (out: Vec<(Cid, Priority)>)
        ensures
            out@.len() == of_kind(self@.entries, WantKind::WantHave).len(),
            forall|i: int|
                0 <= i < out@.len() ==> (#[trigger] out@[i]).0@ == of_kind(
                    self@.entries,
                    WantKind::WantHave,
                )[i].0 && out@[i].1 == of_kind(self@.entries, WantKind::WantHave)[i].1,
    {
        self.collect(WantKind::WantHave)
    }

    /// The identifiers whose want is withdrawn, in order.
    pub fn cancels(&self) -> (out: Vec<Cid>)
        ensures
            out@.len() == of_kind(self@.entries, WantKind::Cancel).len(),
            forall|i: int|
                0 <= i < out@.len() ==> (#[trigger] out@[i])@ == of_kind(
                    self@.entries,
                    WantKind::Cancel,
                )[i].0,
    {
        let pairs = self.collect(WantKind::Cancel);
        let ghost all = pairs@;
        let mut out: Vec<Cid> = Vec::new();
        let mut i: usize = 0;
        while i < pairs.len()
            invariant
                i <= pairs.len(),
                pairs@ == all,
                out@.len() == i,
                forall|j: int| 0 <= j < i ==> (#[trigger] out@[j])@ == all[j].0@,
            decreases pairs.len() - i,
        {
            out.push(pairs[i].0.clone());
            i += 1;
        }
        out
    }
}

} // verus!
