//! The inbox: what the agents of this window have reported, newest last.

use vstd::prelude::*;
use vstd::string::*;
use crate::seqs::{filter_none, filter_step};
use crate::text::{all_digits, decimal, decimal_reads_back, decimal_text, digits_value, same_text};
use crate::workspace::{Effect, FocusTarget, Keystroke, Model, Workspace};

verus! {

/// A report of an agent.
pub struct InboxItem {
    pub title: String,
    pub body: String,
    pub color: usize,
    pub at_ms: i64,
    pub unread: bool,
    /// The panel of the thread.
    pub panel: u64,
    pub thread_id: String,
}

/// How many reports a window keeps.
pub const INBOX_LIMIT: usize = 100;

/// The last reports, as many as are kept.
pub open spec fn newest(items: Seq<InboxItem>) -> Seq<InboxItem> {
    if items.len() > INBOX_LIMIT {
        items.skip(items.len() - INBOX_LIMIT)
    } else {
        items
    }
}

/// Adds a report; the oldest ones make room for it.
pub fn push_inbox_item(items: &mut Vec<InboxItem>, item: InboxItem)
    ensures
        final(items)@ == newest(old(items)@.push(item)),
{
    let ghost all = items@.push(item);
    items.push(item);
    let ghost mut dropped: int = 0;
    assert(all.skip(0) =~= all);
    while items.len() > INBOX_LIMIT
        invariant
            0 <= dropped <= all.len(),
            items@ == all.skip(dropped),
            dropped > 0 ==> items@.len() >= INBOX_LIMIT,
        decreases items@.len(),
    {
        items.remove(0);
        proof {
            assert(items@ =~= all.skip(dropped + 1));
            dropped = dropped + 1;
        }
    }
}

/// The report was not read yet.
pub open spec fn is_unread() -> spec_fn(InboxItem) -> bool {
    |item: InboxItem| item.unread
}

/// A report with its mark set.
pub open spec fn marked(item: InboxItem, unread: bool) -> InboxItem {
    InboxItem { unread, ..item }
}

impl Model {
    pub open spec fn unread(self) -> nat {
        self.inbox.filter(is_unread()).len()
    }

    /// The inbox is closed, and the focus is where it was.
    pub open spec fn inbox_closed(self) -> Model {
        match self.inbox_open {
            None => self,
            Some(previous) => {
                let m = Model { inbox_open: None, ..self };
                match previous {
                    Some(focus) => m.then_do(Effect::Focus(FocusTarget::Previous(focus))),
                    None => m,
                }
            },
        }
    }

    /// The report at `index` is read, or is not.
    pub open spec fn item_marked(self, index: int, unread: bool) -> Model {
        Model { inbox: self.inbox.update(index, marked(self.inbox[index], unread)), ..self }
    }
}

/// What stands on the bell: how many reports were not read.
pub open spec fn badge(unread: nat) -> Seq<char> {
    if unread > 99 {
        "99+"@
    } else {
        decimal(unread)
    }
}

/// What the bell shows.
pub struct Bell {
    /// Something was not read, or the inbox is open.
    pub bright: bool,
    pub open: bool,
    /// What stands on it, where something was not read.
    pub badge: Option<String>,
}

/// A report as the inbox lists it.
#[derive(Clone, Copy, PartialEq, Eq, Structural, Debug)]
pub struct InboxRow {
    /// Which report it is.
    pub index: usize,
    pub unread: bool,
    pub shows_body: bool,
}

/// What the inbox shows: the newest report first.
pub struct InboxView {
    /// There is something to mark as read.
    pub can_mark_all: bool,
    pub empty: bool,
    pub rows: Vec<InboxRow>,
}

impl Workspace {
    /// An agent has something to report.
    pub fn record_inbox(&mut self, title: String, body: String, color: usize, at_ms: i64, panel: u64, thread_id: String)
        ensures
            final(self)@ == (Model {
                inbox: newest(
                    old(self)@.inbox.push(
                        InboxItem { title, body, color, at_ms, unread: true, panel, thread_id },
                    ),
                ),
                ..old(self)@
            }),
    {
        push_inbox_item(
            &mut self.inbox,
            InboxItem { title, body, color, at_ms, unread: true, panel, thread_id },
        );
    }

    /// How many reports were not read.
    pub fn inbox_unread_count(&self) -> (n: usize)
        ensures
            n == self@.unread(),
    {
        let mut n: usize = 0;
        let mut i: usize = 0;
        proof {
            filter_none(self.inbox@, is_unread());
        }
        while i < self.inbox.len()
            invariant
                n <= i <= self.inbox@.len(),
                n == self.inbox@.take(i as int).filter(is_unread()).len(),
            decreases self.inbox@.len() - i,
        {
            proof {
                filter_step(self.inbox@, i as int, is_unread());
            }
            if self.inbox[i].unread {
                n = n + 1;
            }
            i = i + 1;
        }
        assert(self.inbox@.take(self.inbox@.len() as int) =~= self.inbox@);
        n
    }

    /// What the bell shows.
    pub fn inbox_bell(&self) -> (bell: Bell)
        ensures
            bell.open == (self@.inbox_open is Some),
            bell.bright == (self@.unread() > 0 || self@.inbox_open is Some),
            match bell.badge {
                Some(text) => self@.unread() > 0 && text@ == badge(self@.unread()),
                None => self@.unread() == 0,
            },
    {
        let unread: usize = self.inbox_unread_count();
        let open = self.inbox_open.is_some();
        let badge = if unread == 0 {
            None
        } else if unread > 99 {
            Some("99+".to_owned())
        } else {
            Some(decimal_text(unread as u64))
        };
        Bell { bright: unread > 0 || open, open, badge }
    }

    /// What the inbox shows; `None` while it is closed.
    pub fn inbox_view(&self) -> (view: Option<InboxView>)
        ensures
            view is Some == self@.inbox_open is Some,
            view matches Some(v) ==> {
                &&& v.can_mark_all == (self@.unread() > 0)
                &&& v.empty == (self@.inbox.len() == 0)
                &&& v.rows@.len() == self@.inbox.len()
                &&& forall|k: int|
                    0 <= k < v.rows@.len() ==> {
                        let at = self@.inbox.len() - 1 - k;
                        (#[trigger] v.rows@[k]) == (InboxRow {
                            index: at as usize,
                            unread: self@.inbox[at].unread,
                            shows_body: self@.inbox[at].body@.len() > 0,
                        })
                    }
            },
    {
        if self.inbox_open.is_none() {
            return None;
        }
        let can_mark_all = self.inbox_unread_count() > 0;
        let count: usize = self.inbox.len();
        let mut rows: Vec<InboxRow> = Vec::new();
        let mut i: usize = 0;
        while i < count
            invariant
                i <= count,
                count == self@.inbox.len(),
                rows@.len() == i,
                forall|k: int|
                    0 <= k < rows@.len() ==> {
                        let at = self@.inbox.len() - 1 - k;
                        (#[trigger] rows@[k]) == (InboxRow {
                            index: at as usize,
                            unread: self@.inbox[at].unread,
                            shows_body: self@.inbox[at].body@.len() > 0,
                        })
                    },
            decreases count - i,
        {
            let at: usize = count - 1 - i;
            rows.push(
                InboxRow {
                    index: at,
                    unread: self.inbox[at].unread,
                    shows_body: !self.inbox[at].body.as_str().is_empty(),
                },
            );
            i = i + 1;
        }
        Some(InboxView { can_mark_all, empty: count == 0, rows })
    }

    /// Opens the inbox, or closes it. `focused` is what has the focus.
    pub fn toggle_inbox(&mut self, focused: Option<u64>)
        ensures
            final(self)@ == if old(self)@.inbox_open is Some {
                old(self)@.inbox_closed()
            } else {
                (Model { inbox_open: Some(focused), ..old(self)@ }).then_do(
                    Effect::Focus(FocusTarget::Inbox),
                )
            },
    {
        if self.inbox_open.is_some() {
            self.close_inbox();
            return;
        }
        self.effect(Effect::Focus(FocusTarget::Inbox));
        self.inbox_open = Some(focused);
    }

    /// Closes the inbox; the focus goes back to where it was.
    pub fn close_inbox(&mut self)
        ensures
            final(self)@ == old(self)@.inbox_closed(),
    {
        if let Some(previous) = self.inbox_open {
            self.inbox_open = None;
            if let Some(focus) = previous {
                self.effect(Effect::Focus(FocusTarget::Previous(focus)));
            }
        }
    }

    /// A report was chosen: it is read, the inbox closes, and its thread is shown.
    pub fn open_inbox_item(&mut self, index: usize)
        ensures
            final(self)@ == if index < old(self)@.inbox.len() {
                let item = old(self)@.inbox[index as int];
                old(self)@.item_marked(index as int, false).inbox_closed().then_do(
                    Effect::JumpToThread { panel: item.panel, thread_id: item.thread_id },
                )
            } else {
                old(self)@
            },
    {
        if index >= self.inbox.len() {
            return;
        }
        self.inbox[index].unread = false;
        let panel: u64 = self.inbox[index].panel;
        let thread_id = self.inbox[index].thread_id.clone();
        self.close_inbox();
        self.effect(Effect::JumpToThread { panel, thread_id });
    }

    /// A report that was read is marked as not read, and the other way round.
    pub fn toggle_inbox_item_read(&mut self, index: usize)
        ensures
            final(self)@ == if index < old(self)@.inbox.len() {
                old(self)@.item_marked(index as int, !old(self)@.inbox[index as int].unread)
            } else {
                old(self)@
            },
    {
        if index < self.inbox.len() {
            self.inbox[index].unread = !self.inbox[index].unread;
        }
    }

    /// Every report is read.
    pub fn mark_inbox_read(&mut self)
        ensures
            final(self)@ == (Model {
                inbox: old(self)@.inbox.map_values(|item: InboxItem| marked(item, false)),
                ..old(self)@
            }),
    {
        let ghost before = self@;
        let mut i: usize = 0;
        while i < self.inbox.len()
            invariant
                i <= self.inbox@.len() == before.inbox.len(),
                self@ == (Model { inbox: self@.inbox, ..before }),
                forall|k: int| 0 <= k < i ==> #[trigger] self.inbox@[k] == marked(before.inbox[k], false),
                forall|k: int| i <= k < before.inbox.len() ==> #[trigger] self.inbox@[k] == before.inbox[k],
            decreases self.inbox@.len() - i,
        {
            self.inbox[i].unread = false;
            i = i + 1;
        }
        assert(self@.inbox =~= before.inbox.map_values(|item: InboxItem| marked(item, false)));
    }

    /// A key was pressed in the inbox.
    pub fn on_inbox_key_down(&mut self, keystroke: &Keystroke)
        ensures
            final(self)@ == if keystroke.key@ == "escape"@ { old(self)@.inbox_closed() } else { old(self)@ },
    {
        if same_text(keystroke.key.as_str(), "escape") {
            self.close_inbox();
        }
    }
}

/// However many reports come, no more than the limit are kept, and the one that came last is among
/// them.
pub proof fn the_newest_reports_are_kept(items: Seq<InboxItem>, item: InboxItem)
    ensures
        newest(items.push(item)).len() <= INBOX_LIMIT,
        newest(items.push(item)).last() == item,
        items.len() < INBOX_LIMIT ==> newest(items.push(item)) == items.push(item),
{
}

/// Marking a report twice leaves it as it was.
pub proof fn marking_twice_changes_nothing(m: Model, index: int)
    requires
        0 <= index < m.inbox.len(),
    ensures
        ({
            let once = m.item_marked(index, !m.inbox[index].unread);
            once.item_marked(index, !once.inbox[index].unread) == m
        }),
{
    let once = m.item_marked(index, !m.inbox[index].unread);
    let twice = once.item_marked(index, !once.inbox[index].unread);
    assert(twice.inbox =~= m.inbox);
}

proof fn none_unread(items: Seq<InboxItem>)
    requires
        forall|i: int| 0 <= i < items.len() ==> !(#[trigger] items[i]).unread,
    ensures
        items.filter(is_unread()).len() == 0,
    decreases items.len(),
{
    reveal(Seq::filter);
    if items.len() > 0 {
        assert(!items[items.len() - 1].unread);
        let rest = items.drop_last();
        assert forall|i: int| 0 <= i < rest.len() implies !(#[trigger] rest[i]).unread by {
            assert(rest[i] == items[i]);
        }
        none_unread(rest);
    }
}

/// Once every report is marked as read, none is left to read.
pub proof fn marking_all_leaves_none_unread(m: Model)
    ensures
        (Model { inbox: m.inbox.map_values(|item: InboxItem| marked(item, false)), ..m }).unread() == 0,
{
    none_unread(m.inbox.map_values(|item: InboxItem| marked(item, false)));
}

/// The reports that are kept are the last ones, in their order: all of them, or as many as the limit.
pub proof fn the_oldest_reports_make_room(items: Seq<InboxItem>)
    ensures
        newest(items).is_suffix_of(items),
        items.len() <= INBOX_LIMIT ==> newest(items).len() == items.len(),
        items.len() > INBOX_LIMIT ==> newest(items).len() == INBOX_LIMIT,
        newest(newest(items)) == newest(items),
{
    if items.len() <= INBOX_LIMIT {
        assert(items.skip(0) =~= items);
    }
}

/// A report counts as not read exactly if it was not: each one once, wherever it stands.
pub proof fn each_unread_report_counts_once(m: Model, index: int, item: InboxItem)
    requires
        0 <= index < m.inbox.len(),
    ensures
        m.unread() == m.item_marked(index, false).unread() + if m.inbox[index].unread { 1int } else { 0 },
        (Model { inbox: m.inbox.push(item), ..m }).unread() == m.unread() + if item.unread { 1int } else { 0 },
        (Model { inbox: Seq::empty(), ..m }).unread() == 0,
        m.unread() <= m.inbox.len(),
{
    let p = is_unread();
    let front = m.inbox.take(index);
    let back = m.inbox.skip(index + 1);
    let item_now = m.inbox[index];
    let read = marked(item_now, false);
    filter_step(m.inbox.push(item), m.inbox.len() as int, p);
    assert(m.inbox.push(item).take(m.inbox.len() as int) =~= m.inbox);
    assert(m.inbox.push(item).take(m.inbox.len() as int + 1) =~= m.inbox.push(item));
    filter_none(m.inbox, p);
    assert(m.inbox.take(0) =~= Seq::empty());
    crate::seqs::filter_holds(m.inbox, p);
    assert(m.inbox =~= front.push(item_now) + back);
    assert(m.item_marked(index, false).inbox =~= front.push(read) + back);
    Seq::filter_distributes_over_add(front.push(item_now), back, p);
    Seq::filter_distributes_over_add(front.push(read), back, p);
    filter_step(front.push(item_now), index, p);
    filter_step(front.push(read), index, p);
    assert(front.push(item_now).take(index) =~= front);
    assert(front.push(read).take(index) =~= front);
    assert(front.push(item_now).take(index + 1) =~= front.push(item_now));
    assert(front.push(read).take(index + 1) =~= front.push(read));
}

/// Marking a report changes its mark, and no other report.
pub proof fn a_mark_is_for_one_report(m: Model, index: int, unread: bool)
    requires
        0 <= index < m.inbox.len(),
    ensures
        m.item_marked(index, unread).inbox[index] == (InboxItem { unread, ..m.inbox[index] }),
        forall|k: int|
            0 <= k < m.inbox.len() && k != index ==> #[trigger] m.item_marked(index, unread).inbox[k] == m.inbox[k],
        m.item_marked(index, unread).inbox.len() == m.inbox.len(),
        m.item_marked(index, unread).effects == m.effects,
{
}

/// What stands on the bell is the number itself up to ninety-nine, and the same for every greater one.
pub proof fn the_bell_counts_to_ninety_nine(unread: nat)
    ensures
        unread <= 99 ==> all_digits(badge(unread)) && digits_value(badge(unread)) == unread,
        unread > 99 ==> badge(unread) == seq!['9', '9', '+'],
{
    decimal_reads_back(unread);
    reveal_strlit("99+");
    assert("99+"@ =~= seq!['9', '9', '+']);
}

/// Closing the inbox gives the focus back to what had it before; a closed one stays as it is.
pub proof fn closing_the_inbox_gives_the_focus_back(m: Model)
    ensures
        m.inbox_open is None ==> m.inbox_closed() == m,
        m.inbox_closed().inbox_open is None,
        m.inbox_closed().inbox == m.inbox,
        m.inbox_open == Some(None::<u64>) ==> m.inbox_closed().effects == m.effects,
        m.inbox_open matches Some(Some(focus)) ==> m.inbox_closed().effects == m.effects.push(
            Effect::Focus(FocusTarget::Previous(focus)),
        ),
{
}

} // verus!
