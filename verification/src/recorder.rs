//! The span recorder: assigns identifiers, timestamps span starts and ends,
//! and tracks the stack of currently open scopes so that every new span is
//! linked to its parent and every scope exit restores the enclosing context.
//!
//! The recorder does no clock reading of its own: callers pass the current
//! time in ticks. A scope exit that observes a clock that went backwards
//! clamps the end timestamp to the start, so a finished span never ends
//! before it starts.

use vstd::prelude::*;
use crate::span::{Attr, AttrModel, Span, SpanModel, attrs_view};

verus! {

/// A span that has been started but not yet finished.
pub struct OpenSpan {
    pub id: u64,
    pub parent: Option<u64>,
    pub name: String,
    pub start: u64,
    pub attrs: Vec<Attr>,
}

/// Mathematical model of an open span.
pub ghost struct OpenSpanModel {
    pub id: int,
    pub parent: Option<int>,
    pub name: Seq<char>,
    pub start: int,
    pub attrs: Seq<AttrModel>,
}

impl View for OpenSpan {
    type V = OpenSpanModel;

    open spec fn view(&self) -> OpenSpanModel {
        OpenSpanModel {
            id: self.id as int,
            parent: match self.parent {
                Some(p) => Some(p as int),
                None => None,
            },
            name: self.name@,
            start: self.start as int,
            attrs: attrs_view(self.attrs@),
        }
    }
}

/// Mathematical model of the recorder.
pub ghost struct RecorderModel {
    /// The next identifier to hand out.
    pub next_id: int,
    /// Currently open scopes, outermost first.
    pub stack: Seq<OpenSpanModel>,
}

impl RecorderModel {
    /// The identifier of the innermost open scope, if any: the parent that a
    /// span started now would get.
    pub open spec fn current_parent(self) -> Option<int> {
        if self.stack.len() == 0 {
            None
        } else {
            Some(self.stack.last().id)
        }
    }

    /// Identifiers grow strictly along the stack and stay below `next_id`,
    /// and every open scope's parent is the scope just below it.
    pub open spec fn wf(self) -> bool {
        &&& 1 <= self.next_id <= u64::MAX
        &&& forall|i: int| 0 <= i < self.stack.len() ==> 1 <= #[trigger] self.stack[i].id < self.next_id
        &&& forall|i: int, j: int| 0 <= i < j < self.stack.len() ==>
                #[trigger] self.stack[i].id < #[trigger] self.stack[j].id
        &&& forall|i: int| 0 < i < self.stack.len() ==>
                #[trigger] self.stack[i].parent == Some(self.stack[i - 1].id)
        &&& self.stack.len() > 0 ==> self.stack[0].parent is None
    }
}

/// The recorder after a scope with the given name, attributes and start time
/// is opened.
pub open spec fn start_spec(
    r: RecorderModel,
    name: Seq<char>,
    attrs: Seq<AttrModel>,
    now: int,
) -> RecorderModel {
    RecorderModel {
        next_id: r.next_id + 1,
        stack: r.stack.push(OpenSpanModel {
            id: r.next_id,
            parent: r.current_parent(),
            name: name,
            start: now,
            attrs: attrs,
        }),
    }
}

/// The recorder after its innermost scope is closed.
pub open spec fn end_spec(r: RecorderModel) -> RecorderModel {
    RecorderModel { next_id: r.next_id, stack: r.stack.drop_last() }
}

/// The finished span produced when an open scope is closed at time `now`;
/// the end timestamp never precedes the start.
pub open spec fn close_spec(o: OpenSpanModel, now: int) -> SpanModel {
    SpanModel {
        id: o.id,
        parent: o.parent,
        name: o.name,
        start: o.start,
        end: if now < o.start { o.start } else { now },
        attrs: o.attrs,
    }
}

/// Opening a scope and closing it again restores the recorder's context
/// exactly: the same open scopes, and the same parent for whatever is
/// started next. Closing is what every exit path of a scope does, normal or
/// abnormal, so this holds however the inner scope exits; and since `r` is
/// arbitrary, it holds at every nesting depth.
pub proof fn lemma_scope_restores_context(
    r: RecorderModel,
    name: Seq<char>,
    attrs: Seq<AttrModel>,
    now: int,
)
    ensures
        end_spec(start_spec(r, name, attrs, now)).stack =~= r.stack,
        end_spec(start_spec(r, name, attrs, now)).current_parent() == r.current_parent(),
{
    assert(end_spec(start_spec(r, name, attrs, now)).stack =~= r.stack);
}

/// The recorder after a whole sequence of scopes is opened, one inside the
/// next: each entry gives a name, attributes and a start time.
pub open spec fn open_all(
    r: RecorderModel,
    items: Seq<(Seq<char>, Seq<AttrModel>, int)>,
) -> RecorderModel
    decreases items.len(),
{
    if items.len() == 0 {
        r
    } else {
        open_all(start_spec(r, items[0].0, items[0].1, items[0].2), items.drop_first())
    }
}

/// The recorder after its `k` innermost scopes are closed in turn.
pub open spec fn close_all(r: RecorderModel, k: nat) -> RecorderModel
    decreases k,
{
    if k == 0 {
        r
    } else {
        close_all(end_spec(r), (k - 1) as nat)
    }
}

/// Opening scopes only adds to the stack: whatever was open before stays,
/// in place, below the new scopes.
proof fn lemma_open_all_extends(r: RecorderModel, items: Seq<(Seq<char>, Seq<AttrModel>, int)>)
    ensures
        open_all(r, items).stack.len() == r.stack.len() + items.len(),
        open_all(r, items).stack.take(r.stack.len() as int) =~= r.stack,
    decreases items.len(),
{
    if items.len() > 0 {
        let r1 = start_spec(r, items[0].0, items[0].1, items[0].2);
        lemma_open_all_extends(r1, items.drop_first());
        let full = open_all(r1, items.drop_first()).stack;
        let l0 = r.stack.len() as int;
        assert forall|i: int| 0 <= i < l0 implies full.take(l0)[i] == r.stack[i] by {
            assert(full.take(r1.stack.len() as int)[i] == full[i]);
            assert(r1.stack[i] == r.stack[i]);
        }
    }
}

/// Closing `k` scopes removes exactly the `k` innermost ones.
proof fn lemma_close_all_takes(m: RecorderModel, k: nat)
    requires
        k <= m.stack.len(),
    ensures
        close_all(m, k).stack =~= m.stack.take((m.stack.len() - k) as int),
    decreases k,
{
    if k > 0 {
        let m1 = end_spec(m);
        lemma_close_all_takes(m1, (k - 1) as nat);
        let l = m.stack.len() as int;
        assert forall|i: int| 0 <= i < l - k implies
            #[trigger] close_all(m, k).stack[i] == m.stack.take(l - k)[i] by {
            assert(close_all(m, k).stack[i] == m1.stack.take((m1.stack.len() - (k - 1)) as int)[i]);
            assert(m1.stack[i] == m.stack[i]);
        }
    }
}

/// However many scopes are opened, closing them all restores the context
/// that was in place before the first one: the same open scopes and the
/// same parent for whatever starts next. Closing is what every exit path
/// does, so this holds whether the scopes exit normally or abnormally.
pub proof fn lemma_nested_scopes_restore_context(
    r: RecorderModel,
    items: Seq<(Seq<char>, Seq<AttrModel>, int)>,
)
    ensures
        close_all(open_all(r, items), items.len()).stack =~= r.stack,
        close_all(open_all(r, items), items.len()).current_parent() == r.current_parent(),
{
    lemma_open_all_extends(r, items);
    lemma_close_all_takes(open_all(r, items), items.len());
    assert(close_all(open_all(r, items), items.len()).stack =~= r.stack);
}

/// A span closed while its scope is innermost is linked to the scope below
/// it: parent-child linkage follows the nesting.
pub proof fn lemma_close_links_to_enclosing_scope(r: RecorderModel, now: int)
    requires
        r.wf(),
        r.stack.len() >= 2,
    ensures
        close_spec(r.stack.last(), now).parent == Some(end_spec(r).current_parent().unwrap()),
{
}

/// Records span starts and ends, assigning identifiers and parents.
pub struct Recorder {
    next_id: u64,
    stack: Vec<OpenSpan>,
}

/// The model of a stack of open spans.
pub open spec fn stack_view(s: Seq<OpenSpan>) -> Seq<OpenSpanModel> {
    s.map(|i: int, o: OpenSpan| o@)
}

impl View for Recorder {
    type V = RecorderModel;

    closed spec fn view(&self) -> RecorderModel {
        RecorderModel { next_id: self.next_id as int, stack: stack_view(self.stack@) }
    }
}

impl Recorder {
    pub open spec fn wf(&self) -> bool {
        self@.wf()
    }

    /// A fresh recorder: no open scopes, identifiers starting at 1.
    pub fn new() -> (r: Recorder)
        ensures
            r.wf(),
            r@.next_id == 1,
            r@.stack.len() == 0,
    {
        let r = Recorder { next_id: 1, stack: Vec::new() };
        proof {
            assert(r@.stack =~= Seq::<OpenSpanModel>::empty());
        }
        r
    }

    /// The identifier the next started span will get.
    pub fn next_id(&self) -> (n: u64)
        ensures
            n == self@.next_id,
    {
        self.next_id
    }

    /// How many scopes are currently open.
    pub fn depth(&self) -> (n: usize)
        ensures
            n == self@.stack.len(),
    {
        self.stack.len()
    }

    /// The identifier of the innermost open scope, if any.
    pub fn current_span(&self) -> (h: Option<u64>)
        requires
            self.wf(),
        ensures
            match h {
                Some(id) => self@.current_parent() == Some(id as int),
                None => self@.current_parent() is None,
            },
    {
        if self.stack.len() == 0 {
            None
        } else {
            Some(self.stack[self.stack.len() - 1].id)
        }
    }

    /// Open a new scope at time `now`; the new span's parent is the scope
    /// that was innermost before the call. Returns the new span's handle.
    pub fn start_span(&mut self, name: String, attrs: Vec<Attr>, now: u64) -> (h: u64)
        requires
            old(self).wf(),
            old(self)@.next_id < u64::MAX,
        ensures
            final(self).wf(),
            final(self)@ == start_spec(old(self)@, name@, attrs_view(attrs@), now as int),
            h == old(self)@.next_id,
            final(self)@.current_parent() == Some(h as int),
    {
        let ghost m0 = self@;
        let parent = self.current_span();
        let id = self.next_id;
        self.next_id = self.next_id + 1;
        let o = OpenSpan { id, parent, name, start: now, attrs };
        self.stack.push(o);
        proof {
            assert(self@.stack =~= m0.stack.push(o@));
            assert(o@ == start_spec(m0, o.name@, attrs_view(o.attrs@), now as int).stack.last());
            let m1 = self@;
            assert forall|i: int| 0 <= i < m1.stack.len() implies
                1 <= #[trigger] m1.stack[i].id < m1.next_id by {
                if i < m0.stack.len() {
                    assert(m1.stack[i] == m0.stack[i]);
                }
            }
            assert forall|i: int, j: int| 0 <= i < j < m1.stack.len() implies
                #[trigger] m1.stack[i].id < #[trigger] m1.stack[j].id by {
                if j < m0.stack.len() {
                    assert(m1.stack[i] == m0.stack[i]);
                    assert(m1.stack[j] == m0.stack[j]);
                } else {
                    assert(m1.stack[i] == m0.stack[i]);
                    assert(m1.stack[j].id == m0.next_id);
                }
            }
            assert forall|i: int| 0 < i < m1.stack.len() implies
                #[trigger] m1.stack[i].parent == Some(m1.stack[i - 1].id) by {
                if i < m0.stack.len() {
                    assert(m1.stack[i] == m0.stack[i]);
                    assert(m1.stack[i - 1] == m0.stack[i - 1]);
                }
            }
        }
        id
    }

    /// Close the innermost scope, provided `handle` names it, and return the
    /// finished span. A handle that does not name the innermost open scope
    /// leaves the recorder unchanged and returns nothing.
    pub fn end_span(&mut self, handle: u64, now: u64) -> (closed: Option<Span>)
        requires
            old(self).wf(),
        ensures
            final(self).wf(),
            if old(self)@.current_parent() == Some(handle as int) {
                &&& final(self)@ == end_spec(old(self)@)
                &&& closed matches Some(s) && (s@ == close_spec(old(self)@.stack.last(), now as int)
                    && s@.wf())
            } else {
                &&& final(self)@ == old(self)@
                &&& closed is None
            },
    {
        let ghost m0 = self@;
        let matches_top = match self.current_span() {
            Some(id) => id == handle,
            None => false,
        };
        if matches_top {
            let o = self.stack.pop().unwrap();
            proof {
                assert(o@ == m0.stack.last());
                assert(self@.stack =~= m0.stack.drop_last());
            }
            let end = if now < o.start { o.start } else { now };
            let s = Span {
                id: o.id,
                parent: o.parent,
                name: o.name,
                start: o.start,
                end,
                attrs: o.attrs,
            };
            proof {
                let m1 = self@;
                assert forall|i: int| 0 <= i < m1.stack.len() implies
                    1 <= #[trigger] m1.stack[i].id < m1.next_id by {
                    assert(m1.stack[i] == m0.stack[i]);
                }
                assert forall|i: int| 0 < i < m1.stack.len() implies
                    #[trigger] m1.stack[i].parent == Some(m1.stack[i - 1].id) by {
                    assert(m1.stack[i] == m0.stack[i]);
                    assert(m1.stack[i - 1] == m0.stack[i - 1]);
                }
            }
            Some(s)
        } else {
            None
        }
    }
}

} // verus!
