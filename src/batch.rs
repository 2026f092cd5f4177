use vstd::prelude::*;
use vstd::string::StringExecFns;

use crate::message::ReplyTarget;

verus! {

/// The abstract content of a batch: who the reply goes to and the lines so far.
pub struct BatchView {
    pub target: Option<ReplyTarget>,
    pub lines: Seq<String>,
}

impl BatchView {
    pub open spec fn empty() -> BatchView {
        BatchView { target: None, lines: Seq::empty() }
    }

    /// A target is set exactly when some line has been collected.
    pub open spec fn wf(self) -> bool {
        self.target.is_none() <==> self.lines.len() == 0
    }

    /// One successful fetch: the first writer fixes the target, the line is appended.
    pub open spec fn append(self, target: ReplyTarget, line: String) -> BatchView {
        BatchView {
            target: if self.target.is_some() { self.target } else { Some(target) },
            lines: self.lines.push(line),
        }
    }

    /// What a flush of this batch sends, if anything.
    pub open spec fn flushed(self) -> Option<(ReplyTarget, Seq<String>)> {
        match self.target {
            Some(t) => Some((t, self.lines)),
            None => None,
        }
    }
}

/// The batch after the successful fetches `ops` (target, line) were appended in lock order.
pub open spec fn append_all(s: BatchView, ops: Seq<(ReplyTarget, String)>) -> BatchView
    decreases ops.len(),
{
    if ops.len() == 0 {
        s
    } else {
        append_all(s, ops.drop_last()).append(ops.last().0, ops.last().1)
    }
}

/// However many fetches were appended before one flush, the flush sends exactly
/// their lines, in lock order, to the target of the first append.
pub proof fn lemma_flush_after_appends(ops: Seq<(ReplyTarget, String)>)
    requires
        ops.len() > 0,
    ensures
        append_all(BatchView::empty(), ops).wf(),
        append_all(BatchView::empty(), ops).flushed() == Some(
            (ops[0].0, ops.map_values(|op: (ReplyTarget, String)| op.1)),
        ),
        append_all(BatchView::empty(), ops).lines.len() == ops.len(),
    decreases ops.len(),
{
    let f = |op: (ReplyTarget, String)| op.1;
    let prev = append_all(BatchView::empty(), ops.drop_last());
    if ops.len() > 1 {
        lemma_flush_after_appends(ops.drop_last());
        assert(ops.drop_last()[0] == ops[0]);
        assert(prev.lines == ops.drop_last().map_values(f));
    } else {
        assert(prev == BatchView::empty());
        assert(prev.lines =~= ops.drop_last().map_values(f));
    }
    assert(ops.drop_last().map_values(f).push(ops.last().1) =~= ops.map_values(f));
}

/// The lines of a reply joined by newlines.
pub open spec fn join_lines(lines: Seq<String>) -> Seq<char>
    decreases lines.len(),
{
    if lines.len() == 0 {
        Seq::empty()
    } else if lines.len() == 1 {
        lines[0]@
    } else {
        join_lines(lines.drop_last()) + seq!['\n'] + lines.last()@
    }
}

/// One aggregated reply: its address and the collected status lines.
#[derive(Debug, Clone)]
pub struct Reply {
    pub target: ReplyTarget,
    pub lines: Vec<String>,
}

impl Reply {
    /// The reply's text: one line per collected status.
    pub fn text(&self) -> (r: String)
        ensures
            r@ == join_lines(self.lines@),
    {
        let mut out = String::new();
        let mut i: usize = 0;
        while i < self.lines.len()
            invariant
                i <= self.lines@.len(),
                out@ == join_lines(self.lines@.take(i as int)),
            decreases self.lines@.len() - i,
        {
            let ghost prev = self.lines@.take(i as int);
            assert(self.lines@.take(i + 1).drop_last() == prev);
            if i > 0 {
                out.append("\n");
                proof {
                    reveal_strlit("\n");
                }
            }
            out.append(self.lines[i].as_str());
            i = i + 1;
        }
        assert(self.lines@.take(self.lines@.len() as int) == self.lines@);
        out
    }
}

/// The work seen since the last flush.
pub struct BatchState {
    reply_target: Option<ReplyTarget>,
    result_lines: Vec<String>,
}

impl View for BatchState {
    type V = BatchView;

    closed spec fn view(&self) -> BatchView {
        BatchView { target: self.reply_target, lines: self.result_lines@ }
    }
}

impl BatchState {
    /// An empty batch, as at start-up.
    pub fn new() -> (r: BatchState)
        ensures
            r@ == BatchView::empty(),
            r@.wf(),
    {
        BatchState { reply_target: None, result_lines: Vec::new() }
    }

    pub fn is_empty(&self) -> (r: bool)
        requires
            self@.wf(),
        ensures
            r == (self@.target is None),
            r == (self@.lines.len() == 0),
    {
        self.reply_target.is_none()
    }

    /// Records the status line of one successful fetch for `target`'s message.
    pub fn append(&mut self, target: ReplyTarget, line: String)
        requires
            old(self)@.wf(),
        ensures
            final(self)@ == old(self)@.append(target, line),
            final(self)@.wf(),
    {
        if self.reply_target.is_none() {
            self.reply_target = Some(target);
        }
        self.result_lines.push(line);
    }

    /// Drains the batch: the reply to send when a target is set, and an empty batch.
    pub fn flush(&mut self) -> (r: Option<Reply>)
        requires
            old(self)@.wf(),
        ensures
            final(self)@ == BatchView::empty(),
            match old(self)@.flushed() {
                Some((t, lines)) => r is Some && r->0.target == t && r->0.lines@ == lines,
                None => r is None,
            },
    {
        match self.reply_target {
            Some(t) => {
                let lines = self.result_lines.split_off(0);
                assert(self.result_lines@ =~= Seq::<String>::empty());
                self.reply_target = None;
                Some(Reply { target: t, lines })
            },
            None => {
                assert(self.result_lines@ =~= Seq::<String>::empty());
                None
            },
        }
    }
}

} // verus!
