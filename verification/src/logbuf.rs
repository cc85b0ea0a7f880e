//! A bounded log of lines: the completed lines, oldest first, and the line
//! still being written.
use vstd::prelude::*;
use std::collections::VecDeque;
use crate::config::strings_view;

verus! {

/// How many completed lines a log keeps; older lines are dropped first.
pub const LOG_LIMIT: usize = 5000;

/// `s` with `line` added at the end, dropping the oldest line when the log
/// is full.
pub open spec fn push_bounded(s: Seq<Seq<char>>, line: Seq<char>) -> Seq<Seq<char>> {
    if s.len() >= LOG_LIMIT {
        s.drop_first().push(line)
    } else {
        s.push(line)
    }
}

/// `s` after the lines `xs` are added one by one.
pub open spec fn push_all(s: Seq<Seq<char>>, xs: Seq<Seq<char>>) -> Seq<Seq<char>>
    decreases xs.len(),
{
    if xs.len() == 0 {
        s
    } else {
        push_bounded(push_all(s, xs.drop_last()), xs.last())
    }
}

/// The last `LOG_LIMIT` elements of `s` (all of them when there are fewer).
pub open spec fn latest(s: Seq<Seq<char>>) -> Seq<Seq<char>> {
    if s.len() > LOG_LIMIT {
        s.subrange(s.len() - LOG_LIMIT, s.len() as int)
    } else {
        s
    }
}

/// A log keeps exactly the most recent `LOG_LIMIT` lines: starting from a log
/// within the limit, adding lines one by one leaves the last `LOG_LIMIT` of
/// all lines, in order.
pub proof fn lemma_log_keeps_latest(s: Seq<Seq<char>>, xs: Seq<Seq<char>>)
    requires
        s.len() <= LOG_LIMIT,
    ensures
        push_all(s, xs) == latest(s + xs),
        push_all(s, xs).len() <= LOG_LIMIT,
    decreases xs.len(),
{
    if xs.len() == 0 {
        assert(s + xs =~= s);
    } else {
        lemma_log_keeps_latest(s, xs.drop_last());
        let prev = s + xs.drop_last();
        assert(s + xs =~= prev.push(xs.last()));
        assert(push_all(s, xs) =~= latest(s + xs));
    }
}

/// A log: the completed lines, oldest first, and the line still being written.
pub struct LogBuffer {
    completed: VecDeque<String>,
    partial: Option<String>,
}

/// A log as mathematical values.
pub struct LogBufferView {
    pub completed: Seq<Seq<char>>,
    pub partial: Option<Seq<char>>,
}

impl View for LogBuffer {
    type V = LogBufferView;

    closed spec fn view(&self) -> LogBufferView {
        LogBufferView {
            completed: strings_view(self.completed@),
            partial: match self.partial {
                Some(p) => Some(p@),
                None => None,
            },
        }
    }
}

impl LogBuffer {
    /// A log holds at most `LOG_LIMIT` completed lines.
    #[verifier::type_invariant]
    spec fn wf(&self) -> bool {
        self.completed@.len() <= LOG_LIMIT
    }

    /// The number of completed lines, which never exceeds `LOG_LIMIT`.
    pub fn len(&self) -> (r: usize)
        ensures
            r == self@.completed.len(),
            r <= LOG_LIMIT,
    {
        proof {
            use_type_invariant(self);
        }
        self.completed.len()
    }

    /// An empty log.
    pub fn new() -> (r: Self)
        ensures
            r@.completed == Seq::<Seq<char>>::empty(),
            r@.partial is None,
    {
        let r = LogBuffer { completed: VecDeque::new(), partial: None };
        assert(strings_view(r.completed@) =~= Seq::<Seq<char>>::empty());
        r
    }

    fn push_completed(&mut self, line: String)
        ensures
            final(self)@.completed == push_bounded(old(self)@.completed, line@),
            final(self).partial == old(self).partial,
    {
        proof {
            use_type_invariant(&*self);
        }
        let mut c = VecDeque::new();
        std::mem::swap(&mut c, &mut self.completed);
        if c.len() >= LOG_LIMIT {
            c.pop_front();
        }
        c.push_back(line);
        self.completed = c;
        assert(strings_view(self.completed@) =~= push_bounded(old(self)@.completed, line@));
    }

    /// A line from a process: a partial line replaces the line being
    /// written; a completed line ends it and is added to the log.
    pub fn push_line(&mut self, line: String, partial: bool)
        ensures
            partial ==> final(self)@.partial == Some(line@) && final(self)@.completed == old(
                self,
            )@.completed,
            !partial ==> final(self)@.partial is None && final(self)@.completed == push_bounded(
                old(self)@.completed,
                line@,
            ),
    {
        proof {
            use_type_invariant(&*self);
        }
        if partial {
            self.partial = Some(line);
        } else {
            self.partial = None;
            self.push_completed(line);
        }
    }

    /// A message of the application: added to the log, leaving the line
    /// being written as it is.
    pub fn push_system(&mut self, line: String)
        ensures
            final(self)@.completed == push_bounded(old(self)@.completed, line@),
            final(self)@.partial == old(self)@.partial,
    {
        self.push_completed(line);
    }

    /// Empties the log.
    pub fn clear(&mut self)
        ensures
            final(self)@.completed == Seq::<Seq<char>>::empty(),
            final(self)@.partial is None,
    {
        self.completed = VecDeque::new();
        self.partial = None;
        assert(strings_view(self.completed@) =~= Seq::<Seq<char>>::empty());
    }

    /// The lines to show: the completed lines, then the line being written.
    pub fn iter_display(&self) -> (r: Vec<String>)
        ensures
            strings_view(r@) == self@.completed + match self@.partial {
                Some(p) => seq![p],
                None => Seq::<Seq<char>>::empty(),
            },
    {
        let mut r: Vec<String> = Vec::new();
        let mut i: usize = 0;
        while i < self.completed.len()
            invariant
                i <= self.completed@.len(),
                strings_view(r@) == strings_view(self.completed@).take(i as int),
            decreases self.completed.len() - i,
        {
            let line = self.completed[i].clone();
            assert(line@ == self.completed@[i as int]@);
            r.push(line);
            assert(strings_view(self.completed@).take(i + 1) =~= strings_view(self.completed@).take(i as int).push(line@));
            assert(strings_view(r@) =~= strings_view(self.completed@).take(i + 1));
            i = i + 1;
        }
        assert(strings_view(self.completed@).take(self.completed@.len() as int) =~= strings_view(
            self.completed@,
        ));
        match &self.partial {
            Some(p) => {
                r.push(p.clone());
            },
            None => {},
        }
        assert(strings_view(r@) =~= self@.completed + match self@.partial {
            Some(p) => seq![p],
            None => Seq::<Seq<char>>::empty(),
        });
        r
    }
}


/// The lines shown for a log: its completed lines, then the line being
/// written.
pub open spec fn display_spec(v: LogBufferView) -> Seq<Seq<char>> {
    v.completed + match v.partial {
        Some(p) => seq![p],
        None => Seq::<Seq<char>>::empty(),
    }
}

/// A log shows all of its lines: its completed lines first, in order, and
/// then the line being written, when there is one, as the last line.
pub proof fn lemma_display_shows_every_line(v: LogBufferView)
    ensures
        display_spec(v).len() == v.completed.len() + if v.partial is Some { 1int } else { 0int },
        forall|i: int| 0 <= i < v.completed.len() ==> #[trigger] display_spec(v)[i] == v.completed[i],
        v.partial matches Some(p) ==> display_spec(v).last() == p,
{
}

/// A line still being written (such as upload progress) is shown at once:
/// after it is recorded, the lines shown are the completed lines followed
/// by it.
pub proof fn lemma_partial_line_is_shown(v: LogBufferView, line: Seq<char>)
    ensures
        display_spec(log_push_line_spec(v, line, true)) == v.completed.push(line),
{
    assert(display_spec(log_push_line_spec(v, line, true)) =~= v.completed.push(line));
}

/// A log after a completed line or application message `line` is added.
pub open spec fn log_push_system_spec(v: LogBufferView, line: Seq<char>) -> LogBufferView {
    LogBufferView { completed: push_bounded(v.completed, line), partial: v.partial }
}

/// A log after a line from a process is added.
pub open spec fn log_push_line_spec(v: LogBufferView, line: Seq<char>, partial: bool) -> LogBufferView {
    if partial {
        LogBufferView { completed: v.completed, partial: Some(line) }
    } else {
        LogBufferView { completed: push_bounded(v.completed, line), partial: None }
    }
}

} // verus!
