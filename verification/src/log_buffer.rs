//! The last lines of the log, kept for the status pages.
use std::collections::VecDeque;
use vstd::prelude::*;
use vstd::string::StringExecFns;

verus! {

/// How many lines are kept.
pub const CAPACITY: usize = 200;

/// Collects the message of a log event from its fields.
#[derive(Debug)]
pub struct MessageVisitor {
    pub message: String,
}

impl MessageVisitor {
    /// No field has been seen.
    pub fn new() -> (visitor: MessageVisitor)
        ensures
            visitor.message@ == Seq::<char>::empty(),
    {
        MessageVisitor { message: String::new() }
    }

    /// Takes in a text field.
    pub fn record_str(&mut self, field: &str, value: &str)
        ensures
            final(self).message@ == recorded(old(self).message@, field@, value@),
            field@ == "message"@ ==> final(self).message@ == value@,
            field@ != "message"@ ==> final(self).message@ == old(self).message@,
    {
        if is_message(field) {
            self.message = value.to_owned();
        }
    }

    /// Takes in another field, with `shown` as its value's debug text.
    pub fn record_debug(&mut self, field: &str, shown: String)
        ensures
            final(self).message@ == recorded(old(self).message@, field@, shown@),
            field@ == "message"@ ==> final(self).message@ == shown@,
            field@ != "message"@ ==> final(self).message@ == old(self).message@,
    {
        if is_message(field) {
            self.message = shown;
        }
    }
}

/// The message after a field has been seen: the value of the field if it is the message.
pub open spec fn recorded(message: Seq<char>, field: Seq<char>, value: Seq<char>) -> Seq<char> {
    if field == "message"@ {
        value
    } else {
        message
    }
}

/// Whether a field is the message of its event.
fn is_message(field: &str) -> (yes: bool)
    ensures
        yes == (field@ == "message"@),
{
    let name: String = field.to_owned();
    name == "message".to_owned()
}

/// The line that is kept of an event.
pub open spec fn log_line(target: Seq<char>, level: Seq<char>, message: Seq<char>) -> Seq<char> {
    "["@ + target + "] "@ + level + ": "@ + message
}

/// The lines kept after `line` has been added to `lines`: where there are too many, the
/// oldest one goes.
pub open spec fn with_line(lines: Seq<Seq<char>>, line: Seq<char>) -> Seq<Seq<char>> {
    if lines.len() >= CAPACITY {
        lines.skip(1).push(line)
    } else {
        lines.push(line)
    }
}

/// The last lines of the log, oldest first.
pub struct LogBuffer {
    lines: VecDeque<String>,
}

impl View for LogBuffer {
    type V = Seq<Seq<char>>;

    closed spec fn view(&self) -> Seq<Seq<char>> {
        crate::text::texts(self.lines@)
    }
}

impl LogBuffer {
    /// No line has been logged.
    pub fn new() -> (buffer: LogBuffer)
        ensures
            buffer@ == Seq::<Seq<char>>::empty(),
    {
        let buffer = LogBuffer { lines: VecDeque::new() };
        proof {
            assert(buffer@ =~= Seq::<Seq<char>>::empty());
        }
        buffer
    }

    /// Keeps the line of an event.
    pub fn on_event(&mut self, target: &str, level: &str, visitor: &MessageVisitor)
        ensures
            final(self)@ == with_line(
                old(self)@,
                log_line(target@, level@, visitor.message@),
            ),
            final(self)@.last() == "["@ + target@ + "] "@ + level@ + ": "@ + visitor.message@,
            final(self)@.len() == (if old(self)@.len() >= 200 {
                old(self)@.len()
            } else {
                old(self)@.len() + 1
            }),
            final(self)@.drop_last() == (if old(self)@.len() >= 200 {
                old(self)@.skip(1)
            } else {
                old(self)@
            }),
    {
        let mut line: String = String::new();
        line.append("[");
        line.append(target);
        line.append("] ");
        line.append(level);
        line.append(": ");
        line.append(visitor.message.as_str());
        proof {
            assert(line@ =~= log_line(target@, level@, visitor.message@));
        }
        if self.lines.len() >= CAPACITY {
            self.lines.pop_front();
        }
        self.lines.push_back(line);
        proof {
            assert(self@ =~= with_line(old(self)@, line@));
            assert(self@.drop_last() =~= (if old(self)@.len() >= 200 {
                old(self)@.skip(1)
            } else {
                old(self)@
            }));
        }
    }

    /// The lines, oldest first.
    pub fn lines(&self) -> (lines: Vec<String>)
        ensures
            crate::text::texts(lines@) == self@,
            lines@.len() == self@.len(),
            forall|i: int| 0 <= i < lines@.len() ==> (#[trigger] lines@[i])@ == self@[i],
    {
        let mut lines: Vec<String> = Vec::new();
        let mut i: usize = 0;
        while i < self.lines.len()
            invariant
                i <= self.lines@.len(),
                lines@ =~= self.lines@.take(i as int),
            decreases self.lines@.len() - i,
        {
            lines.push(self.lines[i].clone());
            i = i + 1;
        }
        proof {
            assert(lines@ =~= self.lines@);
        }
        lines
    }
}

/// Which events are logged where the environment does not say: debug events of the
/// server itself and of its HTTP layer, and all that is known of refused requests.
pub fn default_filter(crate_name: &str) -> (filter: String)
    ensures
        filter@ == crate_name@ + "=debug,tower_http=debug,axum::rejection=trace"@,
{
    crate_name.to_owned().concat("=debug,tower_http=debug,axum::rejection=trace")
}

/// The lines kept after `logged` has been added, line by line, to `lines`.
pub open spec fn with_lines(lines: Seq<Seq<char>>, logged: Seq<Seq<char>>) -> Seq<Seq<char>>
    decreases logged.len(),
{
    if logged.len() == 0 {
        lines
    } else {
        with_line(with_lines(lines, logged.drop_last()), logged.last())
    }
}

/// The last of the lines: all of them if there are not too many.
pub open spec fn newest(lines: Seq<Seq<char>>) -> Seq<Seq<char>> {
    if lines.len() > CAPACITY {
        lines.skip(lines.len() - CAPACITY)
    } else {
        lines
    }
}

/// The buffer always holds the last lines that were logged, in order.
pub proof fn law_newest_lines_are_kept(logged: Seq<Seq<char>>)
    ensures
        with_lines(Seq::empty(), logged) == newest(logged),
        with_lines(Seq::empty(), logged).len() <= CAPACITY,
        logged.len() <= 200 ==> with_lines(Seq::empty(), logged) == logged,
        logged.len() > 200 ==> with_lines(Seq::empty(), logged) == logged.skip(
            logged.len() - 200,
        ),
    decreases logged.len(),
{
    if logged.len() > 0 {
        law_newest_lines_are_kept(logged.drop_last());
        assert(with_lines(Seq::empty(), logged) =~= newest(logged));
    } else {
        assert(logged =~= Seq::empty());
    }
}

} // verus!
