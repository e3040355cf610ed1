//! The last warning, for the status line, and how its message is put together.
use std::time::SystemTime;
use vstd::prelude::*;
use vstd::string::*;

verus! {

/// How severe an event is, the most severe first.
#[derive(Debug, Clone, Copy, PartialEq, Eq, Structural)]
pub enum Level {
    Error,
    Warn,
    Info,
    Debug,
    Trace,
}

impl Level {
    /// Warnings and errors are kept.
    pub open spec fn kept(self) -> bool {
        self == Level::Error || self == Level::Warn
    }

    /// The level's name.
    pub open spec fn name(self) -> Seq<char> {
        match self {
            Level::Error => "ERROR"@,
            Level::Warn => "WARN"@,
            Level::Info => "INFO"@,
            Level::Debug => "DEBUG"@,
            Level::Trace => "TRACE"@,
        }
    }

    /// The level's name.
    pub fn as_str(self) -> (r: &'static str)
        ensures
            r@ == self.name(),
            self is Error ==> r@ == "ERROR"@,
            self is Warn ==> r@ == "WARN"@,
            self is Info ==> r@ == "INFO"@,
            self is Debug ==> r@ == "DEBUG"@,
            self is Trace ==> r@ == "TRACE"@,
    {
        match self {
            Level::Error => "ERROR",
            Level::Warn => "WARN",
            Level::Info => "INFO",
            Level::Debug => "DEBUG",
            Level::Trace => "TRACE",
        }
    }
}

/// An event that was kept.
#[derive(Debug)]
pub struct LogEntry {
    pub level: Level,
    pub message: String,
    pub at: SystemTime,
}

/// The last event that was kept, and how many came since they were last read.
#[derive(Debug)]
pub struct LogState {
    pub last: Option<LogEntry>,
    pub unread: usize,
    pub log_path: String,
}

impl LogState {
    /// No event yet.
    pub fn new(log_path: String) -> (r: Self)
        ensures
            r == (LogState { last: None, unread: 0, log_path }),
    {
        LogState { last: None, unread: 0, log_path }
    }

    /// Forgets how many events came.
    pub fn clear_unread(&mut self)
        ensures
            *final(self) == (LogState { unread: 0, ..*old(self) }),
    {
        self.unread = 0;
    }

    /// Takes in an event. Only warnings and errors are kept; the count stays
    /// at its limit once it is reached.
    pub fn record(&mut self, level: Level, message: String, at: SystemTime)
        ensures
            *final(self) == (if level.kept() {
                LogState {
                    last: Some(LogEntry { level, message, at }),
                    unread: if old(self).unread < usize::MAX {
                        (old(self).unread + 1) as usize
                    } else {
                        usize::MAX
                    },
                    log_path: old(self).log_path,
                }
            } else {
                *old(self)
            }),
            level is Error || level is Warn ==> final(self).last == Some(
                LogEntry { level, message, at },
            ) && final(self).unread >= 1 && (old(self).unread < usize::MAX ==> final(self).unread
                == old(self).unread + 1),
            level is Info || level is Debug || level is Trace ==> *final(self) == *old(self),
            final(self).log_path == old(self).log_path,
    {
        if level == Level::Error || level == Level::Warn {
            self.last = Some(LogEntry { level, message, at });
            self.unread = self.unread.saturating_add(1);
        }
    }
}

/// Collects the message and the other fields of an event.
#[derive(Debug)]
pub struct MessageVisitor {
    message: String,
    fields: Vec<(String, String)>,
}

/// The message and the other fields of an event, as characters.
pub ghost struct VisitorModel {
    pub message: Seq<char>,
    pub fields: Seq<(Seq<char>, Seq<char>)>,
}

impl View for MessageVisitor {
    type V = VisitorModel;

    closed spec fn view(&self) -> VisitorModel {
        VisitorModel {
            message: self.message@,
            fields: Seq::new(
                self.fields@.len(),
                |i: int| (self.fields@[i].0@, self.fields@[i].1@),
            ),
        }
    }
}

impl VisitorModel {
    /// A field taken in: the one called `message` is the message.
    pub open spec fn with_field(self, name: Seq<char>, value: Seq<char>) -> Self {
        if name == "message"@ {
            VisitorModel { message: value, ..self }
        } else {
            VisitorModel { fields: self.fields.push((name, value)), ..self }
        }
    }
}

/// Fields behind a message, each as ` name=value`.
pub open spec fn joined_fields(
    message: Seq<char>,
    fields: Seq<(Seq<char>, Seq<char>)>,
) -> Seq<char>
    decreases fields.len(),
{
    if fields.len() == 0 {
        message
    } else {
        let (name, value) = fields.last();
        joined_fields(message, fields.drop_last()) + seq![' '] + name + seq!['='] + value
    }
}

impl MessageVisitor {
    /// Nothing yet.
    pub fn new() -> (r: Self)
        ensures
            r@ == (VisitorModel { message: Seq::empty(), fields: Seq::empty() }),
    {
        let r = MessageVisitor { message: String::new(), fields: Vec::new() };
        assert(r@.fields =~= Seq::empty());
        r
    }

    /// Takes in a field.
    pub fn record(&mut self, name: &str, value: String)
        ensures
            final(self)@ == old(self)@.with_field(name@, value@),
    {
        let ghost before = self@;
        if *name == *"message" {
            self.message = value;
            assert(self@.fields =~= before.fields);
        } else {
            let ghost v = value@;
            self.fields.push((name.to_owned(), value));
            assert(self@.fields =~= before.fields.push((name@, v)));
        }
    }

    /// The message, with the other fields behind it.
    pub fn into_message(self) -> (r: String)
        ensures
            r@ == joined_fields(self@.message, self@.fields),
    {
        let ghost m = self@;
        let mut out: String = self.message.as_str().to_owned();
        let mut i: usize = 0;
        assert(m.fields.take(0) =~= Seq::empty());
        while i < self.fields.len()
            invariant
                i <= self.fields.len(),
                m == self@,
                out@ == joined_fields(m.message, m.fields.take(i as int)),
            decreases self.fields.len() - i,
        {
            let ghost before = out@;
            out.push(' ');
            out.append(self.fields[i].0.as_str());
            out.push('=');
            out.append(self.fields[i].1.as_str());
            proof {
                let (name, value) = m.fields[i as int];
                assert(m.fields.take(i + 1).drop_last() =~= m.fields.take(i as int));
                assert(out@ =~= before + seq![' '] + name + seq!['='] + value);
            }
            i += 1;
        }
        assert(m.fields.take(i as int) =~= m.fields);
        out
    }
}

/// A message is shown first, and each field behind it by name and value.
pub proof fn law_fields_follow_the_message(
    message: Seq<char>,
    fields: Seq<(Seq<char>, Seq<char>)>,
    name: Seq<char>,
    value: Seq<char>,
)
    ensures
        joined_fields(message, Seq::empty()) == message,
        joined_fields(message, fields.push((name, value))) == joined_fields(message, fields) + " "@
            + name + "="@ + value,
{
    assert(fields.push((name, value)).drop_last() =~= fields);
    reveal_strlit(" ");
    reveal_strlit("=");
    assert(" "@ =~= seq![' ']);
    assert("="@ =~= seq!['=']);
}

/// The field called `message` is the message; every other one is kept under its
/// name, behind those before it.
pub proof fn law_fields_are_collected(v: VisitorModel, name: Seq<char>, value: Seq<char>)
    ensures
        v.with_field("message"@, value).message == value,
        v.with_field("message"@, value).fields == v.fields,
        name != "message"@ ==> v.with_field(name, value).message == v.message,
        name != "message"@ ==> v.with_field(name, value).fields == v.fields.push((name, value)),
{
}

} // verus!
