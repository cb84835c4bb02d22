//! What is logged, and how a line of the log is written.

use crate::text::{chars_of, same_text};
use vstd::prelude::*;
use vstd::string::*;

verus! {

/// The levels of the log.
#[derive(Clone, Copy, Debug, PartialEq, Eq, Structural)]
pub enum LogLevel {
    Error,
    Warn,
    Info,
    Debug,
    Trace,
}

/// The syslog severity of a level: there is none finer than debug.
pub open spec fn severity(level: LogLevel) -> i32 {
    match level {
        LogLevel::Error => 3,
        LogLevel::Warn => 4,
        LogLevel::Info => 6,
        LogLevel::Debug => 7,
        LogLevel::Trace => 7,
    }
}

/// The syslog severity of a level.
pub fn syslog_level(level: LogLevel) -> (n: i32)
    ensures
        n == severity(level),
{
    match level {
        LogLevel::Error => 3,
        LogLevel::Warn => 4,
        LogLevel::Info => 6,
        LogLevel::Debug => 7,
        LogLevel::Trace => 7,
    }
}

/// A line in the making: the message, and the other fields.
pub struct LineVisitor {
    pub message: String,
    pub fields: String,
}

impl LineVisitor {
    /// Nothing yet.
    pub fn new() -> (v: LineVisitor)
        ensures
            v.message@ == Seq::<char>::empty(),
            v.fields@ == Seq::<char>::empty(),
    {
        LineVisitor { message: String::new(), fields: String::new() }
    }

    /// Takes a field, with its value as text: `message` is the message, any other
    /// is appended as ` name=value`.
    pub fn record(&mut self, name: &str, value: &str)
        ensures
            name@ == "message"@ ==> {
                &&& final(self).message@ == old(self).message@ + value@
                &&& final(self).fields@ == old(self).fields@
            },
            name@ != "message"@ ==> {
                &&& final(self).message@ == old(self).message@
                &&& final(self).fields@ == old(self).fields@ + (" "@ + name@ + "="@ + value@)
            },
    {
        if same_text(name, "message") {
            self.message.append(value);
        } else {
            self.fields.append(" ");
            self.fields.append(name);
            self.fields.append("=");
            self.fields.append(value);
            assert(self.fields@ =~= old(self).fields@ + (" "@ + name@ + "="@ + value@));
        }
    }

    /// The line: `target: message`, and the fields.
    pub fn line(&self, target: &str) -> (s: String)
        ensures
            s@ == line_of(target@, self.message@, self.fields@),
    {
        let mut s = target.to_owned();
        s.append(": ");
        s.append(self.message.as_str());
        s.append(self.fields.as_str());
        s
    }
}

/// A line of the log.
pub open spec fn line_of(target: Seq<char>, message: Seq<char>, fields: Seq<char>) -> Seq<char> {
    target + ": "@ + message + fields
}

/// A line for the logger of the embedding program.
pub struct Delivered {
    pub level: i32,
    pub line: String,
}

/// What the installed logger gets of an event: nothing where there is no callback,
/// and nothing where the line cannot be a C string.
pub fn deliver(has_callback: bool, level: LogLevel, target: &str, v: &LineVisitor) -> (r: Option<
    Delivered,
>)
    ensures
        ({
            let line = line_of(target@, v.message@, v.fields@);
            if has_callback && !line.contains('\0') {
                r matches Some(d) && d.level == severity(level) && d.line@ == line
            } else {
                r is None
            }
        }),
{
    if !has_callback {
        return None;
    }
    let line = v.line(target);
    let chars = chars_of(line.as_str());
    let mut i: usize = 0;
    while i < chars.len()
        invariant
            i <= chars@.len(),
            chars@ == line@,
            line@ == line_of(target@, v.message@, v.fields@),
            forall|j: int| 0 <= j < i ==> chars@[j] != '\0',
        decreases chars@.len() - i,
    {
        if chars[i] == '\0' {
            assert(chars@[i as int] == '\0');
            return None;
        }
        i = i + 1;
    }
    Some(Delivered { level: syslog_level(level), line })
}

/// Whether the log also goes to standard error: some variable for developers is
/// set.
pub fn dev_env_set(trace: bool, aperture_stats: bool, req_stats: bool, rust_log: bool) -> (b: bool)
    ensures
        b == (trace || aperture_stats || req_stats || rust_log),
{
    trace || aperture_stats || req_stats || rust_log
}

/// The directives that the variables for developers add to the filter of the log:
/// tracing raises this library to trace, and statistics raise the transport to
/// debug.
pub open spec fn directives(trace: bool, aperture_stats: bool, req_stats: bool) -> Seq<Seq<char>> {
    if trace {
        seq!["virtio_hdv=trace"@, "hyperv_virtiofs=trace"@]
    } else if aperture_stats || req_stats {
        seq!["virtio_hdv=debug"@]
    } else {
        Seq::empty()
    }
}

/// The directives that the variables for developers add to the filter of the log.
pub fn extra_directives(trace: bool, aperture_stats: bool, req_stats: bool) -> (d: Vec<String>)
    ensures
        d@.len() == directives(trace, aperture_stats, req_stats).len(),
        forall|i: int|
            0 <= i < d@.len() ==> (#[trigger] d@[i])@ == directives(
                trace,
                aperture_stats,
                req_stats,
            )[i],
{
    let mut d: Vec<String> = Vec::new();
    if trace {
        d.push("virtio_hdv=trace".to_owned());
        d.push("hyperv_virtiofs=trace".to_owned());
    } else if aperture_stats || req_stats {
        d.push("virtio_hdv=debug".to_owned());
    }
    d
}

// ---------------------------------------------------------------------------
// Laws
// ---------------------------------------------------------------------------

/// The severities are those of syslog: error 3, warning 4, informational 6, debug 7;
/// a trace is a debug line.
pub proof fn law_levels_are_syslog_severities(level: LogLevel, n: i32)
    requires
        call_ensures(syslog_level, (level,), n),
    ensures
        n == 3 <==> level == LogLevel::Error,
        n == 4 <==> level == LogLevel::Warn,
        n == 6 <==> level == LogLevel::Info,
        n == 7 <==> level == LogLevel::Debug || level == LogLevel::Trace,
{
}

/// A field is kept behind those that came before: the message is added to the message,
/// and any other field to the fields, as ` name=value`. Neither touches the other.
pub proof fn law_fields_are_kept_in_order(v: &mut LineVisitor, name: &str, value: &str, u: ())
    requires
        call_ensures(LineVisitor::record, (v, name, value), u),
    ensures
        name@ == seq!['m', 'e', 's', 's', 'a', 'g', 'e'] ==> final(v).message@ == old(v).message@
            + value@ && final(v).fields@ == old(v).fields@,
        name@ != seq!['m', 'e', 's', 's', 'a', 'g', 'e'] ==> final(v).message@ == old(v).message@
            && final(v).fields@ == old(v).fields@ + seq![' '] + name@ + seq!['='] + value@,
{
    reveal_strlit("message");
    reveal_strlit(" ");
    reveal_strlit("=");
    assert("message"@ =~= seq!['m', 'e', 's', 's', 'a', 'g', 'e']);
    assert(" "@ =~= seq![' '] && "="@ =~= seq!['=']);
    assert(v.fields@ + (" "@ + name@ + "="@ + value@) =~= v.fields@ + seq![' '] + name@ + seq!['=']
        + value@);
}

/// A line names its target, and then tells the message and the fields. It reaches the
/// callback exactly if there is one and no character of it is a null.
pub proof fn law_line_is_delivered_whole(
    has_callback: bool,
    level: LogLevel,
    target: &str,
    v: &LineVisitor,
    line: String,
    r: Option<Delivered>,
    n: i32,
    fresh: LineVisitor,
)
    requires
        call_ensures(LineVisitor::line, (v, target), line),
        call_ensures(deliver, (has_callback, level, target, v), r),
        call_ensures(syslog_level, (level,), n),
        call_ensures(LineVisitor::new, (), fresh),
    ensures
        line@ == target@ + seq![':', ' '] + v.message@ + v.fields@,
        r is Some <==> has_callback && forall|i: int|
            0 <= i < line@.len() ==> (#[trigger] line@[i]) as int != 0,
        r matches Some(d) ==> d.level == n && d.line@ == line@,
        fresh.message@.len() == 0 && fresh.fields@.len() == 0,
{
    reveal_strlit(": ");
    assert(": "@ =~= seq![':', ' ']);
    if !line@.contains('\0') {
        assert forall|i: int| 0 <= i < line@.len() implies (#[trigger] line@[i]) as int != 0 by {
            if line@[i] as int == 0 {
                assert(line@[i] == '\0');
            }
        }
    }
}

/// A developer who sets any of the variables sees the log on standard error. Tracing
/// raises both crates to trace, whatever else is set; statistics alone raise the
/// transport to debug; and without either nothing is raised.
pub proof fn law_developers_are_told_more(
    trace: bool,
    aperture_stats: bool,
    req_stats: bool,
    rust_log: bool,
    b: bool,
    d: Vec<String>,
)
    requires
        call_ensures(dev_env_set, (trace, aperture_stats, req_stats, rust_log), b),
        call_ensures(extra_directives, (trace, aperture_stats, req_stats), d),
    ensures
        !b <==> !trace && !aperture_stats && !req_stats && !rust_log,
        trace ==> d@.len() == 2 && d@[0]@ == "virtio_hdv=trace"@ && d@[1]@
            == "hyperv_virtiofs=trace"@,
        !trace && (aperture_stats || req_stats) ==> d@.len() == 1 && d@[0]@
            == "virtio_hdv=debug"@,
        !trace && !aperture_stats && !req_stats ==> d@.len() == 0,
{
}

} // verus!
