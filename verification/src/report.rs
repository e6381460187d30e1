//! The text of what is logged: the warnings that compiling a mapping file
//! gives, and the lines of the forwarders.

use crate::mapping_rule::{MappingRuleParseError, ParseErrorView, Protocol};
use crate::text::{decimal, push_decimal};
use std::ops::RangeInclusive;
use vstd::prelude::*;
use vstd::std_specs::range::RangeInclusiveView;
use vstd::string::StringExecFns;

verus! {

/// A range of ports as a warning shows it: `first-last`.
pub open spec fn range_text(range: RangeInclusiveView<u16>) -> Seq<char> {
    decimal(range.start as nat) + "-"@ + decimal(range.end as nat)
}

/// What a warning says went wrong with a line, in words.
pub open spec fn complaint(error: ParseErrorView) -> Seq<char> {
    match error {
        ParseErrorView::Empty => Seq::<char>::empty(),
        ParseErrorView::MissingListenPort => "Missing listen port: "@,
        ParseErrorView::MissingUpstream => "Missing upstream: "@,
        ParseErrorView::MissingUpstreamPort => "Missing upstream port: "@,
        ParseErrorView::InvalidProtocol(_) => "Invalid protocol: "@,
        ParseErrorView::InvalidListenPort(_) => "Invalid listen port: "@,
        ParseErrorView::InvalidListenPortRange(_) => "Invalid listen port range: "@,
        ParseErrorView::InvalidUpstream(_) => "Invalid upstream: "@,
        ParseErrorView::InvalidUpstreamPort(_) => "Invalid upstream port: "@,
        ParseErrorView::InvalidUpstreamPortRange(_) => "Invalid upstream port range: "@,
        ParseErrorView::UnmatchedPortRange(_, _) => "Unmatched port range: "@,
    }
}

/// The part of the line that a warning quotes, where it quotes one.
pub open spec fn quoted(error: ParseErrorView) -> Option<Seq<char>> {
    match error {
        ParseErrorView::Empty => None,
        ParseErrorView::MissingListenPort => None,
        ParseErrorView::MissingUpstream => None,
        ParseErrorView::MissingUpstreamPort => None,
        ParseErrorView::InvalidProtocol(word) => Some(word),
        ParseErrorView::InvalidListenPort(token) => Some(token),
        ParseErrorView::InvalidListenPortRange(token) => Some(token),
        ParseErrorView::InvalidUpstream(token) => Some(token),
        ParseErrorView::InvalidUpstreamPort(token) => Some(token),
        ParseErrorView::InvalidUpstreamPortRange(token) => Some(token),
        ParseErrorView::UnmatchedPortRange(listen, upstream) => Some(
            range_text(listen) + " -> "@ + range_text(upstream),
        ),
    }
}

/// The warning for a line that was refused: the complaint, what it quotes
/// from the line, and the line. An empty line gives no warning.
pub open spec fn parse_warning(error: ParseErrorView, line: Seq<char>) -> Option<Seq<char>> {
    if error is Empty {
        None
    } else {
        Some(
            "[warning][parse] "@ + complaint(error) + match quoted(error) {
                Some(part) => part + " in "@,
                None => Seq::<char>::empty(),
            } + line,
        )
    }
}

/// The tag of a protocol in a log line.
pub open spec fn protocol_tag(protocol: Protocol) -> Seq<char> {
    match protocol {
        Protocol::Tcp => "[tcp]"@,
        Protocol::Udp => "[udp]"@,
    }
}

/// The warning for an entry that a later line replaces.
pub open spec fn overwrite_warning(key: (Protocol, u16)) -> Seq<char> {
    "[warning]"@ + protocol_tag(key.0) + " Port "@ + decimal(key.1 as nat)
        + " will be overwritten"@
}

/// Appends a range of ports to `out`, as `first-last`. The bounds of a range
/// that has been iterated to its end are not known.
fn push_range(out: &mut String, range: &RangeInclusive<u16>)
    ensures
        !range@.exhausted ==> final(out)@ == old(out)@ + range_text(range@),
{
    push_decimal(out, *range.start() as u64);
    out.append("-");
    push_decimal(out, *range.end() as u64);
    assert(!range@.exhausted ==> out@ =~= old(out)@ + range_text(range@));
}

impl<'a> MappingRuleParseError<'a> {
    /// The words of the complaint.
    fn complaint(&self) -> (words: &'static str)
        ensures
            words@ == complaint(self@),
    {
        match self {
            MappingRuleParseError::Empty => {
                proof {
                    reveal_strlit("");
                }
                assert(""@ =~= Seq::<char>::empty());
                ""
            },
            MappingRuleParseError::MissingListenPort => "Missing listen port: ",
            MappingRuleParseError::MissingUpstream => "Missing upstream: ",
            MappingRuleParseError::MissingUpstreamPort => "Missing upstream port: ",
            MappingRuleParseError::InvalidProtocol(_) => "Invalid protocol: ",
            MappingRuleParseError::InvalidListenPort(_) => "Invalid listen port: ",
            MappingRuleParseError::InvalidListenPortRange(_) => "Invalid listen port range: ",
            MappingRuleParseError::InvalidUpstream(_) => "Invalid upstream: ",
            MappingRuleParseError::InvalidUpstreamPort(_) => "Invalid upstream port: ",
            MappingRuleParseError::InvalidUpstreamPortRange(_) => "Invalid upstream port range: ",
            MappingRuleParseError::UnmatchedPortRange(_, _) => "Unmatched port range: ",
        }
    }

    /// The warning to log for `line`, which was refused with this error, or
    /// nothing where the line was empty. Where the error holds a range that
    /// has been iterated, the warning's text is not known.
    pub fn warning(&self, line: &str) -> (text: Option<String>)
        ensures
            text is None <==> self is Empty,
            self.fresh() ==> option_view(text) == parse_warning(self@, line@),
    {
        if let MappingRuleParseError::Empty = self {
            return None;
        }
        let mut text = String::from_str("[warning][parse] ");
        text.append(self.complaint());
        let ghost head = text@;
        match self {
            MappingRuleParseError::InvalidProtocol(word) => {
                text.append(word.as_str());
                text.append(" in ");
            },
            MappingRuleParseError::InvalidListenPort(token)
            | MappingRuleParseError::InvalidListenPortRange(token)
            | MappingRuleParseError::InvalidUpstream(token)
            | MappingRuleParseError::InvalidUpstreamPort(token)
            | MappingRuleParseError::InvalidUpstreamPortRange(token) => {
                text.append(token);
                text.append(" in ");
            },
            MappingRuleParseError::UnmatchedPortRange(listen, upstream) => {
                push_range(&mut text, listen);
                text.append(" -> ");
                push_range(&mut text, upstream);
                text.append(" in ");
                assert(self.fresh() ==> text@ =~= head + (range_text(listen@) + " -> "@
                    + range_text(upstream@) + " in "@));
            },
            _ => {
                assert(text@ =~= head + Seq::<char>::empty());
            },
        }
        text.append(line);
        assert(self.fresh() ==> Some(text@) =~= parse_warning(self@, line@));
        Some(text)
    }
}

/// The value of a text that may be missing.
pub open spec fn option_view(text: Option<String>) -> Option<Seq<char>> {
    match text {
        Some(text) => Some(text@),
        None => None,
    }
}

/// The warning to log for an entry that a later line replaces.
pub fn overwrite_warning_text(protocol: Protocol, port: u16) -> (text: String)
    ensures
        text@ == overwrite_warning((protocol, port)),
{
    let mut text = String::from_str("[warning]");
    match protocol {
        Protocol::Tcp => text.append("[tcp]"),
        Protocol::Udp => text.append("[udp]"),
    }
    text.append(" Port ");
    push_decimal(&mut text, port as u64);
    text.append(" will be overwritten");
    text
}

/// How much a log line matters: information goes to standard output,
/// warnings to standard error.
#[derive(Clone, Copy, Debug, PartialEq, Eq, Structural)]
pub enum Level {
    Info,
    Warning,
}

/// A line to log.
#[derive(Debug)]
pub struct LogLine {
    pub level: Level,
    pub text: String,
}

/// The tag of a level in a log line.
pub open spec fn level_tag(level: Level) -> Seq<char> {
    match level {
        Level::Info => "[info]"@,
        Level::Warning => "[warning]"@,
    }
}

/// The name of a rule in a log line: `listen->upstream`.
pub open spec fn rule_label(listen: Seq<char>, upstream: Seq<char>) -> Seq<char> {
    listen + "->"@ + upstream
}

/// The text of a forwarder's log line: the tags of the level and the
/// protocol, the rule in brackets, and the message.
pub open spec fn log_text(
    level: Level,
    protocol: Protocol,
    listen: Seq<char>,
    upstream: Seq<char>,
    message: Seq<char>,
) -> Seq<char> {
    level_tag(level) + protocol_tag(protocol) + "["@ + rule_label(listen, upstream) + "] "@
        + message
}

/// Writes the name of a rule.
pub fn label(listen: &str, upstream: &str) -> (text: String)
    ensures
        text@ == rule_label(listen@, upstream@),
{
    let mut text = String::from_str(listen);
    text.append("->");
    text.append(upstream);
    text
}

/// Writes a forwarder's log line.
pub fn log_line(level: Level, protocol: Protocol, listen: &str, upstream: &str, message: &str) -> (line:
    LogLine)
    ensures
        line.level == level,
        line.text@ == log_text(level, protocol, listen@, upstream@, message@),
{
    let mut text = String::from_str(
        match level {
            Level::Info => "[info]",
            Level::Warning => "[warning]",
        },
    );
    text.append(
        match protocol {
            Protocol::Tcp => "[tcp]",
            Protocol::Udp => "[udp]",
        },
    );
    text.append("[");
    let ghost head = text@;
    text.append(listen);
    text.append("->");
    text.append(upstream);
    assert(text@ =~= head + rule_label(listen@, upstream@));
    text.append("] ");
    text.append(message);
    LogLine { level, text }
}

} // verus!
