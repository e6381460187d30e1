//! Mapping rules: the grammar of one line, and the rule it denotes.
//!
//! A line reads `<proto> <listen> <upstream>`, where `<proto>` is `tcp`, `udp`
//! or `t+u` in any case, `<listen>` is a port or a range `lo-hi`, and
//! `<upstream>` is `[host]:port` or `[host]:lo-hi`. A `#` starts a comment.

use crate::report::{label, rule_label};
use crate::text::{
    find_first, first_in, lemma_first_in, lemma_first_in_bounds, parse_u16, parse_u16_in, to_chars,
    CharClass,
};
use std::ops::RangeInclusive;
use vstd::prelude::*;
use vstd::std_specs::range::RangeInclusiveView;

verus! {

/// The protocol word of a line.
#[derive(Debug, Clone, Copy, PartialEq, Eq, Structural)]
pub enum ProtocolRaw {
    /// `tcp`
    Tcp,
    /// `udp`
    Udp,
    /// `t+u`: both.
    TcpUdp,
}

/// The protocol of one forwarding entry.
#[derive(Debug, Clone, Copy, PartialEq, Eq, Hash, Structural)]
pub enum Protocol {
    Tcp,
    Udp,
}

/// What one line denotes: a protocol word, a range of listen ports, and the
/// upstream host with a range of ports of the same length.
#[derive(Debug)]
pub struct MappingRuleRaw<'a> {
    pub protocol: ProtocolRaw,
    pub listen_port: RangeInclusive<u16>,
    pub upstream_host: &'a str,
    pub upstream_port: RangeInclusive<u16>,
}

/// One forwarding entry: a protocol, the address listened on and the address
/// forwarded to.
#[derive(Debug)]
pub struct MappingRule {
    pub protocol: Protocol,
    pub listen: String,
    pub upstream: String,
}

/// Why a line denotes no rule.
#[derive(Debug)]
pub enum MappingRuleParseError<'a> {
    /// The line holds no token.
    Empty,
    /// The line ends after the protocol word.
    MissingListenPort,
    /// The line ends after the listen token.
    MissingUpstream,
    /// The upstream token holds no `:`.
    MissingUpstreamPort,
    /// The first token, here in lower case, is no protocol word.
    InvalidProtocol(String),
    /// An end of the listen token is no port number.
    InvalidListenPort(&'a str),
    /// The listen token is a range that runs downwards.
    InvalidListenPortRange(&'a str),
    /// The upstream token cannot be read at all. No line gives this error:
    /// every token has a part before its first `:`, if an empty one.
    InvalidUpstream(&'a str),
    /// An end of the port part of the upstream token is no port number.
    InvalidUpstreamPort(&'a str),
    /// The port part of the upstream token is a range that runs downwards.
    InvalidUpstreamPortRange(&'a str),
    /// The listen ports and the upstream ports differ in number.
    UnmatchedPortRange(RangeInclusive<u16>, RangeInclusive<u16>),
}

/// The mathematical value of a `MappingRuleRaw`.
pub struct RawRuleView {
    pub protocol: ProtocolRaw,
    pub listen_port: RangeInclusiveView<u16>,
    pub upstream_host: Seq<char>,
    pub upstream_port: RangeInclusiveView<u16>,
}

/// The mathematical value of a `MappingRule`.
pub struct RuleView {
    pub protocol: Protocol,
    pub listen: Seq<char>,
    pub upstream: Seq<char>,
}

/// The mathematical value of a `MappingRuleParseError`.
pub enum ParseErrorView {
    Empty,
    MissingListenPort,
    MissingUpstream,
    MissingUpstreamPort,
    InvalidProtocol(Seq<char>),
    InvalidListenPort(Seq<char>),
    InvalidListenPortRange(Seq<char>),
    InvalidUpstream(Seq<char>),
    InvalidUpstreamPort(Seq<char>),
    InvalidUpstreamPortRange(Seq<char>),
    UnmatchedPortRange(RangeInclusiveView<u16>, RangeInclusiveView<u16>),
}

impl<'a> View for MappingRuleRaw<'a> {
    type V = RawRuleView;

    open spec fn view(&self) -> RawRuleView {
        RawRuleView {
            protocol: self.protocol,
            listen_port: self.listen_port@,
            upstream_host: self.upstream_host@,
            upstream_port: self.upstream_port@,
        }
    }
}

impl View for MappingRule {
    type V = RuleView;

    open spec fn view(&self) -> RuleView {
        RuleView { protocol: self.protocol, listen: self.listen@, upstream: self.upstream@ }
    }
}

impl<'a> View for MappingRuleParseError<'a> {
    type V = ParseErrorView;

    open spec fn view(&self) -> ParseErrorView {
        match self {
            MappingRuleParseError::Empty => ParseErrorView::Empty,
            MappingRuleParseError::MissingListenPort => ParseErrorView::MissingListenPort,
            MappingRuleParseError::MissingUpstream => ParseErrorView::MissingUpstream,
            MappingRuleParseError::MissingUpstreamPort => ParseErrorView::MissingUpstreamPort,
            MappingRuleParseError::InvalidProtocol(s) => ParseErrorView::InvalidProtocol(s@),
            MappingRuleParseError::InvalidListenPort(s) => ParseErrorView::InvalidListenPort(s@),
            MappingRuleParseError::InvalidListenPortRange(s) => ParseErrorView::InvalidListenPortRange(
                s@,
            ),
            MappingRuleParseError::InvalidUpstream(s) => ParseErrorView::InvalidUpstream(s@),
            MappingRuleParseError::InvalidUpstreamPort(s) => ParseErrorView::InvalidUpstreamPort(
                s@,
            ),
            MappingRuleParseError::InvalidUpstreamPortRange(s) => {
                ParseErrorView::InvalidUpstreamPortRange(s@)
            },
            MappingRuleParseError::UnmatchedPortRange(l, u) => ParseErrorView::UnmatchedPortRange(
                l@,
                u@,
            ),
        }
    }
}

/// `RangeInclusive::start`: the lower bound, as long as the range has not
/// been iterated to its end.
pub assume_specification<Idx>[ RangeInclusive::<Idx>::start ](range: &RangeInclusive<Idx>) -> (start:
    &Idx)
    ensures
        !range@.exhausted ==> *start == range@.start,
;

/// `RangeInclusive::end`: the upper bound, as long as the range has not been
/// iterated to its end.
pub assume_specification<Idx>[ RangeInclusive::<Idx>::end ](range: &RangeInclusive<Idx>) -> (end:
    &Idx)
    ensures
        !range@.exhausted ==> *end == range@.end,
;

/// The inclusive range of ports from `first` to `last`, not yet iterated.
pub open spec fn span(first: u16, last: u16) -> RangeInclusiveView<u16> {
    RangeInclusiveView { start: first, end: last, exhausted: false }
}

impl RawRuleView {
    /// The invariant of a rule: both ranges run upwards and are equally
    /// long, and the host is named.
    pub open spec fn wf(self) -> bool {
        &&& !self.listen_port.exhausted
        &&& !self.upstream_port.exhausted
        &&& self.listen_port.start <= self.listen_port.end
        &&& self.upstream_port.start <= self.upstream_port.end
        &&& self.listen_port.end - self.listen_port.start == self.upstream_port.end
            - self.upstream_port.start
        &&& self.upstream_host.len() > 0
    }
}

impl<'a> MappingRuleParseError<'a> {
    /// Whether the ranges that the error holds, if any, are as they were
    /// made: none has been iterated.
    pub open spec fn fresh(&self) -> bool {
        match self {
            MappingRuleParseError::UnmatchedPortRange(listen, upstream) => !listen@.exhausted
                && !upstream@.exhausted,
            _ => true,
        }
    }
}

/// A token and the text that follows it.
pub struct Split {
    pub token: Seq<char>,
    pub rest: Seq<char>,
}

/// The first token of `s` and what follows it: a token is a longest run of
/// characters that are not white space.
pub open spec fn next_token(s: Seq<char>) -> Option<Split> {
    let t = s.skip(first_in(s, CharClass::NonSpace));
    if t.len() == 0 {
        None
    } else {
        let n = first_in(t, CharClass::Space);
        Some(Split { token: t.take(n), rest: t.skip(n) })
    }
}

/// `c` in lower case, where `c` is an ASCII letter, and `c` itself otherwise.
pub open spec fn ascii_lower(c: char) -> char {
    if 'A' <= c <= 'Z' {
        ((c as u8) + 32) as char
    } else {
        c
    }
}

/// The word that stands for a protocol.
pub open spec fn keyword(protocol: ProtocolRaw) -> Seq<char> {
    match protocol {
        ProtocolRaw::Tcp => seq!['t', 'c', 'p'],
        ProtocolRaw::Udp => seq!['u', 'd', 'p'],
        ProtocolRaw::TcpUdp => seq!['t', '+', 'u'],
    }
}

/// Whether `token` is the word of `protocol`, letters taken in either case.
pub open spec fn is_keyword(token: Seq<char>, protocol: ProtocolRaw) -> bool {
    &&& token.len() == 3
    &&& ascii_lower(token[0]) == keyword(protocol)[0]
    &&& ascii_lower(token[1]) == keyword(protocol)[1]
    &&& ascii_lower(token[2]) == keyword(protocol)[2]
}

/// The protocol that `token` names, if any.
pub open spec fn protocol_of(token: Seq<char>) -> Option<ProtocolRaw> {
    if is_keyword(token, ProtocolRaw::Udp) {
        Some(ProtocolRaw::Udp)
    } else if is_keyword(token, ProtocolRaw::Tcp) {
        Some(ProtocolRaw::Tcp)
    } else if is_keyword(token, ProtocolRaw::TcpUdp) {
        Some(ProtocolRaw::TcpUdp)
    } else {
        None
    }
}

/// Why a port or a range of ports is refused.
pub enum PortsError {
    /// An end of the range is no port number.
    Malformed,
    /// The range runs downwards.
    Reversed,
}

/// The ports that `s` denotes: one port, or two joined by the first `-`.
pub open spec fn parse_ports(s: Seq<char>) -> Result<(u16, u16), PortsError> {
    let dash = first_in(s, CharClass::Is('-'));
    let first = parse_u16(s.take(dash));
    let last = if dash < s.len() {
        parse_u16(s.skip(dash + 1))
    } else {
        first
    };
    if first is Some && last is Some {
        if first->0 > last->0 {
            Err(PortsError::Reversed)
        } else {
            Ok((first->0, last->0))
        }
    } else {
        Err(PortsError::Malformed)
    }
}

/// The host that is meant where none is written.
pub open spec fn default_host() -> Seq<char> {
    seq!['l', 'o', 'c', 'a', 'l', 'h', 'o', 's', 't']
}

/// `text` in lower case, as `str::to_lowercase` gives it.
pub uninterp spec fn lowercase(text: Seq<char>) -> Seq<char>;

/// What a line without its comment denotes.
pub open spec fn parse_tokens(body: Seq<char>) -> Result<RawRuleView, ParseErrorView> {
    let t0 = next_token(body);
    if t0 is None {
        Err(ParseErrorView::Empty)
    } else if protocol_of(t0->0.token) is None {
        Err(ParseErrorView::InvalidProtocol(lowercase(t0->0.token)))
    } else {
        let t1 = next_token(t0->0.rest);
        if t1 is None {
            Err(ParseErrorView::MissingListenPort)
        } else {
            let t2 = next_token(t1->0.rest);
            if t2 is None {
                Err(ParseErrorView::MissingUpstream)
            } else {
                parse_fields(protocol_of(t0->0.token)->0, t1->0.token, t2->0.token)
            }
        }
    }
}

/// What the three tokens of a line denote, the first being known already.
pub open spec fn parse_fields(protocol: ProtocolRaw, listen: Seq<char>, upstream: Seq<char>)
    -> Result<RawRuleView, ParseErrorView> {
    let colon = first_in(upstream, CharClass::Is(':'));
    match parse_ports(listen) {
        Err(PortsError::Malformed) => Err(ParseErrorView::InvalidListenPort(listen)),
        Err(PortsError::Reversed) => Err(ParseErrorView::InvalidListenPortRange(listen)),
        Ok(l) => if colon >= upstream.len() {
            Err(ParseErrorView::MissingUpstreamPort)
        } else {
            match parse_ports(upstream.skip(colon + 1)) {
                Err(PortsError::Malformed) => Err(ParseErrorView::InvalidUpstreamPort(upstream)),
                Err(PortsError::Reversed) => Err(
                    ParseErrorView::InvalidUpstreamPortRange(upstream),
                ),
                Ok(u) => if u.1 - u.0 != l.1 - l.0 {
                    Err(ParseErrorView::UnmatchedPortRange(span(l.0, l.1), span(u.0, u.1)))
                } else {
                    Ok(
                        RawRuleView {
                            protocol,
                            listen_port: span(l.0, l.1),
                            upstream_host: if colon == 0 {
                                default_host()
                            } else {
                                upstream.take(colon)
                            },
                            upstream_port: span(u.0, u.1),
                        },
                    )
                },
            }
        },
    }
}

/// What a line denotes: the rule, or why there is none. The first `#` and
/// all that follows it are a comment.
pub open spec fn parse_line(line: Seq<char>) -> Result<RawRuleView, ParseErrorView> {
    parse_tokens(line.take(first_in(line, CharClass::Is('#'))))
}

/// A line that denotes a rule denotes one that meets the invariant of rules.
pub proof fn lemma_parse_wf(line: Seq<char>)
    ensures
        parse_line(line) matches Ok(rule) ==> rule.wf(),
{
    let body = line.take(first_in(line, CharClass::Is('#')));
    let t0 = next_token(body);
    if t0 is Some {
        let t1 = next_token(t0->0.rest);
        if t1 is Some {
            let t2 = next_token(t1->0.rest);
            if t2 is Some {
                lemma_first_in_bounds(t2->0.token, CharClass::Is(':'));
            }
        }
    }
}

/// A comment changes nothing: a line followed by `#` and any text denotes
/// what the line alone denotes.
pub proof fn lemma_comment_ignored(line: Seq<char>, comment: Seq<char>)
    ensures
        parse_line(line + seq!['#'] + comment) == parse_line(line),
{
    let hash = CharClass::Is('#');
    let whole = line + seq!['#'] + comment;
    let at = first_in(line, hash);
    lemma_first_in_bounds(line, hash);
    assert forall|k: int| 0 <= k < at implies !hash.holds(#[trigger] whole[k]) by {
        assert(whole[k] == line[k]);
    }
    if at < line.len() {
        assert(whole[at] == line[at]);
    }
    lemma_first_in(whole, hash, at);
    assert(whole.take(at) == line.take(at));
}

/// The protocol word is read without regard to the case of its letters: two
/// tokens that differ in that alone name the same protocol, or both none.
pub proof fn lemma_protocol_ignores_case(a: Seq<char>, b: Seq<char>)
    requires
        a.len() == b.len(),
        forall|i: int| 0 <= i < a.len() ==> ascii_lower(#[trigger] a[i]) == ascii_lower(b[i]),
    ensures
        protocol_of(a) == protocol_of(b),
{
    if a.len() == 3 {
        assert(ascii_lower(a[0]) == ascii_lower(b[0]));
        assert(ascii_lower(a[1]) == ascii_lower(b[1]));
        assert(ascii_lower(a[2]) == ascii_lower(b[2]));
    }
}

/// `str::to_lowercase`: the text with every character in lower case, as
/// Unicode maps it.
#[verifier::external_body]
fn to_lowercase(text: &str) -> (lower: String)
    ensures
        lower@ == lowercase(text@),
{
    text.to_lowercase()
}

/// Computes `ascii_lower`.
fn char_lower(c: char) -> (r: char)
    ensures
        r == ascii_lower(c),
{
    if 'A' <= c && c <= 'Z' {
        ((c as u8) + 32) as char
    } else {
        c
    }
}

/// Finds the first token in `chars[from..to]`: the bounds of the token, where
/// there is one.
fn token_in(chars: &Vec<char>, from: usize, to: usize) -> (r: Option<(usize, usize)>)
    requires
        from <= to <= chars.len(),
    ensures
        match r {
            None => next_token(chars@.subrange(from as int, to as int)) is None,
            Some((a, b)) => from <= a < b <= to && next_token(
                chars@.subrange(from as int, to as int),
            ) == Some(
                Split {
                    token: chars@.subrange(a as int, b as int),
                    rest: chars@.subrange(b as int, to as int),
                },
            ),
        },
{
    let ghost s = chars@.subrange(from as int, to as int);
    let a = find_first(chars, from, to, CharClass::NonSpace);
    assert(s.skip(a - from) == chars@.subrange(a as int, to as int));
    if a == to {
        None
    } else {
        let b = find_first(chars, a, to, CharClass::Space);
        proof {
            let t = chars@.subrange(a as int, to as int);
            lemma_first_in_bounds(s, CharClass::NonSpace);
            lemma_first_in_bounds(t, CharClass::Space);
            assert(t[0] == s[a - from]);
            assert(t.take(b - a) == chars@.subrange(a as int, b as int));
            assert(t.skip(b - a) == chars@.subrange(b as int, to as int));
        }
        Some((a, b))
    }
}

/// Reads `chars[from..to]` as the word of a protocol.
fn protocol_in(chars: &Vec<char>, from: usize, to: usize) -> (r: Option<ProtocolRaw>)
    requires
        from <= to <= chars.len(),
    ensures
        r == protocol_of(chars@.subrange(from as int, to as int)),
{
    if to - from != 3 {
        return None;
    }
    let ghost token = chars@.subrange(from as int, to as int);
    let first = char_lower(chars[from]);
    let second = char_lower(chars[from + 1]);
    let third = char_lower(chars[from + 2]);
    assert(token[0] == chars@[from as int] && token[1] == chars@[from + 1] && token[2]
        == chars@[from + 2]);
    if first == 'u' && second == 'd' && third == 'p' {
        Some(ProtocolRaw::Udp)
    } else if first == 't' && second == 'c' && third == 'p' {
        Some(ProtocolRaw::Tcp)
    } else if first == 't' && second == '+' && third == 'u' {
        Some(ProtocolRaw::TcpUdp)
    } else {
        None
    }
}

/// Reads `chars[from..to]` as a port or a range of ports.
fn ports_in(chars: &Vec<char>, from: usize, to: usize) -> (r: Result<(u16, u16), PortsError>)
    requires
        from <= to <= chars.len(),
    ensures
        r == parse_ports(chars@.subrange(from as int, to as int)),
{
    let ghost s = chars@.subrange(from as int, to as int);
    let dash = find_first(chars, from, to, CharClass::Is('-'));
    assert(s.take(dash - from) == chars@.subrange(from as int, dash as int));
    let first = parse_u16_in(chars, from, dash);
    let last = if dash < to {
        assert(s.skip(dash - from + 1) == chars@.subrange(dash + 1, to as int));
        parse_u16_in(chars, dash + 1, to)
    } else {
        first
    };
    match (first, last) {
        (Some(a), Some(b)) => if a > b {
            Err(PortsError::Reversed)
        } else {
            Ok((a, b))
        },
        _ => Err(PortsError::Malformed),
    }
}

/// Reads the listen token `chars[a1..b1]` and the upstream token
/// `chars[a2..b2]` of `line`.
fn fields_in<'a>(
    line: &'a str,
    chars: &Vec<char>,
    protocol: ProtocolRaw,
    a1: usize,
    b1: usize,
    a2: usize,
    b2: usize,
) -> (r: Result<MappingRuleRaw<'a>, MappingRuleParseError<'a>>)
    requires
        chars@ == line@,
        a1 <= b1 <= chars.len(),
        a2 <= b2 <= chars.len(),
    ensures
        result_view(r) == parse_fields(
            protocol,
            line@.subrange(a1 as int, b1 as int),
            line@.subrange(a2 as int, b2 as int),
        ),
{
    let listen = line.substring_char(a1, b1);
    let upstream = line.substring_char(a2, b2);
    let (l0, l1) = match ports_in(chars, a1, b1) {
        Err(PortsError::Malformed) => {
            return Err(MappingRuleParseError::InvalidListenPort(listen));
        },
        Err(PortsError::Reversed) => {
            return Err(MappingRuleParseError::InvalidListenPortRange(listen));
        },
        Ok(ports) => ports,
    };
    let colon = find_first(chars, a2, b2, CharClass::Is(':'));
    if colon == b2 {
        return Err(MappingRuleParseError::MissingUpstreamPort);
    }
    assert(upstream@.skip(colon - a2 + 1) == chars@.subrange(colon + 1, b2 as int));
    let (u0, u1) = match ports_in(chars, colon + 1, b2) {
        Err(PortsError::Malformed) => {
            return Err(MappingRuleParseError::InvalidUpstreamPort(upstream));
        },
        Err(PortsError::Reversed) => {
            return Err(MappingRuleParseError::InvalidUpstreamPortRange(upstream));
        },
        Ok(ports) => ports,
    };
    if u1 - u0 != l1 - l0 {
        return Err(
            MappingRuleParseError::UnmatchedPortRange(
                RangeInclusive::new(l0, l1),
                RangeInclusive::new(u0, u1),
            ),
        );
    }
    let upstream_host = if colon == a2 {
        proof {
            reveal_strlit("localhost");
        }
        assert("localhost"@ =~= default_host());
        "localhost"
    } else {
        assert(upstream@.take(colon - a2) == line@.subrange(a2 as int, colon as int));
        line.substring_char(a2, colon)
    };
    Ok(
        MappingRuleRaw {
            protocol,
            listen_port: RangeInclusive::new(l0, l1),
            upstream_host,
            upstream_port: RangeInclusive::new(u0, u1),
        },
    )
}

/// The mathematical value of what `parse` returns.
pub open spec fn result_view<'a>(
    r: Result<MappingRuleRaw<'a>, MappingRuleParseError<'a>>,
) -> Result<RawRuleView, ParseErrorView> {
    match r {
        Ok(rule) => Ok(rule@),
        Err(e) => Err(e@),
    }
}

impl MappingRule {
    /// The name of the rule in log lines: `listen->upstream`.
    pub fn label(&self) -> (text: String)
        ensures
            text@ == rule_label(self.listen@, self.upstream@),
    {
        label(self.listen.as_str(), self.upstream.as_str())
    }
}

impl<'a> MappingRuleRaw<'a> {
    /// Reads one line. The result is the rule that `parse_line` gives for the
    /// line's characters, or the error that it gives.
    pub fn parse(line: &'a str) -> (r: Result<Self, MappingRuleParseError<'a>>)
        ensures
            result_view(r) == parse_line(line@),
            r matches Ok(rule) ==> rule@.wf(),
            r matches Err(error) ==> error.fresh(),
    {
        proof {
            lemma_parse_wf(line@);
        }
        let chars = to_chars(line);
        let end = find_first(&chars, 0, chars.len(), CharClass::Is('#'));
        assert(chars@.subrange(0, chars.len() as int) == line@);
        assert(line@.take(end as int) == chars@.subrange(0, end as int));
        let (a0, b0) = match token_in(&chars, 0, end) {
            None => {
                return Err(MappingRuleParseError::Empty);
            },
            Some(bounds) => bounds,
        };
        let protocol = match protocol_in(&chars, a0, b0) {
            None => {
                let word = to_lowercase(line.substring_char(a0, b0));
                return Err(MappingRuleParseError::InvalidProtocol(word));
            },
            Some(protocol) => protocol,
        };
        let (a1, b1) = match token_in(&chars, b0, end) {
            None => {
                return Err(MappingRuleParseError::MissingListenPort);
            },
            Some(bounds) => bounds,
        };
        let (a2, b2) = match token_in(&chars, b1, end) {
            None => {
                return Err(MappingRuleParseError::MissingUpstream);
            },
            Some(bounds) => bounds,
        };
        fields_in(line, &chars, protocol, a1, b1, a2, b2)
    }
}

} // verus!
