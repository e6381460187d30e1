//! Writing an entry of the table back as a line, and reading that line
//! again.

use crate::mapping_rule::{
    default_host, keyword, next_token, parse_fields, parse_line, parse_ports, parse_tokens,
    protocol_of, span, ParseErrorView, PortsError, Protocol, ProtocolRaw, RawRuleView, Split,
};
use crate::rule_table::{compile, expand, step, EntryKey, Target};
use crate::text::{
    decimal, first_in, is_digit, is_space, lemma_decimal, lemma_first_in, lemma_first_in_bounds,
    lemma_parse_decimal, push_decimal, trimmed, CharClass,
};
use vstd::prelude::*;
use vstd::string::StringExecFns;

verus! {

/// The protocol word that covers one protocol and no other.
pub open spec fn word_of(protocol: Protocol) -> ProtocolRaw {
    match protocol {
        Protocol::Tcp => ProtocolRaw::Tcp,
        Protocol::Udp => ProtocolRaw::Udp,
    }
}

/// The line that makes one entry: the protocol's word, the listen port, and
/// the upstream as `host:port`, with one blank between them.
pub open spec fn emit(key: EntryKey, target: Target) -> Seq<char> {
    keyword(word_of(key.0)) + seq![' '] + decimal(key.1 as nat) + seq![' '] + target.0 + seq![':']
        + decimal(target.1 as nat)
}

/// Writes the line that makes one entry. With a host that can stand in a
/// line, the line denotes the rule for that entry.
pub fn emit_line(protocol: Protocol, port: u16, host: &str, upstream_port: u16) -> (line: String)
    ensures
        line@ == emit((protocol, port), (host@, upstream_port)),
        is_host(host@) ==> parse_line(line@) == Ok::<RawRuleView, ParseErrorView>(
            single((protocol, port), (host@, upstream_port)),
        ),
{
    proof {
        if is_host(host@) {
            lemma_emit_parses((protocol, port), (host@, upstream_port));
        }
        reveal_strlit("tcp");
        reveal_strlit("udp");
        reveal_strlit(" ");
        reveal_strlit(":");
    }
    let mut line = String::from_str(
        match protocol {
            Protocol::Tcp => "tcp",
            Protocol::Udp => "udp",
        },
    );
    assert(line@ =~= keyword(word_of(protocol)));
    line.append(" ");
    push_decimal(&mut line, port as u64);
    line.append(" ");
    line.append(host);
    line.append(":");
    push_decimal(&mut line, upstream_port as u64);
    assert(line@ =~= emit((protocol, port), (host@, upstream_port)));
    line
}

/// Whether `host` can stand in a line as a host: it is not empty and holds
/// no white space, `#` or `:`.
pub open spec fn is_host(host: Seq<char>) -> bool {
    &&& host.len() > 0
    &&& forall|k: int|
        0 <= k < host.len() ==> !is_space(#[trigger] host[k]) && host[k] != '#' && host[k] != ':'
}

/// The rule for one listen port and one upstream port.
pub open spec fn single(key: EntryKey, target: Target) -> RawRuleView {
    RawRuleView {
        protocol: word_of(key.0),
        listen_port: span(key.1, key.1),
        upstream_host: target.0,
        upstream_port: span(target.1, target.1),
    }
}

/// A sequence without a character of a class is scanned to its end.
proof fn lemma_none_in(s: Seq<char>, class: CharClass)
    requires
        forall|k: int| 0 <= k < s.len() ==> !class.holds(#[trigger] s[k]),
    ensures
        first_in(s, class) == s.len(),
{
    lemma_first_in(s, class, s.len() as int);
}

/// A run of characters that are not white space, followed by white space or
/// by nothing, is the first token.
proof fn lemma_token_first(token: Seq<char>, rest: Seq<char>)
    requires
        token.len() > 0,
        forall|k: int| 0 <= k < token.len() ==> !is_space(#[trigger] token[k]),
        rest.len() == 0 || is_space(rest[0]),
    ensures
        next_token(token + rest) == Some(Split { token, rest }),
{
    let s = token + rest;
    assert(s[0] == token[0]);
    lemma_first_in(s, CharClass::NonSpace, 0);
    assert(s.skip(0) == s);
    assert forall|k: int| 0 <= k < token.len() implies !CharClass::Space.holds(
        #[trigger] s[k],
    ) by {
        assert(s[k] == token[k]);
    }
    if rest.len() > 0 {
        assert(s[token.len() as int] == rest[0]);
    }
    lemma_first_in(s, CharClass::Space, token.len() as int);
    assert(s.take(token.len() as int) == token);
    assert(s.skip(token.len() as int) == rest);
}

/// A blank before the first token changes nothing.
proof fn lemma_token_after_blank(s: Seq<char>)
    ensures
        next_token(seq![' '] + s) == next_token(s),
{
    let blank = seq![' '] + s;
    assert(blank.skip(1) == s);
    lemma_first_in_bounds(s, CharClass::NonSpace);
    let at = first_in(s, CharClass::NonSpace);
    assert(first_in(blank, CharClass::NonSpace) == 1 + at);
    assert(blank.skip(1 + at) == s.skip(at));
}

/// The tokens of a sequence hold what the sequence holds: none is empty or
/// holds white space, and a character that the sequence lacks is in no
/// token and not in what follows it.
proof fn lemma_token_within(s: Seq<char>, c: char)
    requires
        forall|k: int| 0 <= k < s.len() ==> #[trigger] s[k] != c,
    ensures
        next_token(s) matches Some(split) ==> {
            &&& split.token.len() > 0
            &&& forall|k: int| 0 <= k < split.token.len() ==> !is_space(#[trigger] split.token[k])
            &&& forall|k: int| 0 <= k < split.token.len() ==> #[trigger] split.token[k] != c
            &&& forall|k: int| 0 <= k < split.rest.len() ==> #[trigger] split.rest[k] != c
        },
{
    lemma_first_in_bounds(s, CharClass::NonSpace);
    let t = s.skip(first_in(s, CharClass::NonSpace));
    if t.len() > 0 {
        lemma_first_in_bounds(t, CharClass::Space);
        let n = first_in(t, CharClass::Space);
        assert(t[0] == s[first_in(s, CharClass::NonSpace)]);
        assert forall|k: int| 0 <= k < t.take(n).len() implies !is_space(
            #[trigger] t.take(n)[k],
        ) by {
            assert(!CharClass::Space.holds(t[k]));
        }
    }
}

/// The host of a rule that a line denotes can stand in a line as a host.
pub proof fn lemma_parsed_host(line: Seq<char>)
    ensures
        parse_line(line) matches Ok(rule) ==> is_host(rule.upstream_host),
{
    let hash = CharClass::Is('#');
    lemma_first_in_bounds(line, hash);
    let body = line.take(first_in(line, hash));
    assert forall|k: int| 0 <= k < body.len() implies #[trigger] body[k] != '#' by {
        assert(!hash.holds(line[k]));
    }
    lemma_token_within(body, '#');
    let t0 = next_token(body);
    if t0 is Some {
        lemma_token_within(t0->0.rest, '#');
        let t1 = next_token(t0->0.rest);
        if t1 is Some {
            lemma_token_within(t1->0.rest, '#');
            let t2 = next_token(t1->0.rest);
            if t2 is Some {
                let upstream = t2->0.token;
                let colon = CharClass::Is(':');
                lemma_first_in_bounds(upstream, colon);
                let at = first_in(upstream, colon);
                assert forall|k: int| 0 <= k < at implies !is_space(
                    #[trigger] upstream.take(at)[k],
                ) && upstream.take(at)[k] != '#' && upstream.take(at)[k] != ':' by {
                    assert(!colon.holds(upstream[k]));
                }
                assert(is_host(default_host()));
            }
        }
    }
}

/// A line written by `emit` denotes the rule for the one entry.
pub proof fn lemma_emit_parses(key: EntryKey, target: Target)
    requires
        is_host(target.0),
    ensures
        parse_line(emit(key, target)) == Ok::<RawRuleView, ParseErrorView>(
            single(key, target),
        ),
{
    let word = keyword(word_of(key.0));
    let listen = decimal(key.1 as nat);
    let host = target.0;
    let ports = decimal(target.1 as nat);
    let upstream = host + seq![':'] + ports;
    let line = emit(key, target);
    let rest1 = seq![' '] + upstream;
    let rest0 = seq![' '] + (listen + rest1);
    lemma_decimal(key.1 as nat);
    lemma_decimal(target.1 as nat);
    lemma_parse_decimal(key.1);
    lemma_parse_decimal(target.1);
    assert(line == word + rest0);
    assert(upstream + Seq::<char>::empty() == upstream);
    // No character of the line starts a comment.
    assert forall|k: int| 0 <= k < line.len() implies !CharClass::Is('#').holds(
        #[trigger] line[k],
    ) by {
        if k < word.len() {
        } else if k < word.len() + 1 {
        } else if k < word.len() + 1 + listen.len() {
            assert(is_digit(listen[k - word.len() - 1]));
        } else if k < word.len() + 1 + listen.len() + 1 {
        } else if k < word.len() + 1 + listen.len() + 1 + host.len() {
            assert(line[k] == host[k - word.len() - 1 - listen.len() - 1]);
        } else if k < word.len() + 1 + listen.len() + 1 + host.len() + 1 {
        } else {
            assert(is_digit(ports[k - word.len() - 1 - listen.len() - 1 - host.len() - 1]));
        }
    }
    lemma_none_in(line, CharClass::Is('#'));
    assert(line.take(line.len() as int) == line);
    // The three tokens.
    lemma_token_first(word, rest0);
    assert forall|k: int| 0 <= k < listen.len() implies !is_space(#[trigger] listen[k]) by {
        assert(is_digit(listen[k]));
    }
    lemma_token_after_blank(listen + rest1);
    lemma_token_first(listen, rest1);
    assert forall|k: int| 0 <= k < upstream.len() implies !is_space(#[trigger] upstream[k]) by {
        if k < host.len() {
            assert(upstream[k] == host[k]);
        } else if k > host.len() {
            assert(is_digit(ports[k - host.len() - 1]));
        }
    }
    lemma_token_after_blank(upstream);
    lemma_token_first(upstream, Seq::<char>::empty());
    assert(protocol_of(word) == Some(word_of(key.0)));
    // The listen port.
    assert forall|k: int| 0 <= k < listen.len() implies !CharClass::Is('-').holds(
        #[trigger] listen[k],
    ) by {
        assert(is_digit(listen[k]));
    }
    lemma_none_in(listen, CharClass::Is('-'));
    assert(listen.take(listen.len() as int) == listen);
    assert(parse_ports(listen) == Ok::<(u16, u16), PortsError>(
        (key.1, key.1),
    ));
    // The upstream.
    assert forall|k: int| 0 <= k < host.len() implies !CharClass::Is(':').holds(
        #[trigger] upstream[k],
    ) by {
        assert(upstream[k] == host[k]);
    }
    assert(upstream[host.len() as int] == ':');
    lemma_first_in(upstream, CharClass::Is(':'), host.len() as int);
    assert(upstream.skip(host.len() as int + 1) == ports);
    assert(upstream.take(host.len() as int) == host);
    assert forall|k: int| 0 <= k < ports.len() implies !CharClass::Is('-').holds(
        #[trigger] ports[k],
    ) by {
        assert(is_digit(ports[k]));
    }
    lemma_none_in(ports, CharClass::Is('-'));
    assert(ports.take(ports.len() as int) == ports);
    assert(parse_ports(ports) == Ok::<(u16, u16), PortsError>(
        (target.1, target.1),
    ));
    assert(parse_fields(word_of(key.0), listen, upstream) == Ok::<
        RawRuleView,
        ParseErrorView,
    >(single(key, target)));
    assert(parse_tokens(line) == parse_fields(word_of(key.0), listen, upstream));
}

/// Reading a line, writing one of its entries back as a line and reading
/// that gives the entry again, and no other: the same protocol, listen
/// port, upstream host and upstream port.
pub proof fn lemma_round_trip(line: Seq<char>, key: EntryKey)
    requires
        parse_line(line) is Ok,
        expand(parse_line(line)->Ok_0).contains_key(key),
    ensures
        ({
            let target = expand(parse_line(line)->Ok_0)[key];
            &&& parse_line(emit(key, target)) is Ok
            &&& expand(parse_line(emit(key, target))->Ok_0) == Map::<EntryKey, Target>::empty().insert(
                key,
                target,
            )
        }),
{
    let target = expand(parse_line(line)->Ok_0)[key];
    lemma_parsed_host(line);
    lemma_emit_parses(key, target);
    assert(expand(single(key, target)) =~= Map::<EntryKey, Target>::empty().insert(key, target));
}

/// The lines that make the entries of `table` under `keys`, in the order of
/// `keys`.
pub open spec fn emit_all(table: Map<EntryKey, Target>, keys: Seq<EntryKey>) -> Seq<Seq<char>> {
    Seq::new(keys.len(), |i: int| emit(keys[i], table[keys[i]]))
}

/// Whether every host in `table` can stand in a line as a host.
pub open spec fn hosts_named(table: Map<EntryKey, Target>) -> bool {
    forall|key: EntryKey| table.contains_key(key) ==> is_host((#[trigger] table[key]).0)
}

/// A line written by `emit` has no white space at either end.
proof fn lemma_emit_trimmed(key: EntryKey, target: Target)
    ensures
        trimmed(emit(key, target)) == emit(key, target),
{
    let line = emit(key, target);
    let ports = decimal(target.1 as nat);
    lemma_decimal(target.1 as nat);
    assert(line[0] == keyword(word_of(key.0))[0]);
    lemma_first_in(line, CharClass::NonSpace, 0);
    assert(line.skip(0) == line);
    assert(line.last() == ports.last());
    assert(is_digit(ports[ports.len() - 1]));
}

/// Compiling a line written by `emit` sets the one entry and no other.
pub proof fn lemma_step_emit(table: Map<EntryKey, Target>, key: EntryKey, target: Target)
    requires
        is_host(target.0),
    ensures
        step(table, emit(key, target)) == table.insert(key, target),
{
    lemma_emit_trimmed(key, target);
    lemma_emit_parses(key, target);
    assert(table.union_prefer_right(expand(single(key, target))) =~= table.insert(key, target));
}

/// The lines written for some entries of a table compile to those entries.
proof fn lemma_compile_emitted(table: Map<EntryKey, Target>, keys: Seq<EntryKey>)
    requires
        hosts_named(table),
        forall|i: int| 0 <= i < keys.len() ==> table.contains_key(#[trigger] keys[i]),
    ensures
        compile(emit_all(table, keys)) == table.restrict(keys.to_set()),
    decreases keys.len(),
{
    let lines = emit_all(table, keys);
    if keys.len() == 0 {
        assert(table.restrict(keys.to_set()) =~= Map::<EntryKey, Target>::empty());
    } else {
        let earlier = keys.drop_last();
        let last = keys.last();
        assert(lines.drop_last() == emit_all(table, earlier));
        assert forall|i: int| 0 <= i < earlier.len() implies table.contains_key(
            #[trigger] earlier[i],
        ) by {
            assert(earlier[i] == keys[i]);
        }
        lemma_compile_emitted(table, earlier);
        assert(table.contains_key(keys[keys.len() - 1]));
        lemma_step_emit(compile(emit_all(table, earlier)), last, table[last]);
        assert(lines.last() == emit(last, table[last]));
        assert forall|key: EntryKey| keys.to_set().contains(key) <==> earlier.to_set().contains(
            key,
        ) || key == last by {
            if keys.to_set().contains(key) {
                let i = choose|i: int| 0 <= i < keys.len() && keys[i] == key;
                if i < earlier.len() {
                    assert(earlier[i] == key);
                }
            }
            if earlier.to_set().contains(key) {
                let i = choose|i: int| 0 <= i < earlier.len() && earlier[i] == key;
                assert(keys[i] == key);
            }
            if key == last {
                assert(keys[keys.len() - 1] == key);
            }
        }
        assert(table.restrict(earlier.to_set()).insert(last, table[last]) =~= table.restrict(
            keys.to_set(),
        ));
    }
}

/// Every host in a table that lines compile to can stand in a line as a
/// host.
pub proof fn lemma_compiled_hosts(lines: Seq<Seq<char>>)
    ensures
        hosts_named(compile(lines)),
    decreases lines.len(),
{
    if lines.len() > 0 {
        lemma_compiled_hosts(lines.drop_last());
        lemma_parsed_host(trimmed(lines.last()));
    }
}

/// Writing every entry of a compiled table back as a line, in any order,
/// and compiling those lines gives the table again: the same protocols,
/// listen ports, upstream hosts and upstream ports.
pub proof fn lemma_table_round_trip(lines: Seq<Seq<char>>, keys: Seq<EntryKey>)
    requires
        keys.to_set() == compile(lines).dom(),
    ensures
        compile(emit_all(compile(lines), keys)) == compile(lines),
{
    let table = compile(lines);
    lemma_compiled_hosts(lines);
    assert forall|i: int| 0 <= i < keys.len() implies table.contains_key(#[trigger] keys[i]) by {
        assert(keys.to_set().contains(keys[i]));
    }
    lemma_compile_emitted(table, keys);
    assert(table.restrict(keys.to_set()) =~= table);
}

} // verus!
