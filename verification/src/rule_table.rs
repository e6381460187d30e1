//! The table of forwarding entries that the lines of a mapping file compile
//! to: one upstream for each protocol and listen port, the later line winning.

use crate::mapping_rule::{
    lemma_parse_wf, parse_line, MappingRule, MappingRuleParseError, MappingRuleRaw, ParseErrorView,
    Protocol, ProtocolRaw, RawRuleView, RuleView,
};
use crate::report::{overwrite_warning, overwrite_warning_text, parse_warning};
use crate::text::{decimal, lemma_decimal_injective, push_decimal, trim, trimmed};
use std::collections::HashMap;
use vstd::prelude::*;
use vstd::std_specs::hash::{group_hash_axioms, spec_hash_map_iter};
use vstd::std_specs::iter::IteratorSpec;
use vstd::string::StringExecFns;

verus! {

broadcast use group_hash_axioms;

/// The key of an entry: a protocol and a listen port.
pub type EntryKey = (Protocol, u16);

/// What an entry forwards to: the upstream host and port.
pub type Target = (Seq<char>, u16);

/// The number under which the table files an entry: TCP ports first, then
/// UDP ports.
pub open spec fn slot(key: EntryKey) -> u32 {
    match key.0 {
        Protocol::Tcp => key.1 as u32,
        Protocol::Udp => (65536 + key.1) as u32,
    }
}

/// Whether a line with the protocol word `word` makes entries for `protocol`.
pub open spec fn covers(word: ProtocolRaw, protocol: Protocol) -> bool {
    match word {
        ProtocolRaw::Tcp => protocol == Protocol::Tcp,
        ProtocolRaw::Udp => protocol == Protocol::Udp,
        ProtocolRaw::TcpUdp => true,
    }
}

/// The entries that the first `count` listen ports of a rule expand to: the
/// listen port at offset `i` forwards to the upstream port at offset `i`.
pub open spec fn expand_first(rule: RawRuleView, count: int) -> Map<EntryKey, Target> {
    Map::new(
        |key: EntryKey|
            covers(rule.protocol, key.0) && rule.listen_port.start <= key.1
                < rule.listen_port.start + count,
        |key: EntryKey|
            (
                rule.upstream_host,
                (rule.upstream_port.start + (key.1 - rule.listen_port.start)) as u16,
            ),
    )
}

/// The entries that a rule expands to, one for each listen port and each
/// protocol that its word covers.
pub open spec fn expand(rule: RawRuleView) -> Map<EntryKey, Target> {
    expand_first(rule, rule.listen_port.end - rule.listen_port.start + 1)
}

/// The entries of `table` that a line for `port` with the protocol word
/// `word` replaces: TCP before UDP.
pub open spec fn collisions(table: Map<EntryKey, Target>, word: ProtocolRaw, port: u16) -> Seq<
    EntryKey,
> {
    let tcp = if covers(word, Protocol::Tcp) && table.contains_key((Protocol::Tcp, port)) {
        seq![(Protocol::Tcp, port)]
    } else {
        Seq::<EntryKey>::empty()
    };
    let udp = if covers(word, Protocol::Udp) && table.contains_key((Protocol::Udp, port)) {
        seq![(Protocol::Udp, port)]
    } else {
        Seq::<EntryKey>::empty()
    };
    tcp + udp
}

/// The entries of `table` that the first `count` listen ports of a rule
/// replace, in the order of the ports.
pub open spec fn overwrites_first(table: Map<EntryKey, Target>, rule: RawRuleView, count: nat) -> Seq<
    EntryKey,
>
    decreases count,
{
    if count == 0 {
        Seq::<EntryKey>::empty()
    } else {
        overwrites_first(table, rule, (count - 1) as nat) + collisions(
            table,
            rule.protocol,
            (rule.listen_port.start + count - 1) as u16,
        )
    }
}

/// The entries of `table` that a rule replaces, in the order of its listen
/// ports.
pub open spec fn overwrites(table: Map<EntryKey, Target>, rule: RawRuleView) -> Seq<EntryKey> {
    overwrites_first(
        table,
        rule,
        (rule.listen_port.end - rule.listen_port.start + 1) as nat,
    )
}

/// The address that stands for every local address.
pub open spec fn any_host() -> Seq<char> {
    seq!['0', '.', '0', '.', '0', '.', '0']
}

/// A host and a port, written as an address.
pub open spec fn address(host: Seq<char>, port: u16) -> Seq<char> {
    host + seq![':'] + decimal(port as nat)
}

/// The forwarding entry for a key of the table and its target.
pub open spec fn rule_of(key: EntryKey, target: Target) -> RuleView {
    RuleView {
        protocol: key.0,
        listen: address(any_host(), key.1),
        upstream: address(target.0, target.1),
    }
}

/// Whether `rules` lists the entries of `table`, each once, in the order of
/// `keys`.
pub open spec fn lists_in_order(
    table: Map<EntryKey, Target>,
    keys: Seq<EntryKey>,
    rules: Seq<RuleView>,
) -> bool {
    &&& keys.no_duplicates()
    &&& keys.to_set() == table.dom()
    &&& rules.len() == keys.len()
    &&& forall|i: int| 0 <= i < keys.len() ==> #[trigger] rules[i] == rule_of(keys[i], table[keys[i]])
}

/// Whether `rules` lists the entries of `table`, each once, in some order.
pub open spec fn lists(table: Map<EntryKey, Target>, rules: Seq<RuleView>) -> bool {
    exists|keys: Seq<EntryKey>| lists_in_order(table, keys, rules)
}

/// The values of a list of rules.
pub open spec fn rule_views(rules: Seq<MappingRule>) -> Seq<RuleView> {
    Seq::new(rules.len(), |i: int| rules[i]@)
}

/// A list of the entries of a table holds as many rules as the table has
/// entries, and no two of them for the same protocol and listen address.
pub proof fn lemma_one_rule_per_listener(table: Map<EntryKey, Target>, rules: Seq<RuleView>)
    requires
        lists(table, rules),
    ensures
        table.dom().finite(),
        rules.len() == table.dom().len(),
        forall|i: int, j: int|
            0 <= i < j < rules.len() ==> !(rules[i].protocol == rules[j].protocol
                && rules[i].listen == rules[j].listen),
{
    let keys = choose|keys: Seq<EntryKey>| lists_in_order(table, keys, rules);
    keys.unique_seq_to_set();
    assert forall|i: int, j: int| 0 <= i < j < rules.len() implies !(rules[i].protocol
        == rules[j].protocol && rules[i].listen == rules[j].listen) by {
        let a = keys[i];
        let b = keys[j];
        assert(rules[i] == rule_of(a, table[a]));
        assert(rules[j] == rule_of(b, table[b]));
        if rules[i].protocol == rules[j].protocol && rules[i].listen == rules[j].listen {
            let head = any_host() + seq![':'];
            assert(address(any_host(), a.1).skip(head.len() as int) == decimal(a.1 as nat));
            assert(address(any_host(), b.1).skip(head.len() as int) == decimal(b.1 as nat));
            lemma_decimal_injective(a.1 as nat, b.1 as nat);
            assert(a == b);
        }
    }
}

/// What `overwrites_first` lists: each entry of `table` that one of the
/// first `count` listen ports of the rule replaces, and each once.
pub proof fn lemma_overwrites_first(table: Map<EntryKey, Target>, rule: RawRuleView, count: nat)
    requires
        rule.wf(),
        count <= rule.listen_port.end - rule.listen_port.start + 1,
    ensures
        overwrites_first(table, rule, count).no_duplicates(),
        forall|key: EntryKey|
            overwrites_first(table, rule, count).contains(key) <==> table.contains_key(key)
                && expand_first(rule, count as int).contains_key(key),
    decreases count,
{
    let list = overwrites_first(table, rule, count);
    if count > 0 {
        let before = overwrites_first(table, rule, (count - 1) as nat);
        let port = (rule.listen_port.start + count - 1) as u16;
        let here = collisions(table, rule.protocol, port);
        lemma_overwrites_first(table, rule, (count - 1) as nat);
        assert forall|key: EntryKey| here.contains(key) <==> table.contains_key(key) && covers(
            rule.protocol,
            key.0,
        ) && key.1 == port by {
            if table.contains_key(key) && covers(rule.protocol, key.0) && key.1 == port {
                if key.0 == Protocol::Tcp {
                    assert(here[0] == key);
                } else {
                    assert(here[here.len() - 1] == key);
                }
            }
        }
        assert(here.no_duplicates());
        assert forall|key: EntryKey| list.contains(key) <==> table.contains_key(key)
            && expand_first(rule, count as int).contains_key(key) by {
            if list.contains(key) {
                let i = choose|i: int| 0 <= i < list.len() && list[i] == key;
                if i < before.len() {
                    assert(before[i] == key);
                } else {
                    assert(here[i - before.len()] == key);
                }
            }
            if before.contains(key) {
                let i = choose|i: int| 0 <= i < before.len() && before[i] == key;
                assert(list[i] == key);
            }
            if here.contains(key) {
                let i = choose|i: int| 0 <= i < here.len() && here[i] == key;
                assert(list[before.len() + i] == key);
            }
        }
        assert forall|i: int, j: int| 0 <= i < j < list.len() implies list[i] != list[j] by {
            if j < before.len() {
                assert(before[i] != before[j]);
            } else if i >= before.len() {
                assert(here[i - before.len()] != here[j - before.len()]);
            } else {
                assert(before.contains(before[i]));
                assert(here.contains(here[j - before.len()]));
            }
        }
    }
}

/// Of two rules that make an entry for the same protocol and port, the
/// later wins, and it is listed once among the entries that the later rule
/// replaces.
pub proof fn lemma_later_rule_wins(
    table: Map<EntryKey, Target>,
    earlier: RawRuleView,
    later: RawRuleView,
    key: EntryKey,
)
    requires
        earlier.wf(),
        later.wf(),
        expand(earlier).contains_key(key),
        expand(later).contains_key(key),
    ensures
        ({
            let between = table.union_prefer_right(expand(earlier));
            &&& between.union_prefer_right(expand(later))[key] == expand(later)[key]
            &&& overwrites(between, later).contains(key)
            &&& overwrites(between, later).no_duplicates()
        }),
{
    let between = table.union_prefer_right(expand(earlier));
    let count = (later.listen_port.end - later.listen_port.start + 1) as nat;
    lemma_overwrites_first(between, later, count);
    assert(between.contains_key(key));
    assert(expand_first(later, count as int).contains_key(key));
    assert(overwrites_first(between, later, count).contains(key));
}

/// What became of one line of a mapping file.
#[derive(Debug)]
pub enum LineOutcome<'a> {
    /// The line was empty or a comment.
    Ignored,
    /// The line denotes no rule.
    Rejected(MappingRuleParseError<'a>),
    /// The line's rule went into the table and replaced these entries.
    Added(Vec<(Protocol, u16)>),
}

/// The mathematical value of a `LineOutcome`.
pub enum OutcomeView {
    Ignored,
    Rejected(ParseErrorView),
    Added(Seq<EntryKey>),
}

impl<'a> View for LineOutcome<'a> {
    type V = OutcomeView;

    open spec fn view(&self) -> OutcomeView {
        match self {
            LineOutcome::Ignored => OutcomeView::Ignored,
            LineOutcome::Rejected(error) => OutcomeView::Rejected(error@),
            LineOutcome::Added(overwritten) => OutcomeView::Added(overwritten@),
        }
    }
}

/// The table after a line: the line is trimmed and read; its rule, if it
/// denotes one, is expanded over the table.
pub open spec fn step(table: Map<EntryKey, Target>, line: Seq<char>) -> Map<EntryKey, Target> {
    match parse_line(trimmed(line)) {
        Ok(rule) => table.union_prefer_right(expand(rule)),
        Err(_) => table,
    }
}

/// What becomes of a line that is compiled into `table`.
pub open spec fn outcome_of(table: Map<EntryKey, Target>, line: Seq<char>) -> OutcomeView {
    match parse_line(trimmed(line)) {
        Ok(rule) => OutcomeView::Added(overwrites(table, rule)),
        Err(ParseErrorView::Empty) => OutcomeView::Ignored,
        Err(error) => OutcomeView::Rejected(error),
    }
}

/// The warnings that an outcome calls for, `line` being the trimmed line:
/// one for a line that was refused, one for each entry that was replaced.
pub open spec fn outcome_warnings(outcome: OutcomeView, line: Seq<char>) -> Seq<Seq<char>> {
    match outcome {
        OutcomeView::Ignored => Seq::<Seq<char>>::empty(),
        OutcomeView::Rejected(error) => match parse_warning(error, line) {
            Some(text) => seq![text],
            None => Seq::<Seq<char>>::empty(),
        },
        OutcomeView::Added(overwritten) => Seq::new(
            overwritten.len(),
            |i: int| overwrite_warning(overwritten[i]),
        ),
    }
}

/// The table that a sequence of lines compiles to.
pub open spec fn compile(lines: Seq<Seq<char>>) -> Map<EntryKey, Target>
    decreases lines.len(),
{
    if lines.len() == 0 {
        Map::<EntryKey, Target>::empty()
    } else {
        step(compile(lines.drop_last()), lines.last())
    }
}

/// The warnings that compiling a sequence of lines gives, in the order of
/// the lines.
pub open spec fn warnings(lines: Seq<Seq<char>>) -> Seq<Seq<char>>
    decreases lines.len(),
{
    if lines.len() == 0 {
        Seq::<Seq<char>>::empty()
    } else {
        warnings(lines.drop_last()) + outcome_warnings(
            outcome_of(compile(lines.drop_last()), lines.last()),
            trimmed(lines.last()),
        )
    }
}

/// Of two lines that make an entry for the same protocol and port, the later
/// wins, and compiling it gives one warning for the entry.
pub proof fn lemma_later_line_wins(
    table: Map<EntryKey, Target>,
    earlier: Seq<char>,
    later: Seq<char>,
    key: EntryKey,
)
    requires
        parse_line(trimmed(earlier)) is Ok,
        parse_line(trimmed(later)) is Ok,
        expand(parse_line(trimmed(earlier))->Ok_0).contains_key(key),
        expand(parse_line(trimmed(later))->Ok_0).contains_key(key),
    ensures
        ({
            let between = step(table, earlier);
            let replaced = overwrites(between, parse_line(trimmed(later))->Ok_0);
            &&& step(between, later)[key] == expand(parse_line(trimmed(later))->Ok_0)[key]
            &&& outcome_of(between, later) == OutcomeView::Added(replaced)
            &&& replaced.contains(key)
            &&& replaced.no_duplicates()
            &&& outcome_warnings(outcome_of(between, later), trimmed(later)).len()
                == replaced.len()
        }),
{
    lemma_parse_wf(trimmed(earlier));
    lemma_parse_wf(trimmed(later));
    lemma_later_rule_wins(
        table,
        parse_line(trimmed(earlier))->Ok_0,
        parse_line(trimmed(later))->Ok_0,
        key,
    );
}

/// The values of a list of texts.
pub open spec fn texts(list: Seq<String>) -> Seq<Seq<char>> {
    Seq::new(list.len(), |i: int| list[i]@)
}

/// What a mapping file compiles to.
#[derive(Debug)]
pub struct Compiled {
    /// The forwarding entries, in no particular order.
    pub rules: Vec<MappingRule>,
    /// The warnings to log, in the order of the lines.
    pub warnings: Vec<String>,
}

/// The entries of a mapping file, by protocol and listen port.
pub struct RuleTable {
    entries: HashMap<u32, (String, u16)>,
}

impl View for RuleTable {
    type V = Map<EntryKey, Target>;

    closed spec fn view(&self) -> Map<EntryKey, Target> {
        Map::new(
            |key: EntryKey| self.entries@.contains_key(slot(key)),
            |key: EntryKey| (self.entries@[slot(key)].0@, self.entries@[slot(key)].1),
        )
    }
}

impl RuleTable {
    /// The invariant of the table: every entry is filed under the number of
    /// a protocol and a port.
    pub closed spec fn wf(&self) -> bool {
        forall|s: u32| self.entries@.contains_key(s) ==> s < 131072
    }

    /// A table without entries.
    pub fn new() -> (table: RuleTable)
        ensures
            table.wf(),
            table@ == Map::<EntryKey, Target>::empty(),
    {
        let table = RuleTable { entries: HashMap::new() };
        assert(table@ =~= Map::<EntryKey, Target>::empty());
        table
    }

    /// Files the number of an entry.
    fn slot_of(protocol: Protocol, port: u16) -> (s: u32)
        ensures
            s == slot((protocol, port)),
            s < 131072,
    {
        match protocol {
            Protocol::Tcp => port as u32,
            Protocol::Udp => 65536 + port as u32,
        }
    }

    /// Whether the table holds an entry for `protocol` and `port`.
    pub fn contains(&self, protocol: Protocol, port: u16) -> (found: bool)
        ensures
            found == self@.contains_key((protocol, port)),
    {
        let s = Self::slot_of(protocol, port);
        self.entries.contains_key(&s)
    }

    /// Sets the entry for `protocol` and `port`, and says whether there was
    /// one before, which is now gone.
    pub fn insert(&mut self, protocol: Protocol, port: u16, host: &str, upstream_port: u16) -> (overwritten:
        bool)
        requires
            old(self).wf(),
        ensures
            final(self).wf(),
            final(self)@ == old(self)@.insert((protocol, port), (host@, upstream_port)),
            overwritten == old(self)@.contains_key((protocol, port)),
    {
        let s = Self::slot_of(protocol, port);
        let previous = self.entries.insert(s, (String::from_str(host), upstream_port));
        proof {
            assert forall|a: EntryKey, b: EntryKey| slot(a) == slot(b) implies a == b by {}
            assert(self@ =~= old(self)@.insert((protocol, port), (host@, upstream_port)));
        }
        previous.is_some()
    }

    /// Expands a rule into the table: one entry for each listen port and
    /// each protocol that the rule's word covers, replacing what was there.
    /// Returns the entries that were replaced, in the order of the ports.
    pub fn add_rule(&mut self, rule: &MappingRuleRaw) -> (overwritten: Vec<(Protocol, u16)>)
        requires
            old(self).wf(),
            rule@.wf(),
        ensures
            final(self).wf(),
            final(self)@ == old(self)@.union_prefer_right(expand(rule@)),
            overwritten@ == overwrites(old(self)@, rule@),
    {
        let first = *rule.listen_port.start();
        let last = *rule.listen_port.end();
        let upstream_first = *rule.upstream_port.start();
        let tcp = !matches!(rule.protocol, ProtocolRaw::Udp);
        let udp = !matches!(rule.protocol, ProtocolRaw::Tcp);
        let count: u32 = (last - first) as u32 + 1;
        let mut overwritten: Vec<(Protocol, u16)> = Vec::new();
        let mut i: u32 = 0;
        assert(self@ =~= old(self)@.union_prefer_right(expand_first(rule@, 0)));
        while i < count
            invariant
                rule@.wf(),
                first == rule@.listen_port.start,
                upstream_first == rule@.upstream_port.start,
                count == rule@.listen_port.end - rule@.listen_port.start + 1,
                tcp == covers(rule@.protocol, Protocol::Tcp),
                udp == covers(rule@.protocol, Protocol::Udp),
                i <= count,
                self.wf(),
                self@ == old(self)@.union_prefer_right(expand_first(rule@, i as int)),
                overwritten@ == overwrites_first(old(self)@, rule@, i as nat),
            decreases count - i,
        {
            let port = first + i as u16;
            let upstream_port = upstream_first + i as u16;
            if tcp && self.insert(Protocol::Tcp, port, rule.upstream_host, upstream_port) {
                overwritten.push((Protocol::Tcp, port));
            }
            if udp && self.insert(Protocol::Udp, port, rule.upstream_host, upstream_port) {
                overwritten.push((Protocol::Udp, port));
            }
            proof {
                assert(self@ =~= old(self)@.union_prefer_right(expand_first(rule@, i + 1)));
                assert(overwritten@ =~= overwrites_first(old(self)@, rule@, i as nat)
                    + collisions(old(self)@, rule@.protocol, port));
            }
            i += 1;
        }
        overwritten
    }

    /// The key that is filed under `s`.
    fn key_at(s: u32) -> (key: (Protocol, u16))
        requires
            s < 131072,
        ensures
            slot(key) == s,
    {
        if s < 65536 {
            (Protocol::Tcp, s as u16)
        } else {
            (Protocol::Udp, (s - 65536) as u16)
        }
    }

    /// The entries as a list of rules: each entry once, listening on every
    /// local address, in no particular order.
    pub fn rules(&self) -> (out: Vec<MappingRule>)
        requires
            self.wf(),
        ensures
            lists(self@, rule_views(out@)),
            out.len() == self@.dom().len(),
    {
        let mut out: Vec<MappingRule> = Vec::new();
        let ghost mut keys: Seq<EntryKey> = Seq::empty();
        for pair in it: self.entries.iter()
            invariant
                self.wf(),
                it.seq() == spec_hash_map_iter(&self.entries).remaining(),
                it.seq().no_duplicates(),
                forall|i: int|
                    0 <= i < it.seq().len() ==> self.entries@.contains_key(
                        *(#[trigger] it.seq()[i]).0,
                    ) && self.entries@[*it.seq()[i].0] == *it.seq()[i].1,
                forall|s: u32| #[trigger]
                    self.entries@.contains_key(s) ==> it.seq().contains((&s, &self.entries@[s])),
                out.len() == it.index(),
                keys.len() == it.index(),
                forall|i: int| 0 <= i < keys.len() ==> slot(#[trigger] keys[i]) == *it.seq()[i].0,
                forall|i: int|
                    0 <= i < keys.len() ==> #[trigger] out[i]@ == rule_of(
                        keys[i],
                        self@[keys[i]],
                    ),
        {
            let (s, target) = pair;
            let (protocol, port) = Self::key_at(*s);
            let mut listen = String::from_str("0.0.0.0");
            listen.append(":");
            push_decimal(&mut listen, port as u64);
            let mut upstream = target.0.clone();
            upstream.append(":");
            push_decimal(&mut upstream, target.1 as u64);
            let rule = MappingRule { protocol, listen, upstream };
            proof {
                reveal_strlit("0.0.0.0");
                reveal_strlit(":");
                assert("0.0.0.0"@ =~= any_host());
                assert(":"@ =~= seq![':']);
                assert(pair == it.seq()[it.index()]);
                assert(self.entries@[*s] == *target);
                assert(self@[(protocol, port)] == (target.0@, target.1));
                assert(rule@ == rule_of((protocol, port), self@[(protocol, port)]));
                keys = keys.push((protocol, port));
            }
            out.push(rule);
        }
        proof {
            let pairs = spec_hash_map_iter(&self.entries).remaining();
            assert forall|a: EntryKey, b: EntryKey| slot(a) == slot(b) implies a == b by {}
            assert forall|i: int, j: int|
                0 <= i < keys.len() && 0 <= j < keys.len() && i != j implies keys[i] != keys[j] by {
                if keys[i] == keys[j] {
                    assert(pairs[i].0 == pairs[j].0);
                    assert(pairs[i].1 == pairs[j].1);
                    assert(pairs[i] == pairs[j]);
                }
            }
            assert forall|key: EntryKey| self@.dom().contains(key) implies keys.to_set().contains(
                key,
            ) by {
                let s = slot(key);
                assert(self.entries@.contains_key(s));
                let i = choose|i: int|
                    0 <= i < pairs.len() && pairs[i] == (&s, &self.entries@[s]);
                assert(keys[i] == key);
            }
            assert forall|key: EntryKey| keys.to_set().contains(key) implies self@.dom().contains(
                key,
            ) by {
                let i = choose|i: int| 0 <= i < keys.len() && keys[i] == key;
                assert(self.entries@.contains_key(*pairs[i].0));
            }
            assert(keys.to_set() =~= self@.dom());
            assert(lists_in_order(self@, keys, rule_views(out@)));
            lemma_one_rule_per_listener(self@, rule_views(out@));
        }
        out
    }

    /// Compiles one line into the table: the line is trimmed and read; its
    /// rule, if it denotes one, is expanded over the table.
    pub fn add_line<'a>(&mut self, line: &'a str) -> (outcome: LineOutcome<'a>)
        requires
            old(self).wf(),
        ensures
            final(self).wf(),
            final(self)@ == step(old(self)@, line@),
            outcome@ == outcome_of(old(self)@, line@),
            outcome.fresh(),
    {
        let r = MappingRuleRaw::parse(trim(line));
        match r {
            Ok(rule) => LineOutcome::Added(self.add_rule(&rule)),
            Err(MappingRuleParseError::Empty) => LineOutcome::Ignored,
            Err(error) => LineOutcome::Rejected(error),
        }
    }
}

impl<'a> LineOutcome<'a> {
    /// Whether the error that the outcome holds, if any, is as `parse` made
    /// it.
    pub open spec fn fresh(&self) -> bool {
        self matches LineOutcome::Rejected(error) ==> error.fresh()
    }

    /// The warnings to log for the outcome of `line`: none for a line that
    /// was ignored, one for a line that was refused, one for each entry that
    /// was replaced.
    pub fn warnings(&self, line: &str) -> (list: Vec<String>)
        ensures
            list.len() == outcome_warnings(self@, trimmed(line@)).len(),
            self.fresh() ==> texts(list@) == outcome_warnings(self@, trimmed(line@)),
    {
        let mut list: Vec<String> = Vec::new();
        match self {
            LineOutcome::Ignored => {},
            LineOutcome::Rejected(error) => {
                if let Some(text) = error.warning(trim(line)) {
                    list.push(text);
                }
            },
            LineOutcome::Added(overwritten) => {
                let mut i: usize = 0;
                while i < overwritten.len()
                    invariant
                        i <= overwritten.len(),
                        list.len() == i,
                        forall|k: int|
                            0 <= k < i ==> (#[trigger] list[k])@ == overwrite_warning(
                                overwritten[k],
                            ),
                    decreases overwritten.len() - i,
                {
                    list.push(overwrite_warning_text(overwritten[i].0, overwritten[i].1));
                    i += 1;
                }
            },
        }
        assert(self.fresh() ==> texts(list@) =~= outcome_warnings(self@, trimmed(line@)));
        list
    }
}

/// The values of a list of lines.
pub open spec fn line_views(lines: Seq<String>) -> Seq<Seq<char>> {
    Seq::new(lines.len(), |i: int| lines[i]@)
}

/// Compiles the lines of a mapping file: each line is trimmed and read, in
/// order; a line that denotes no rule is passed over with a warning, an
/// empty one silently; a rule replaces the entries that earlier lines made
/// for its ports, with a warning for each.
pub fn read_mapping_file(lines: &Vec<String>) -> (out: Compiled)
    ensures
        lists(compile(line_views(lines@)), rule_views(out.rules@)),
        out.rules.len() == compile(line_views(lines@)).dom().len(),
        texts(out.warnings@) == warnings(line_views(lines@)),
{
    let mut table = RuleTable::new();
    let mut log: Vec<String> = Vec::new();
    let mut i: usize = 0;
    while i < lines.len()
        invariant
            i <= lines.len(),
            table.wf(),
            table@ == compile(line_views(lines@).take(i as int)),
            texts(log@) == warnings(line_views(lines@).take(i as int)),
        decreases lines.len() - i,
    {
        let line = lines[i].as_str();
        let ghost before = line_views(lines@).take(i as int);
        let ghost now = line_views(lines@).take(i + 1);
        let ghost logged = texts(log@);
        let outcome = table.add_line(line);
        let mut fresh = outcome.warnings(line);
        proof {
            assert(now.drop_last() == before);
            assert(now.last() == line@);
        }
        let ghost added = texts(fresh@);
        log.append(&mut fresh);
        proof {
            assert(texts(log@) =~= logged + added);
        }
        i += 1;
    }
    assert(line_views(lines@).take(i as int) == line_views(lines@));
    Compiled { rules: table.rules(), warnings: log }
}

} // verus!
