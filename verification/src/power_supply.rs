//! Tracking whether external power supplies are online, from the kernel's uevent
//! messages: `KEY=value` lines separated by NUL characters.
use vstd::prelude::*;
use vstd::string::{StringExecFns, StringSliceAdditionalSpecFns};
use vstd::utf8::{decode_utf8, valid_utf8};

verus! {

/// What `String::from_utf8_lossy` makes of `bytes`: the characters they encode,
/// with each invalid sequence replaced by U+FFFD.
pub uninterp spec fn utf8_lossy(bytes: Seq<u8>) -> Seq<char>;

/// `String::from_utf8_lossy`, as a vector of characters.  Valid UTF-8 is decoded
/// as it is; what it does with invalid bytes is only named.
#[verifier::external_body]
fn lossy_chars(bytes: &[u8]) -> (chars: Vec<char>)
    ensures
        chars@ == utf8_lossy(bytes@),
        valid_utf8(bytes@) ==> chars@ == decode_utf8(bytes@),
{
    String::from_utf8_lossy(bytes).chars().collect()
}

/// An external power supply and whether it is online.
#[derive(Debug, Clone, Copy, PartialEq, Eq, Structural)]
pub struct PowerSupply {
    pub online: bool,
}

/// Which line of a uevent is awaited next.
#[derive(Debug, Clone, Copy, PartialEq, Eq, Structural)]
pub enum Match {
    Subsystem,
    PowerSupplyName,
    PowerSupplyOnline,
}

pub open spec fn subsystem_key() -> Seq<char> {
    seq!['S', 'U', 'B', 'S', 'Y', 'S', 'T', 'E', 'M']
}

pub open spec fn power_supply_value() -> Seq<char> {
    seq!['p', 'o', 'w', 'e', 'r', '_', 's', 'u', 'p', 'p', 'l', 'y']
}

pub open spec fn name_key() -> Seq<char> {
    seq!['P', 'O', 'W', 'E', 'R', '_', 'S', 'U', 'P', 'P', 'L', 'Y', '_', 'N', 'A', 'M', 'E']
}

pub open spec fn online_key() -> Seq<char> {
    seq!['P', 'O', 'W', 'E', 'R', '_', 'S', 'U', 'P', 'P', 'L', 'Y', '_', 'O', 'N', 'L', 'I', 'N', 'E']
}

/// The position of the first `c` in `s` at or after `i`, or `s.len()`.
pub open spec fn next_char(s: Seq<char>, c: char, i: int) -> int
    decreases s.len() - i,
{
    if i >= s.len() {
        s.len() as int
    } else if s[i] == c {
        i
    } else {
        next_char(s, c, i + 1)
    }
}

/// The position of the entry named `name` in `entries` at or after `i`, or -1.
pub open spec fn index_of_name(entries: Seq<(Seq<char>, bool)>, name: Seq<char>, i: int) -> int
    decreases entries.len() - i,
{
    if i < 0 || i >= entries.len() {
        -1
    } else if entries[i].0 == name {
        i
    } else {
        index_of_name(entries, name, i + 1)
    }
}

/// The table after a supply named `name` reported `online`, and whether that was news:
/// a known supply is updated in place, an unknown one is added at the end.
pub open spec fn record_online(entries: Seq<(Seq<char>, bool)>, name: Seq<char>, online: bool) -> (
    Seq<(Seq<char>, bool)>,
    bool,
) {
    let i = index_of_name(entries, name, 0);
    if i < 0 {
        (entries.push((name, online)), true)
    } else if entries[i].1 != online {
        (entries.update(i, (name, online)), true)
    } else {
        (entries, false)
    }
}

/// The parser's state: the awaited line, the announced name, the table, and
/// whether any supply changed.
pub struct ParseView {
    pub needed: Match,
    pub name: Seq<char>,
    pub entries: Seq<(Seq<char>, bool)>,
    pub changed: bool,
}

/// One line.  Lines without `=` are skipped; otherwise the line is split at its
/// first `=` into key and value.  A `SUBSYSTEM=power_supply` line makes the parser
/// await the name, a `POWER_SUPPLY_NAME` line records the name and makes it await
/// the online state, and a `POWER_SUPPLY_ONLINE` line (online when the value is
/// `1`) updates the table and starts over.  Other lines are skipped.
pub open spec fn line_step(st: ParseView, line: Seq<char>) -> ParseView {
    let eq = next_char(line, '=', 0);
    if eq >= line.len() {
        st
    } else {
        let key = line.subrange(0, eq);
        let value = line.subrange(eq + 1, line.len() as int);
        match st.needed {
            Match::Subsystem => if key == subsystem_key() && value == power_supply_value() {
                ParseView { needed: Match::PowerSupplyName, ..st }
            } else {
                st
            },
            Match::PowerSupplyName => if key == name_key() {
                ParseView { needed: Match::PowerSupplyOnline, name: value, ..st }
            } else {
                st
            },
            Match::PowerSupplyOnline => if key == online_key() {
                let (entries, news) = record_online(st.entries, st.name, value == seq!['1']);
                ParseView {
                    needed: Match::Subsystem,
                    entries,
                    changed: st.changed || news,
                    ..st
                }
            } else {
                st
            },
        }
    }
}

/// The lines of `msg` from position `i` on (separated by NUL), processed in order.
pub open spec fn process_from(msg: Seq<char>, i: int, st: ParseView) -> ParseView
    decreases msg.len() - i,
{
    if i < 0 || i > msg.len() {
        st
    } else {
        let end = next_char(msg, '\0', i);
        let next = line_step(st, msg.subrange(i, end));
        if end >= msg.len() {
            next
        } else {
            proof {
                lemma_next_char_bounds(msg, '\0', i);
            }
            process_from(msg, end + 1, next)
        }
    }
}

/// `next_char` finds a position between its start and the end.
pub proof fn lemma_next_char_bounds(s: Seq<char>, c: char, i: int)
    requires
        0 <= i <= s.len(),
    ensures
        i <= next_char(s, c, i) <= s.len(),
    decreases s.len() - i,
{
    if i < s.len() && s[i] != c {
        lemma_next_char_bounds(s, c, i + 1);
    }
}

/// The result of a whole message: the new table and whether any supply changed.
pub open spec fn process_message(entries: Seq<(Seq<char>, bool)>, msg: Seq<char>) -> (
    Seq<(Seq<char>, bool)>,
    bool,
) {
    let st = process_from(
        msg,
        0,
        ParseView { needed: Match::Subsystem, name: Seq::empty(), entries, changed: false },
    );
    (st.entries, st.changed)
}

/// The known external power supplies, by name.
pub struct PowerSupplies {
    entries: Vec<(Vec<char>, PowerSupply)>,
}

/// The names and online states of a table.
pub open spec fn entries_view(entries: Seq<(Vec<char>, PowerSupply)>) -> Seq<(Seq<char>, bool)> {
    entries.map_values(|e: (Vec<char>, PowerSupply)| (e.0@, e.1.online))
}

impl View for PowerSupplies {
    type V = Seq<(Seq<char>, bool)>;

    closed spec fn view(&self) -> Seq<(Seq<char>, bool)> {
        entries_view(self.entries@)
    }
}

fn chars_eq(a: &[char], b: &[char]) -> (r: bool)
    ensures
        r == (a@ == b@),
{
    if a.len() != b.len() {
        return false;
    }
    let mut i: usize = 0;
    while i < a.len()
        invariant
            a@.len() == b@.len(),
            i <= a@.len(),
            forall|j: int| 0 <= j < i ==> a@[j] == b@[j],
        decreases a@.len() - i,
    {
        if a[i] != b[i] {
            return false;
        }
        i += 1;
    }
    assert(a@ =~= b@);
    true
}

fn next_char_at(s: &[char], c: char, i: usize, end: usize) -> (r: usize)
    requires
        i <= end <= s@.len(),
    ensures
        r == next_char(s@.subrange(0, end as int), c, i as int),
        i <= r <= end,
{
    let ghost t = s@.subrange(0, end as int);
    let mut j = i;
    while j < end && s[j] != c
        invariant
            i <= j <= end,
            end <= s@.len(),
            t == s@.subrange(0, end as int),
            next_char(t, c, i as int) == next_char(t, c, j as int),
        decreases end - j,
    {
        j += 1;
    }
    j
}

/// Records `name` with `online` in the table `entries`: updated in place when
/// known, added at the end otherwise; true when that was news.
fn record_in(entries: &mut Vec<(Vec<char>, PowerSupply)>, name: Vec<char>, online: bool) -> (changed: bool)
    ensures
        (entries_view(final(entries)@), changed) == record_online(entries_view(old(entries)@), name@, online),
{
    let ghost start = entries_view(entries@);
    let mut i: usize = 0;
    while i < entries.len()
        invariant
            i <= entries@.len(),
            entries@ == old(entries)@,
            start == entries_view(entries@),
            start.len() == entries@.len(),
            index_of_name(start, name@, 0) == index_of_name(start, name@, i as int),
        decreases entries@.len() - i,
    {
        if chars_eq(entries[i].0.as_slice(), name.as_slice()) {
            assert(index_of_name(start, name@, i as int) == i);
            assert(start[i as int].0 == name@);
            if entries[i].1.online != online {
                entries.set(i, (name, PowerSupply { online }));
                proof {
                    assert(entries_view(entries@) =~= start.update(i as int, (name@, online)));
                }
                return true;
            } else {
                return false;
            }
        }
        i += 1;
    }
    assert(index_of_name(start, name@, i as int) == -1);
    entries.push((name, PowerSupply { online }));
    proof {
        assert(entries_view(entries@) =~= start.push((name@, online)));
    }
    true
}

impl PowerSupplies {
    /// An empty table.
    pub fn new() -> (p: PowerSupplies)
        ensures
            p@ == Seq::<(Seq<char>, bool)>::empty(),
    {
        let p = PowerSupplies { entries: Vec::new() };
        assert(p@ =~= Seq::<(Seq<char>, bool)>::empty());
        p
    }

    /// No supply is in the table twice.
    #[verifier::type_invariant]
    spec fn names_unique(self) -> bool {
        unique_names(entries_view(self.entries@))
    }

    /// Records that the supply `name` is online or not; true when that was news.
    pub fn insert(&mut self, name: Vec<char>, online: bool) -> (changed: bool)
        ensures
            (final(self)@, changed) == record_online(old(self)@, name@, online),
    {
        proof {
            use_type_invariant(&*self);
            lemma_record_online(self@, name@, online);
        }
        let mut entries: Vec<(Vec<char>, PowerSupply)> = Vec::new();
        std::mem::swap(&mut entries, &mut self.entries);
        let changed = record_in(&mut entries, name, online);
        self.entries = entries;
        changed
    }

    /// Whether the supply `name` is known, and online.
    pub fn get(&self, name: &[char]) -> (r: Option<PowerSupply>)
        ensures
            index_of_name(self@, name@, 0) < 0 ==> r is None,
            index_of_name(self@, name@, 0) >= 0 ==> r == Some(
                PowerSupply { online: self@[index_of_name(self@, name@, 0)].1 },
            ),
    {
        let mut i: usize = 0;
        while i < self.entries.len()
            invariant
                i <= self@.len(),
                self@ == entries_view(self.entries@),
                self@.len() == self.entries@.len(),
                index_of_name(self@, name@, 0) == index_of_name(self@, name@, i as int),
            decreases self.entries@.len() - i,
        {
            if chars_eq(self.entries[i].0.as_slice(), name) {
                return Some(self.entries[i].1);
            }
            i += 1;
        }
        None
    }

    /// Reads one uevent message and records the online state of every power supply
    /// it reports; true when one of them changed or was new.
    pub fn online_status_changed(&mut self, bytes: &[u8]) -> (changed: bool)
        ensures
            (final(self)@, changed) == process_message(old(self)@, utf8_lossy(bytes@)),
            valid_utf8(bytes@) ==> (final(self)@, changed) == process_message(
                old(self)@,
                decode_utf8(bytes@),
            ),
    {
        let message = lossy_chars(bytes);
        self.process(message.as_slice())
    }

    /// Processes the lines of `msg`; see `process_message`.
    pub fn process(&mut self, msg: &[char]) -> (changed: bool)
        ensures
            (final(self)@, changed) == process_message(old(self)@, msg@),
    {
        let ghost init = ParseView {
            needed: Match::Subsystem,
            name: Seq::empty(),
            entries: old(self)@,
            changed: false,
        };
        let mut needed = Match::Subsystem;
        let mut name: Vec<char> = Vec::new();
        let mut changed = false;
        let mut i: usize = 0;
        loop
            invariant
                i <= msg@.len(),
                init == (ParseView {
                    needed: Match::Subsystem,
                    name: Seq::empty(),
                    entries: old(self)@,
                    changed: false,
                }),
                process_from(msg@, 0, init) == process_from(
                    msg@,
                    i as int,
                    ParseView { needed, name: name@, entries: self@, changed },
                ),
            decreases msg@.len() - i,
        {
            let end = next_char_at(msg, '\0', i, msg.len());
            proof {
                assert(msg@.subrange(0, msg@.len() as int) =~= msg@);
            }
            let ghost st = ParseView { needed, name: name@, entries: self@, changed };
            let line = vstd::slice::slice_subrange(msg, i, end);
            let eq = next_char_at(line, '=', 0, line.len());
            proof {
                assert(line@.subrange(0, line@.len() as int) =~= line@);
            }
            if eq < line.len() {
                let key = vstd::slice::slice_subrange(line, 0, eq);
                let value = vstd::slice::slice_subrange(line, eq + 1, line.len());
                let subsystem = ['S', 'U', 'B', 'S', 'Y', 'S', 'T', 'E', 'M'];
                let power_supply = ['p', 'o', 'w', 'e', 'r', '_', 's', 'u', 'p', 'p', 'l', 'y'];
                let name_key_chars = [
                    'P', 'O', 'W', 'E', 'R', '_', 'S', 'U', 'P', 'P', 'L', 'Y', '_', 'N', 'A', 'M', 'E',
                ];
                let online_key_chars = [
                    'P', 'O', 'W', 'E', 'R', '_', 'S', 'U', 'P', 'P', 'L', 'Y', '_', 'O', 'N', 'L', 'I', 'N', 'E',
                ];
                let one = ['1'];
                proof {
                    assert(subsystem@ =~= subsystem_key());
                    assert(power_supply@ =~= power_supply_value());
                    assert(name_key_chars@ =~= name_key());
                    assert(online_key_chars@ =~= online_key());
                    assert(one@ =~= seq!['1']);
                }
                match needed {
                    Match::Subsystem => {
                        if chars_eq(key, subsystem.as_slice()) && chars_eq(value, power_supply.as_slice()) {
                            needed = Match::PowerSupplyName;
                        }
                    },
                    Match::PowerSupplyName => {
                        if chars_eq(key, name_key_chars.as_slice()) {
                            name = vstd::slice::slice_to_vec(value);
                            needed = Match::PowerSupplyOnline;
                        }
                    },
                    Match::PowerSupplyOnline => {
                        if chars_eq(key, online_key_chars.as_slice()) {
                            let online = chars_eq(value, one.as_slice());
                            let news = self.insert(name.clone(), online);
                            changed = changed || news;
                            needed = Match::Subsystem;
                        }
                    },
                }
            }
            proof {
                let after = ParseView { needed, name: name@, entries: self@, changed };
                assert(after == line_step(st, line@));
            }
            proof {
                let after = ParseView { needed, name: name@, entries: self@, changed };
                assert(line@ == msg@.subrange(i as int, end as int));
                assert(end == next_char(msg@, '\0', i as int));
                if end >= msg@.len() {
                    assert(process_from(msg@, i as int, st) == after);
                } else {
                    assert(process_from(msg@, i as int, st) == process_from(msg@, end + 1, after));
                }
            }
            if end >= msg.len() {
                return changed;
            }
            i = end + 1;
        }
    }
}

/// No name is in the table twice.
pub open spec fn unique_names(entries: Seq<(Seq<char>, bool)>) -> bool {
    forall|i: int, j: int| 0 <= i < j < entries.len() ==> entries[i].0 != entries[j].0
}

proof fn lemma_index_of_name(entries: Seq<(Seq<char>, bool)>, name: Seq<char>, i: int)
    requires
        0 <= i <= entries.len(),
    ensures
        index_of_name(entries, name, i) == -1 ==> forall|j: int|
            i <= j < entries.len() ==> entries[j].0 != name,
        index_of_name(entries, name, i) != -1 ==> i <= index_of_name(entries, name, i) < entries.len()
            && entries[index_of_name(entries, name, i)].0 == name,
    decreases entries.len() - i,
{
    if i < entries.len() && entries[i].0 != name {
        lemma_index_of_name(entries, name, i + 1);
    }
}

/// Recording a supply keeps every name in the table once, and afterwards the
/// supply is in the table with the reported state.
pub proof fn lemma_record_online(entries: Seq<(Seq<char>, bool)>, name: Seq<char>, online: bool)
    requires
        unique_names(entries),
    ensures
        unique_names(record_online(entries, name, online).0),
        ({
            let after = record_online(entries, name, online).0;
            let k = index_of_name(after, name, 0);
            0 <= k < after.len() && after[k] == (name, online)
        }),
{
    lemma_index_of_name(entries, name, 0);
    let after = record_online(entries, name, online).0;
    lemma_index_of_name(after, name, 0);
    let i = index_of_name(entries, name, 0);
    if i < 0 {
        assert(after[entries.len() as int].0 == name);
    } else {
        assert(after[i].0 == name);
    }
}

/// Processing a message keeps every name in the table once.
pub proof fn lemma_process_unique(msg: Seq<char>, i: int, st: ParseView)
    requires
        unique_names(st.entries),
    ensures
        unique_names(process_from(msg, i, st).entries),
    decreases msg.len() - i,
{
    if 0 <= i <= msg.len() {
        let end = next_char(msg, '\0', i);
        let line = msg.subrange(i, end);
        let next = line_step(st, line);
        if st.needed == Match::PowerSupplyOnline {
            lemma_record_online(st.entries, st.name, true);
            lemma_record_online(st.entries, st.name, false);
        }
        assert(unique_names(next.entries));
        if end < msg.len() {
            lemma_next_char_bounds(msg, '\0', i);
            lemma_process_unique(msg, end + 1, next);
        }
    }
}

/// The online state recorded for `name` in a table, if it is known.
pub open spec fn online_of(entries: Seq<(Seq<char>, bool)>, name: Seq<char>) -> Option<bool> {
    let i = index_of_name(entries, name, 0);
    if i < 0 {
        None
    } else {
        Some(entries[i].1)
    }
}

/// One line as the parser reads it, without the table: the next awaited line,
/// the announced name, and the (name, online) record the line completes, if any.
pub open spec fn line_record(needed: Match, name: Seq<char>, line: Seq<char>) -> (
    Match,
    Seq<char>,
    Option<(Seq<char>, bool)>,
) {
    let eq = next_char(line, '=', 0);
    if eq >= line.len() {
        (needed, name, None)
    } else {
        let key = line.subrange(0, eq);
        let value = line.subrange(eq + 1, line.len() as int);
        match needed {
            Match::Subsystem => if key == subsystem_key() && value == power_supply_value() {
                (Match::PowerSupplyName, name, None)
            } else {
                (needed, name, None)
            },
            Match::PowerSupplyName => if key == name_key() {
                (Match::PowerSupplyOnline, value, None)
            } else {
                (needed, name, None)
            },
            Match::PowerSupplyOnline => if key == online_key() {
                (Match::Subsystem, name, Some((name, value == seq!['1'])))
            } else {
                (needed, name, None)
            },
        }
    }
}

/// The (name, online) records of the lines of `msg` from position `i` on, in order.
pub open spec fn records_from(msg: Seq<char>, i: int, needed: Match, name: Seq<char>) -> Seq<
    (Seq<char>, bool),
>
    decreases msg.len() - i,
{
    if i < 0 || i > msg.len() {
        Seq::empty()
    } else {
        let end = next_char(msg, '\0', i);
        let (needed2, name2, record) = line_record(needed, name, msg.subrange(i, end));
        let here: Seq<(Seq<char>, bool)> = match record {
            Some(r) => seq![r],
            None => Seq::empty(),
        };
        if end >= msg.len() {
            here
        } else {
            proof {
                lemma_next_char_bounds(msg, '\0', i);
            }
            here + records_from(msg, end + 1, needed2, name2)
        }
    }
}

/// The records of a whole message.
pub open spec fn message_records(msg: Seq<char>) -> Seq<(Seq<char>, bool)> {
    records_from(msg, 0, Match::Subsystem, Seq::empty())
}

/// Recording each record in turn: the new table, and whether any was news.
pub open spec fn apply_records(entries: Seq<(Seq<char>, bool)>, records: Seq<(Seq<char>, bool)>) -> (
    Seq<(Seq<char>, bool)>,
    bool,
)
    decreases records.len(),
{
    if records.len() == 0 {
        (entries, false)
    } else {
        let (e1, n1) = record_online(entries, records[0].0, records[0].1);
        let (e2, n2) = apply_records(e1, records.skip(1));
        (e2, n1 || n2)
    }
}

/// No supply is named in two records.
pub open spec fn distinct_record_names(records: Seq<(Seq<char>, bool)>) -> bool {
    forall|i: int, j: int| 0 <= i < j < records.len() ==> records[i].0 != records[j].0
}

/// Processing lines is recording the records they hold.
proof fn lemma_process_is_apply(msg: Seq<char>, i: int, st: ParseView)
    requires
        0 <= i <= msg.len(),
    ensures
        process_from(msg, i, st).entries == apply_records(
            st.entries,
            records_from(msg, i, st.needed, st.name),
        ).0,
        process_from(msg, i, st).changed == (st.changed || apply_records(
            st.entries,
            records_from(msg, i, st.needed, st.name),
        ).1),
    decreases msg.len() - i,
{
    lemma_next_char_bounds(msg, '\0', i);
    let end = next_char(msg, '\0', i);
    let line = msg.subrange(i, end);
    let next = line_step(st, line);
    let (needed2, name2, record) = line_record(st.needed, st.name, line);
    assert(next.needed == needed2 && next.name == name2);
    let here: Seq<(Seq<char>, bool)> = match record {
        Some(r) => seq![r],
        None => Seq::empty(),
    };
    match record {
        Some(r) => {
            assert(next.entries == record_online(st.entries, r.0, r.1).0);
            assert(next.changed == (st.changed || record_online(st.entries, r.0, r.1).1));
        },
        None => {
            assert(next.entries == st.entries && next.changed == st.changed);
        },
    }
    if end >= msg.len() {
        assert(process_from(msg, i, st) == next);
        assert(records_from(msg, i, st.needed, st.name) == here);
        match record {
            Some(r) => {
                assert(here[0] == r);
                assert(here.skip(1) =~= Seq::<(Seq<char>, bool)>::empty());
                let e1 = record_online(st.entries, r.0, r.1).0;
                assert(apply_records(e1, here.skip(1)) == (e1, false));
            },
            None => {},
        }
    } else {
        assert(process_from(msg, i, st) == process_from(msg, end + 1, next));
        lemma_process_is_apply(msg, end + 1, next);
        let rest = records_from(msg, end + 1, needed2, name2);
        assert(records_from(msg, i, st.needed, st.name) == here + rest);
        match record {
            Some(r) => {
                assert((here + rest)[0] == r);
                assert((here + rest).skip(1) =~= rest);
                let e1 = record_online(st.entries, r.0, r.1).0;
                assert(apply_records(st.entries, here + rest).0 == apply_records(e1, rest).0);
            },
            None => {
                assert(here + rest =~= rest);
            },
        }
    }
}

/// A whole message is the recording of its records.
pub proof fn lemma_process_message_is_apply(entries: Seq<(Seq<char>, bool)>, msg: Seq<char>)
    ensures
        process_message(entries, msg) == apply_records(entries, message_records(msg)),
{
    let st = ParseView { needed: Match::Subsystem, name: Seq::empty(), entries, changed: false };
    lemma_process_is_apply(msg, 0, st);
}

/// `index_of_name` only looks at the names.
proof fn lemma_index_same_names(
    t: Seq<(Seq<char>, bool)>,
    u: Seq<(Seq<char>, bool)>,
    n: Seq<char>,
    i: int,
)
    requires
        t.len() == u.len(),
        forall|k: int| 0 <= k < t.len() ==> t[k].0 == u[k].0,
    ensures
        index_of_name(t, n, i) == index_of_name(u, n, i),
    decreases t.len() - i,
{
    if 0 <= i < t.len() && t[i].0 != n {
        lemma_index_same_names(t, u, n, i + 1);
    }
}

/// Looking a name up after an entry was added at the end.
proof fn lemma_index_push(t: Seq<(Seq<char>, bool)>, x: (Seq<char>, bool), n: Seq<char>, i: int)
    requires
        0 <= i <= t.len(),
    ensures
        index_of_name(t.push(x), n, i) == if index_of_name(t, n, i) >= 0 {
            index_of_name(t, n, i)
        } else if x.0 == n {
            t.len() as int
        } else {
            -1
        },
    decreases t.len() - i,
{
    let u = t.push(x);
    if i < t.len() {
        assert(u[i] == t[i]);
        if t[i].0 != n {
            lemma_index_push(t, x, n, i + 1);
        }
    } else {
        assert(u[i] == x);
        if x.0 != n {
            assert(index_of_name(u, n, i + 1) == -1);
        }
    }
}

/// Recording a supply sets its state and leaves every other supply's state as it was.
proof fn lemma_record_online_lookup(t: Seq<(Seq<char>, bool)>, m: Seq<char>, o: bool)
    ensures
        online_of(record_online(t, m, o).0, m) == Some(o),
        forall|n: Seq<char>| n != m ==> #[trigger] online_of(record_online(t, m, o).0, n) == online_of(t, n),
{
    let i = index_of_name(t, m, 0);
    lemma_index_of_name(t, m, 0);
    let after = record_online(t, m, o).0;
    if i < 0 {
        lemma_index_push(t, (m, o), m, 0);
        assert forall|n: Seq<char>| n != m implies #[trigger] online_of(after, n) == online_of(t, n) by {
            lemma_index_push(t, (m, o), n, 0);
            lemma_index_of_name(t, n, 0);
        }
    } else if t[i].1 != o {
        assert forall|k: int| 0 <= k < t.len() implies t[k].0 == after[k].0 by {}
        lemma_index_same_names(t, after, m, 0);
        assert forall|n: Seq<char>| n != m implies #[trigger] online_of(after, n) == online_of(t, n) by {
            lemma_index_same_names(t, after, n, 0);
            lemma_index_of_name(t, n, 0);
        }
    }
}

/// Records whose states the table already holds change nothing and are no news.
proof fn lemma_apply_matching(t: Seq<(Seq<char>, bool)>, records: Seq<(Seq<char>, bool)>)
    requires
        forall|k: int| 0 <= k < records.len() ==> online_of(t, #[trigger] records[k].0) == Some(
            records[k].1,
        ),
    ensures
        apply_records(t, records) == (t, false),
    decreases records.len(),
{
    if records.len() > 0 {
        let r = records[0];
        assert(online_of(t, r.0) == Some(r.1));
        lemma_index_of_name(t, r.0, 0);
        assert(record_online(t, r.0, r.1) == (t, false));
        let rest = records.skip(1);
        assert forall|k: int| 0 <= k < rest.len() implies online_of(t, #[trigger] rest[k].0) == Some(
            rest[k].1,
        ) by {
            assert(rest[k] == records[k + 1]);
        }
        lemma_apply_matching(t, rest);
    }
}

/// Records of other supplies leave a supply's state as it was.
proof fn lemma_apply_preserves(t: Seq<(Seq<char>, bool)>, records: Seq<(Seq<char>, bool)>, n: Seq<char>)
    requires
        forall|k: int| 0 <= k < records.len() ==> #[trigger] records[k].0 != n,
    ensures
        online_of(apply_records(t, records).0, n) == online_of(t, n),
    decreases records.len(),
{
    if records.len() > 0 {
        let r = records[0];
        lemma_record_online_lookup(t, r.0, r.1);
        let t1 = record_online(t, r.0, r.1).0;
        assert(r.0 != n);
        assert(online_of(t1, n) == online_of(t, n));
        let rest = records.skip(1);
        assert forall|k: int| 0 <= k < rest.len() implies #[trigger] rest[k].0 != n by {
            assert(rest[k] == records[k + 1]);
        }
        lemma_apply_preserves(t1, rest, n);
    }
}

/// After recording records that name distinct supplies, the table holds each
/// record's state.
proof fn lemma_apply_sets(t: Seq<(Seq<char>, bool)>, records: Seq<(Seq<char>, bool)>)
    requires
        distinct_record_names(records),
    ensures
        forall|k: int| 0 <= k < records.len() ==> online_of(
            apply_records(t, records).0,
            #[trigger] records[k].0,
        ) == Some(records[k].1),
    decreases records.len(),
{
    if records.len() > 0 {
        let r = records[0];
        lemma_record_online_lookup(t, r.0, r.1);
        let t1 = record_online(t, r.0, r.1).0;
        let rest = records.skip(1);
        assert(distinct_record_names(rest)) by {
            assert forall|i: int, j: int| 0 <= i < j < rest.len() implies rest[i].0 != rest[j].0 by {
                assert(rest[i] == records[i + 1] && rest[j] == records[j + 1]);
            }
        }
        lemma_apply_sets(t1, rest);
        assert forall|k: int| 0 <= k < rest.len() implies #[trigger] rest[k].0 != r.0 by {
            assert(rest[k] == records[k + 1]);
        }
        lemma_apply_preserves(t1, rest, r.0);
        let after = apply_records(t, records).0;
        assert forall|k: int| 0 <= k < records.len() implies online_of(after, #[trigger] records[k].0)
            == Some(records[k].1) by {
            if k > 0 {
                assert(records[k] == rest[k - 1]);
            }
        }
    }
}

/// A message in which no supply is named twice, processed a second time right
/// after the first, is no news and leaves the table as the first left it.
pub proof fn lemma_process_twice(entries: Seq<(Seq<char>, bool)>, msg: Seq<char>)
    requires
        distinct_record_names(message_records(msg)),
    ensures
        ({
            let (first, _) = process_message(entries, msg);
            process_message(first, msg) == (first, false)
        }),
{
    let records = message_records(msg);
    lemma_process_message_is_apply(entries, msg);
    let first = apply_records(entries, records).0;
    lemma_process_message_is_apply(first, msg);
    lemma_apply_sets(entries, records);
    lemma_apply_matching(first, records);
}

/// Unicode White_Space, as `char::is_whitespace` has it.
pub open spec fn is_white_space(c: char) -> bool {
    let v = c as u32;
    (0x09 <= v <= 0x0d) || v == 0x20 || v == 0x85 || v == 0xa0 || v == 0x1680 || (0x2000 <= v
        <= 0x200a) || v == 0x2028 || v == 0x2029 || v == 0x202f || v == 0x205f || v == 0x3000
}

/// The length of `s` without its trailing white space.
pub open spec fn trimmed_len(s: Seq<char>) -> nat
    decreases s.len(),
{
    if s.len() == 0 {
        0
    } else if is_white_space(s.last()) {
        trimmed_len(s.drop_last())
    } else {
        s.len()
    }
}

/// `str::trim_end`: the text without its trailing white space.
#[verifier::external_body]
fn trim_end(s: &str) -> (r: &str)
    ensures
        r@ == s@.take(trimmed_len(s@) as int),
{
    s.trim_end()
}

/// ASCII lower-casing of one character.
pub open spec fn char_ascii_lower(c: char) -> char {
    if 'A' <= c <= 'Z' {
        ((c as u32) + 32) as char
    } else {
        c
    }
}

/// `str::to_ascii_lowercase`: every ASCII upper-case letter lower-cased.
#[verifier::external_body]
fn to_ascii_lowercase(s: &str) -> (r: String)
    ensures
        r@ == lower_chars(s@),
{
    s.to_ascii_lowercase()
}

fn bytes_equal(x: &[u8], y: &[u8]) -> (r: bool)
    ensures
        r == (x@ == y@),
{
    if x.len() != y.len() {
        return false;
    }
    let mut i: usize = 0;
    while i < x.len()
        invariant
            x@.len() == y@.len(),
            i <= x@.len(),
            forall|j: int| 0 <= j < i ==> x@[j] == y@[j],
        decreases x@.len() - i,
    {
        if x[i] != y[i] {
            return false;
        }
        i += 1;
    }
    assert(x@ =~= y@);
    true
}

fn str_eq(a: &str, b: &str) -> (r: bool)
    ensures
        r == (a@ == b@),
{
    let r = bytes_equal(a.as_bytes(), b.as_bytes());
    proof {
        vstd::utf8::encode_utf8_decode_utf8(a@);
        vstd::utf8::encode_utf8_decode_utf8(b@);
    }
    r
}

/// ASCII lower-casing of every character.
pub open spec fn lower_chars(s: Seq<char>) -> Seq<char> {
    s.map_values(|c: char| char_ascii_lower(c))
}

/// The power supply types that count as external supplies.
pub open spec fn external_types() -> Seq<Seq<char>> {
    seq!["mains"@, "usb"@, "usb_c"@, "usb_pd"@, "usb_pd_drp"@, "usb_dcp"@, "usb_aca"@]
}

/// A supply's `type` file names an external supply: mains or one of the USB types,
/// in any case, trailing white space aside.
pub fn is_external_supply_type(type_text: &str) -> (b: bool)
    ensures
        b == external_types().contains(lower_chars(type_text@.take(trimmed_len(type_text@) as int))),
{
    let lower = to_ascii_lowercase(trim_end(type_text));
    let t = lower.as_str();
    let names = ["mains", "usb", "usb_c", "usb_pd", "usb_pd_drp", "usb_dcp", "usb_aca"];
    let mut i: usize = 0;
    while i < 7
        invariant
            i <= 7,
            t@ == lower@,
            lower@ == lower_chars(type_text@.take(trimmed_len(type_text@) as int)),
            names@.len() == 7,
            forall|j: int| 0 <= j < 7 ==> #[trigger] names@[j]@ == external_types()[j],
            forall|j: int| 0 <= j < i ==> external_types()[j] != t@,
        decreases 7 - i,
    {
        if str_eq(t, names[i]) {
            assert(external_types()[i as int] == t@);
            return true;
        }
        i += 1;
    }
    false
}

/// A supply's `online` file says it is online: `1`, trailing white space aside.
pub fn is_online_text(online_text: &str) -> (b: bool)
    ensures
        b == (online_text@.take(trimmed_len(online_text@) as int) == "1"@),
{
    str_eq(trim_end(online_text), "1")
}

} // verus!
