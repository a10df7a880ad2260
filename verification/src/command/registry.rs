//! The command registry: handlers by name, and the help built from them.

use vstd::prelude::*;

use crate::text::{
    concat_all, lemma_seq_less_irreflexive, lemma_seq_less_total, lemma_seq_less_trans, owned, push_str, seq_less, str_eq,
    str_less,
};
use crate::ui::{help_menu_spec, owned_pairs};

use super::permission::{display_name_of, Permission};

verus! {

/// Description of a command that gives none.
pub const DEFAULT_DESCRIPTION: &'static str = "暂无描述";

/// What the registry knows of a command.
#[derive(Debug, Clone)]
pub struct CommandInfo {
    /// Name, without the prefix.
    pub name: String,
    /// One-line description.
    pub description: String,
    /// Usage; empty when there is nothing to say.
    pub usage: String,
    /// Level needed to run the command.
    pub permission: Permission,
}

impl CommandInfo {
    /// A command with the default description, no usage, open to anyone.
    pub fn named(name: &str) -> (r: CommandInfo)
        ensures
            r.name@ == name@,
            r.description@ == DEFAULT_DESCRIPTION@,
            r.usage@ == Seq::<char>::empty(),
            r.permission == Permission::Anyone,
    {
        CommandInfo {
            name: owned(name),
            description: owned(DEFAULT_DESCRIPTION),
            usage: String::new(),
            permission: Permission::Anyone,
        }
    }
}

/// Names of the entries.
pub open spec fn entry_names<H>(v: Seq<(CommandInfo, H)>) -> Seq<Seq<char>> {
    v.map_values(|e: (CommandInfo, H)| e.0.name@)
}

/// No name occurs twice.
pub open spec fn distinct_entries<H>(v: Seq<(CommandInfo, H)>) -> bool {
    forall|i: int, j: int| 0 <= i < j < v.len() ==> v[i].0.name@ != v[j].0.name@
}

/// Entries as a map from name.
pub open spec fn entry_map<H>(v: Seq<(CommandInfo, H)>) -> Map<Seq<char>, (CommandInfo, H)>
    decreases v.len(),
{
    if v.len() == 0 {
        Map::empty()
    } else {
        entry_map(v.drop_last()).insert(v.last().0.name@, v.last())
    }
}

proof fn lemma_entry_absent<H>(v: Seq<(CommandInfo, H)>, key: Seq<char>)
    requires
        forall|i: int| 0 <= i < v.len() ==> v[i].0.name@ != key,
    ensures
        !entry_map(v).dom().contains(key),
    decreases v.len(),
{
    if v.len() > 0 {
        lemma_entry_absent(v.drop_last(), key);
    }
}

proof fn lemma_entry_lookup<H>(v: Seq<(CommandInfo, H)>, i: int)
    requires
        distinct_entries(v),
        0 <= i < v.len(),
    ensures
        entry_map(v).dom().contains(v[i].0.name@),
        entry_map(v)[v[i].0.name@] == v[i],
    decreases v.len(),
{
    if i < v.len() - 1 {
        lemma_entry_lookup(v.drop_last(), i);
    }
}

proof fn lemma_entry_update<H>(v: Seq<(CommandInfo, H)>, i: int, e: (CommandInfo, H))
    requires
        distinct_entries(v),
        0 <= i < v.len(),
        e.0.name@ == v[i].0.name@,
    ensures
        entry_map(v.update(i, e)) =~= entry_map(v).insert(e.0.name@, e),
    decreases v.len(),
{
    let w = v.update(i, e);
    if i == v.len() - 1 {
        assert(w.drop_last() =~= v.drop_last());
    } else {
        lemma_entry_update(v.drop_last(), i, e);
        assert(w.drop_last() =~= v.drop_last().update(i, e));
        assert(v.last().0.name@ != v[i].0.name@);
    }
}

proof fn lemma_entry_index<H>(v: Seq<(CommandInfo, H)>, n: Seq<char>) -> (j: int)
    requires
        entry_map(v).dom().contains(n),
    ensures
        0 <= j < v.len(),
        v[j].0.name@ == n,
    decreases v.len(),
{
    if v.last().0.name@ == n {
        v.len() - 1
    } else {
        lemma_entry_index(v.drop_last(), n)
    }
}

/// `ord` lists every position of `names` once, in ascending order of name.
pub open spec fn is_name_order(ord: Seq<usize>, names: Seq<Seq<char>>) -> bool {
    &&& ord.len() == names.len()
    &&& forall|i: int| 0 <= i < ord.len() ==> ord[i] < names.len()
    &&& forall|i: int, j: int| 0 <= i < j < ord.len() ==> ord[i] != ord[j]
    &&& forall|i: int, j: int|
        0 <= i < j < ord.len() ==> seq_less(#[trigger] names[ord[i] as int], #[trigger] names[ord[j] as int])
}

/// The positions of `names` in ascending order of name (see
/// [`law_name_order_unique`]).
pub open spec fn ascending(names: Seq<Seq<char>>) -> Seq<usize> {
    choose|ord: Seq<usize>| is_name_order(ord, names)
}

/// The help entry of a command: name and description, then the usage and
/// the required level where there are any.
pub open spec fn help_entry(c: CommandInfo) -> Seq<char> {
    "**!"@ + c.name@ + "** - "@ + c.description@ + "\n"@ + (if c.usage@.len() > 0 {
        "  用法: "@ + c.usage@ + "\n"@
    } else {
        Seq::empty()
    }) + (if c.permission != Permission::Anyone {
        "  权限: "@ + display_name_of(c.permission) + "\n"@
    } else {
        Seq::empty()
    }) + "\n"@
}

/// The commands in the order `ord`.
pub open spec fn ordered_infos<H>(v: Seq<(CommandInfo, H)>, ord: Seq<usize>) -> Seq<CommandInfo> {
    ord.map_values(|i: usize| v[i as int].0)
}

/// Plain-text help over commands in the given order.
pub open spec fn help_text(infos: Seq<CommandInfo>) -> Seq<char> {
    "可用命令:\n\n"@ + concat_all(infos.map_values(|c: CommandInfo| help_entry(c)))
}

/// Rows of the HTML help: `!{name}` and the description.
pub open spec fn help_pairs(infos: Seq<CommandInfo>) -> Seq<(Seq<char>, Seq<char>)> {
    infos.map_values(|c: CommandInfo| ("!"@ + c.name@, c.description@))
}

/// Registered commands by name; registering a name again replaces the
/// earlier command.
pub struct CommandRegistry<H> {
    handlers: Vec<(CommandInfo, H)>,
}

impl<H> CommandRegistry<H> {
    /// Commands by name.
    pub closed spec fn commands_spec(&self) -> Map<Seq<char>, (CommandInfo, H)> {
        entry_map(self.handlers@)
    }

    /// Internal consistency.
    pub closed spec fn wf(&self) -> bool {
        distinct_entries(self.handlers@)
    }

    /// The entries in registration order.
    pub closed spec fn entries_spec(&self) -> Seq<(CommandInfo, H)> {
        self.handlers@
    }

    /// An empty registry.
    pub fn new() -> (r: Self)
        ensures
            r.wf(),
            r.commands_spec() == Map::<Seq<char>, (CommandInfo, H)>::empty(),
    {
        CommandRegistry { handlers: Vec::new() }
    }

    fn position(&self, name: &str) -> (r: Option<usize>)
        requires
            self.wf(),
        ensures
            match r {
                Some(i) => i < self.handlers@.len() && self.handlers@[i as int].0.name@ == name@,
                None => forall|i: int| 0 <= i < self.handlers@.len() ==> self.handlers@[i].0.name@ != name@,
            },
    {
        let mut i: usize = 0;
        while i < self.handlers.len()
            invariant
                i <= self.handlers.len(),
                forall|j: int| 0 <= j < i ==> self.handlers@[j].0.name@ != name@,
            decreases self.handlers.len() - i,
        {
            if str_eq(self.handlers[i].0.name.as_str(), name) {
                return Some(i);
            }
            i += 1;
        }
        None
    }

    /// Registers a command, replacing one of the same name.
    pub fn register(&mut self, info: CommandInfo, handler: H)
        requires
            old(self).wf(),
        ensures
            final(self).wf(),
            final(self).commands_spec() == old(self).commands_spec().insert(info.name@, (info, handler)),
    {
        let ghost key = info.name@;
        match self.position(info.name.as_str()) {
            Some(i) => {
                let ghost e = (info, handler);
                proof {
                    lemma_entry_update(self.handlers@, i as int, e);
                }
                let ghost before = self.handlers@;
                self.handlers.set(i, (info, handler));
                assert forall|a: int, b: int| 0 <= a < b < self.handlers@.len() implies self.handlers@[a].0.name@
                    != self.handlers@[b].0.name@ by {
                    assert(before[a].0.name@ != before[b].0.name@);
                }
            },
            None => {
                proof {
                    lemma_entry_absent(self.handlers@, key);
                }
                let ghost before = self.handlers@;
                self.handlers.push((info, handler));
                assert(self.handlers@.drop_last() =~= before);
                assert forall|a: int, b: int| 0 <= a < b < self.handlers@.len() implies self.handlers@[a].0.name@
                    != self.handlers@[b].0.name@ by {
                    if b == before.len() {
                        assert(before[a].0.name@ != key);
                    }
                }
            },
        }
    }

    /// The command registered under `name`.
    pub fn get(&self, name: &str) -> (r: Option<&(CommandInfo, H)>)
        requires
            self.wf(),
        ensures
            match r {
                Some(e) => self.commands_spec().dom().contains(name@) && *e == self.commands_spec()[name@],
                None => !self.commands_spec().dom().contains(name@),
            },
    {
        match self.position(name) {
            Some(i) => {
                proof {
                    lemma_entry_lookup(self.handlers@, i as int);
                }
                Some(&self.handlers[i])
            },
            None => {
                proof {
                    lemma_entry_absent(self.handlers@, name@);
                }
                None
            },
        }
    }

    /// Names of the registered commands, each once.
    pub fn commands(&self) -> (r: Vec<String>)
        requires
            self.wf(),
        ensures
            forall|k: int| 0 <= k < r@.len() ==> #[trigger] self.commands_spec().dom().contains(r@[k]@),
            forall|n: Seq<char>| #[trigger] self.commands_spec().dom().contains(n) ==> exists|k: int| 0 <= k < r@.len() && r@[k]@ == n,
            forall|a: int, b: int| 0 <= a < b < r@.len() ==> r@[a]@ != r@[b]@,
    {
        let mut r: Vec<String> = Vec::new();
        let mut i: usize = 0;
        while i < self.handlers.len()
            invariant
                i <= self.handlers.len(),
                self.wf(),
                r@.len() == i,
                forall|k: int| 0 <= k < i ==> r@[k]@ == self.handlers@[k].0.name@,
            decreases self.handlers.len() - i,
        {
            r.push(self.handlers[i].0.name.clone());
            i += 1;
        }
        proof {
            assert forall|k: int| 0 <= k < r@.len() implies #[trigger] self.commands_spec().dom().contains(r@[k]@) by {
                lemma_entry_lookup(self.handlers@, k);
            }
            assert forall|n: Seq<char>| #[trigger] self.commands_spec().dom().contains(n) implies exists|k: int|
                0 <= k < r@.len() && r@[k]@ == n by {
                let j = lemma_entry_index(self.handlers@, n);
                assert(r@[j]@ == n);
            }
        }
        r
    }

    /// Positions of the commands in ascending order of name.
    fn name_order(&self) -> (ord: Vec<usize>)
        requires
            self.wf(),
        ensures
            is_name_order(ord@, entry_names(self.handlers@)),
    {
        let ghost names = entry_names(self.handlers@);
        let mut ord: Vec<usize> = Vec::new();
        let mut i: usize = 0;
        while i < self.handlers.len()
            invariant
                i <= self.handlers.len(),
                self.wf(),
                names == entry_names(self.handlers@),
                names.len() == self.handlers@.len(),
                ord@.len() == i,
                forall|k: int| 0 <= k < ord@.len() ==> ord@[k] < i,
                forall|a: int, b: int| 0 <= a < b < ord@.len() ==> ord@[a] != ord@[b],
                forall|a: int, b: int|
                    0 <= a < b < ord@.len() ==> seq_less(#[trigger] names[ord@[a] as int], #[trigger] names[ord@[b] as int]),
            decreases self.handlers.len() - i,
        {
            let mut p: usize = 0;
            while p < ord.len() && str_less(self.handlers[ord[p]].0.name.as_str(), self.handlers[i].0.name.as_str())
                invariant
                    p <= ord@.len(),
                    i < self.handlers@.len(),
                    names == entry_names(self.handlers@),
                    names.len() == self.handlers@.len(),
                    forall|k: int| 0 <= k < ord@.len() ==> ord@[k] < i,
                    forall|k: int| 0 <= k < p ==> seq_less(#[trigger] names[ord@[k] as int], names[i as int]),
                decreases ord@.len() - p,
            {
                p += 1;
            }
            proof {
                if p < ord@.len() {
                    let q = ord@[p as int] as int;
                    assert(q != i);
                    assert(names[q] != names[i as int]);
                    lemma_seq_less_total(names[q], names[i as int]);
                    assert(seq_less(names[i as int], names[q]));
                    assert forall|k: int| p < k < ord@.len() implies seq_less(names[i as int], #[trigger] names[ord@[k] as int]) by {
                        lemma_seq_less_trans(names[i as int], names[q], names[ord@[k] as int]);
                    }
                }
            }
            let ghost before = ord@;
            ord.insert(p, i);
            assert(ord@ =~= before.insert(p as int, i));
            proof {
                assert forall|a: int, b: int| 0 <= a < b < ord@.len() implies seq_less(
                    #[trigger] names[ord@[a] as int],
                    #[trigger] names[ord@[b] as int],
                ) by {
                    if b < p {
                        assert(ord@[a] == before[a] && ord@[b] == before[b]);
                    } else if b == p {
                        assert(ord@[a] == before[a]);
                    } else if a < p {
                        assert(ord@[a] == before[a] && ord@[b] == before[b - 1]);
                        if p < before.len() {
                            let q = before[p as int] as int;
                            lemma_seq_less_total(names[q], names[i as int]);
                            if b - 1 > p {
                                lemma_seq_less_trans(names[i as int], names[q], names[before[b - 1] as int]);
                            }
                        }
                        lemma_seq_less_trans(names[before[a] as int], names[i as int], names[before[b - 1] as int]);
                    } else if a == p {
                        assert(ord@[b] == before[b - 1]);
                        let q = before[p as int] as int;
                        lemma_seq_less_total(names[q], names[i as int]);
                        if b - 1 > p {
                            lemma_seq_less_trans(names[i as int], names[q], names[before[b - 1] as int]);
                        }
                    } else {
                        assert(ord@[a] == before[a - 1] && ord@[b] == before[b - 1]);
                    }
                }
                assert forall|a: int, b: int| 0 <= a < b < ord@.len() implies ord@[a] != ord@[b] by {
                    if b < p {
                    } else if b == p {
                        assert(ord@[a] == before[a]);
                    } else if a < p {
                        assert(ord@[a] == before[a] && ord@[b] == before[b - 1]);
                    } else if a == p {
                        assert(ord@[b] == before[b - 1]);
                    } else {
                        assert(ord@[a] == before[a - 1] && ord@[b] == before[b - 1]);
                    }
                }
            }
            i += 1;
        }
        ord
    }

    /// Plain-text help: every command, in ascending order of name, with its
    /// description, usage and required level.
    pub fn generate_help(&self) -> (r: String)
        requires
            self.wf(),
        ensures
            r@ == help_text(ordered_infos(self.entries_spec(), ascending(entry_names(self.entries_spec())))),
            is_name_order(ascending(entry_names(self.entries_spec())), entry_names(self.entries_spec())),
    {
        let ord = self.name_order();
        let ghost infos = ordered_infos(self.handlers@, ord@);
        let ghost entries = infos.map_values(|c: CommandInfo| help_entry(c));
        let mut out = owned("可用命令:\n\n");
        let ghost head = out@;
        let mut k: usize = 0;
        while k < ord.len()
            invariant
                k <= ord@.len(),
                is_name_order(ord@, entry_names(self.handlers@)),
                infos == ordered_infos(self.handlers@, ord@),
                entries == infos.map_values(|c: CommandInfo| help_entry(c)),
                out@ == head + concat_all(entries.take(k as int)),
            decreases ord@.len() - k,
        {
            let c = &self.handlers[ord[k]].0;
            let mut e = owned("**!");
            push_str(&mut e, c.name.as_str());
            push_str(&mut e, "** - ");
            push_str(&mut e, c.description.as_str());
            push_str(&mut e, "\n");
            if !c.usage.as_str().is_empty() {
                push_str(&mut e, "  用法: ");
                push_str(&mut e, c.usage.as_str());
                push_str(&mut e, "\n");
            }
            let is_anyone = match c.permission {
                Permission::Anyone => true,
                _ => false,
            };
            if !is_anyone {
                push_str(&mut e, "  权限: ");
                push_str(&mut e, c.permission.display_name());
                push_str(&mut e, "\n");
            }
            push_str(&mut e, "\n");
            proof {
                assert(infos[k as int] == *c);
                assert(e@ =~= entries[k as int]);
                crate::ui::lemma_concat_all_push(entries, k as int);
            }
            push_str(&mut out, e.as_str());
            assert(out@ =~= head + concat_all(entries.take(k + 1)));
            k += 1;
        }
        assert(entries.take(ord@.len() as int) =~= entries);
        proof {
            lemma_ascending_is(ord@, entry_names(self.entries_spec()));
        }
        out
    }

    /// HTML help menu: `!{name}` and description of every command, in
    /// ascending order of name.
    pub fn generate_help_html(&self) -> (r: String)
        requires
            self.wf(),
        ensures
            r@ == help_menu_spec(
                help_pairs(ordered_infos(self.entries_spec(), ascending(entry_names(self.entries_spec())))),
            ),
            is_name_order(ascending(entry_names(self.entries_spec())), entry_names(self.entries_spec())),
    {
        let ord = self.name_order();
        let ghost infos = ordered_infos(self.handlers@, ord@);
        let mut items: Vec<(String, String)> = Vec::new();
        let mut k: usize = 0;
        while k < ord.len()
            invariant
                k <= ord@.len(),
                is_name_order(ord@, entry_names(self.handlers@)),
                infos == ordered_infos(self.handlers@, ord@),
                owned_pairs(items@) =~= help_pairs(infos).take(k as int),
            decreases ord@.len() - k,
        {
            let c = &self.handlers[ord[k]].0;
            let mut n = owned("!");
            push_str(&mut n, c.name.as_str());
            let ghost before = items@;
            items.push((n, c.description.clone()));
            assert(infos[k as int] == *c);
            assert(owned_pairs(items@) =~= owned_pairs(before).push(help_pairs(infos)[k as int]));
            assert(help_pairs(infos).take(k + 1) =~= help_pairs(infos).take(k as int).push(help_pairs(infos)[k as int]));
            k += 1;
        }
        assert(help_pairs(infos).take(ord@.len() as int) =~= help_pairs(infos));
        let r = crate::ui::help_menu_owned(&items);
        proof {
            lemma_ascending_is(ord@, entry_names(self.entries_spec()));
        }
        r
    }
}

/// Registering a command and then looking its name up finds that command
/// and its handler; every other name finds what it found before.
pub proof fn law_register_then_get<H>(
    before: CommandRegistry<H>,
    after: CommandRegistry<H>,
    info: CommandInfo,
    handler: H,
    other: Seq<char>,
)
    requires
        after.commands_spec() == before.commands_spec().insert(info.name@, (info, handler)),
        other != info.name@,
    ensures
        after.commands_spec().dom().contains(info.name@),
        after.commands_spec()[info.name@] == (info, handler),
        after.commands_spec().dom().contains(other) == before.commands_spec().dom().contains(other),
        before.commands_spec().dom().contains(other) ==> after.commands_spec()[other]
            == before.commands_spec()[other],
{
}

/// Every position of `names` occurs in a name order.
proof fn lemma_order_covers(o: Seq<usize>, names: Seq<Seq<char>>, i: int) -> (p: int)
    requires
        is_name_order(o, names),
        0 <= i < names.len(),
    ensures
        0 <= p < o.len(),
        o[p] == i,
{
    broadcast use vstd::seq_lib::seq_to_set_is_finite;

    let n = names.len() as int;
    let m = o.map_values(|x: usize| x as int);
    assert(m.no_duplicates()) by {
        assert forall|x: int, y: int| 0 <= x < m.len() && 0 <= y < m.len() && x != y implies m[x] != m[y] by {
            if x < y {
                assert(o[x] != o[y]);
            } else {
                assert(o[y] != o[x]);
            }
        }
    }
    m.unique_seq_to_set();
    let s = m.to_set();
    let r = vstd::set_lib::set_int_range(0, n);
    vstd::set_lib::lemma_int_range(0, n);
    assert(s.subset_of(r)) by {
        assert forall|x: int| s.contains(x) implies r.contains(x) by {
            assert(m.contains(x));
            let k = choose|k: int| 0 <= k < m.len() && m[k] == x;
            assert(o[k] < names.len());
        }
    }
    vstd::set_lib::lemma_subset_equality(s, r);
    assert(r.contains(i));
    assert(s.contains(i));
    assert(m.contains(i));
    let p = choose|p: int| 0 <= p < m.len() && m[p] == i;
    p
}

proof fn lemma_orders_agree_upto(o1: Seq<usize>, o2: Seq<usize>, names: Seq<Seq<char>>, k: int)
    requires
        is_name_order(o1, names),
        is_name_order(o2, names),
        0 <= k <= o1.len(),
    ensures
        forall|q: int| 0 <= q < k ==> o1[q] == o2[q],
    decreases k,
{
    if k > 0 {
        lemma_orders_agree_upto(o1, o2, names, k - 1);
        let j = k - 1;
        let a = o1[j];
        let b = o2[j];
        if a != b {
            let p = lemma_order_covers(o1, names, b as int);
            let p2 = lemma_order_covers(o2, names, a as int);
            if p < j {
                assert(o2[p] == o1[p]);
                assert(o2[p] != o2[j]);
            }
            if p2 < j {
                assert(o1[p2] == o2[p2]);
                assert(o1[p2] != o1[j]);
            }
            assert(j < p && j < p2);
            assert(seq_less(names[o1[j] as int], names[o1[p] as int]));
            assert(seq_less(names[o2[j] as int], names[o2[p2] as int]));
            lemma_seq_less_trans(names[a as int], names[b as int], names[a as int]);
            lemma_seq_less_irreflexive(names[a as int]);
        }
    }
}

/// Names in ascending order are listed in one way only: two orders that
/// each list every command once, in ascending order of name, are the same,
/// so the help of a registry is one determined text.
pub proof fn law_name_order_unique(o1: Seq<usize>, o2: Seq<usize>, names: Seq<Seq<char>>)
    requires
        is_name_order(o1, names),
        is_name_order(o2, names),
    ensures
        o1 == o2,
{
    lemma_orders_agree_upto(o1, o2, names, o1.len() as int);
    assert(o1 =~= o2);
}

/// A name order is the ascending order.
proof fn lemma_ascending_is(ord: Seq<usize>, names: Seq<Seq<char>>)
    requires
        is_name_order(ord, names),
    ensures
        ascending(names) == ord,
{
    let c = ascending(names);
    assert(is_name_order(c, names));
    law_name_order_unique(ord, c, names);
}

proof fn lemma_entry_len<H>(v: Seq<(CommandInfo, H)>)
    requires
        distinct_entries(v),
    ensures
        entry_map(v).dom().finite(),
        entry_map(v).dom().len() == v.len(),
    decreases v.len(),
{
    if v.len() > 0 {
        let u = v.drop_last();
        assert(distinct_entries(u));
        lemma_entry_len(u);
        assert forall|i: int| 0 <= i < u.len() implies u[i].0.name@ != v.last().0.name@ by {
            assert(v[i].0.name@ != v[v.len() - 1].0.name@);
        }
        lemma_entry_absent(u, v.last().0.name@);
    }
}

/// Where in `o`, sorted by name, the name `x` belongs, searching from `from`.
proof fn lemma_insert_point(o: Seq<usize>, names: Seq<Seq<char>>, x: Seq<char>, from: int) -> (p: int)
    requires
        forall|i: int, j: int|
            0 <= i < j < o.len() ==> seq_less(#[trigger] names[o[i] as int], #[trigger] names[o[j] as int]),
        forall|k: int| 0 <= k < o.len() ==> names[o[k] as int] != x,
        0 <= from <= o.len(),
        forall|k: int| 0 <= k < from ==> seq_less(#[trigger] names[o[k] as int], x),
    ensures
        from <= p <= o.len(),
        forall|k: int| 0 <= k < p ==> seq_less(#[trigger] names[o[k] as int], x),
        forall|k: int| p <= k < o.len() ==> seq_less(x, #[trigger] names[o[k] as int]),
    decreases o.len() - from,
{
    if from == o.len() {
        from
    } else {
        let y = names[o[from] as int];
        lemma_seq_less_total(y, x);
        if seq_less(y, x) {
            lemma_insert_point(o, names, x, from + 1)
        } else {
            assert forall|k: int| from <= k < o.len() implies seq_less(x, #[trigger] names[o[k] as int]) by {
                if k > from {
                    lemma_seq_less_trans(x, y, names[o[k] as int]);
                }
            }
            from
        }
    }
}

/// Distinct names can be put in ascending order.
proof fn lemma_order_exists(names: Seq<Seq<char>>) -> (ord: Seq<usize>)
    requires
        forall|i: int, j: int| 0 <= i < j < names.len() ==> names[i] != names[j],
        names.len() <= usize::MAX,
    ensures
        is_name_order(ord, names),
    decreases names.len(),
{
    if names.len() == 0 {
        Seq::empty()
    } else {
        let n = names.len() - 1;
        let init = names.drop_last();
        let o = lemma_order_exists(init);
        let x = names[n];
        assert forall|k: int| 0 <= k < o.len() implies names[o[k] as int] != x by {
            assert(init[o[k] as int] == names[o[k] as int]);
        }
        assert forall|i: int, j: int| 0 <= i < j < o.len() implies seq_less(
            #[trigger] names[o[i] as int],
            #[trigger] names[o[j] as int],
        ) by {
            assert(seq_less(init[o[i] as int], init[o[j] as int]));
        }
        let p = lemma_insert_point(o, names, x, 0);
        let ord = o.take(p).push(n as usize) + o.skip(p);
        assert forall|i: int| 0 <= i < ord.len() implies ord[i] == (if i < p {
            o[i]
        } else if i == p {
            n as usize
        } else {
            o[i - 1]
        }) by {}
        assert forall|i: int| 0 <= i < ord.len() implies ord[i] < names.len() by {}
        assert forall|i: int, j: int| 0 <= i < j < ord.len() implies ord[i] != ord[j] by {
            if i != p && j != p {
                let a = if i < p { i } else { i - 1 };
                let b = if j < p { j } else { j - 1 };
                assert(o[a] != o[b]);
            }
        }
        assert forall|i: int, j: int| 0 <= i < j < ord.len() implies seq_less(
            #[trigger] names[ord[i] as int],
            #[trigger] names[ord[j] as int],
        ) by {
            let a = if i < p { i } else { i - 1 };
            let b = if j < p { j } else { j - 1 };
            if i == p {
                assert(seq_less(x, names[o[b] as int]));
            } else if j == p {
                assert(seq_less(names[o[a] as int], x));
            } else {
                assert(seq_less(names[o[a] as int], names[o[b] as int]));
            }
        }
        ord
    }
}

/// Index of the entry named `n`.
spec fn position_in<H>(v: Seq<(CommandInfo, H)>, n: Seq<char>) -> int {
    choose|j: int| 0 <= j < v.len() && v[j].0.name@ == n
}

proof fn lemma_position_in<H>(v: Seq<(CommandInfo, H)>, n: Seq<char>)
    requires
        entry_map(v).dom().contains(n),
    ensures
        0 <= position_in(v, n) < v.len(),
        v[position_in(v, n)].0.name@ == n,
{
    let j = lemma_entry_index(v, n);
    assert(0 <= j < v.len() && v[j].0.name@ == n);
}

/// The help lists the same commands in the same order whatever the order in
/// which they were registered: two registries holding the same commands
/// give the same help.
pub proof fn law_help_ignores_registration_order<H>(r1: CommandRegistry<H>, r2: CommandRegistry<H>)
    requires
        r1.wf(),
        r2.wf(),
        r1.commands_spec() == r2.commands_spec(),
    ensures
        ordered_infos(r1.entries_spec(), ascending(entry_names(r1.entries_spec()))) == ordered_infos(
            r2.entries_spec(),
            ascending(entry_names(r2.entries_spec())),
        ),
        help_text(ordered_infos(r1.entries_spec(), ascending(entry_names(r1.entries_spec())))) == help_text(
            ordered_infos(r2.entries_spec(), ascending(entry_names(r2.entries_spec()))),
        ),
        help_menu_spec(help_pairs(ordered_infos(r1.entries_spec(), ascending(entry_names(r1.entries_spec())))))
            == help_menu_spec(help_pairs(ordered_infos(r2.entries_spec(), ascending(entry_names(r2.entries_spec()))))),
{
    let e1 = r1.handlers@;
    let e2 = r2.handlers@;
    let n1 = entry_names(e1);
    let n2 = entry_names(e2);
    assert(r1.handlers.len() == e1.len() && r2.handlers.len() == e2.len());
    assert forall|i: int, j: int| 0 <= i < j < n1.len() implies n1[i] != n1[j] by {
        assert(e1[i].0.name@ != e1[j].0.name@);
    }
    assert forall|i: int, j: int| 0 <= i < j < n2.len() implies n2[i] != n2[j] by {
        assert(e2[i].0.name@ != e2[j].0.name@);
    }
    let o1 = lemma_order_exists(n1);
    let o2 = lemma_order_exists(n2);
    lemma_ascending_is(o1, n1);
    lemma_ascending_is(o2, n2);
    lemma_entry_len(e1);
    lemma_entry_len(e2);
    assert(e1.len() == e2.len());
    assert forall|i: int| 0 <= i < e1.len() implies {
        &&& 0 <= #[trigger] position_in(e2, n1[i]) < e2.len()
        &&& e2[position_in(e2, n1[i])] == e1[i]
    } by {
        lemma_entry_lookup(e1, i);
        lemma_position_in(e2, n1[i]);
        lemma_entry_lookup(e2, position_in(e2, n1[i]));
    }
    let o = Seq::new(o1.len(), |k: int| position_in(e2, n1[o1[k] as int]) as usize);
    assert forall|k: int| 0 <= k < o.len() implies o[k] < n2.len() && n2[#[trigger] o[k] as int] == n1[o1[k] as int] by {
        assert(0 <= position_in(e2, n1[o1[k] as int]) < e2.len());
    }
    assert forall|i: int, j: int| 0 <= i < j < o.len() implies seq_less(
        #[trigger] n2[o[i] as int],
        #[trigger] n2[o[j] as int],
    ) by {
        assert(seq_less(n1[o1[i] as int], n1[o1[j] as int]));
    }
    assert forall|i: int, j: int| 0 <= i < j < o.len() implies o[i] != o[j] by {
        assert(seq_less(n1[o1[i] as int], n1[o1[j] as int]));
        if o[i] == o[j] {
            lemma_seq_less_irreflexive(n1[o1[i] as int]);
        }
    }
    assert(is_name_order(o, n2));
    law_name_order_unique(o, o2, n2);
    assert(ordered_infos(e1, o1) =~= ordered_infos(e2, o2));
}

} // verus!
