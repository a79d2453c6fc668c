//! Which sync tasks a change event goes to, and pausing.

use vstd::prelude::*;
use crate::config::validation::only_if;
use crate::models::stream_event::Event;
use crate::text::{chars_of, concat3, string_from_chars, texts};
use crate::text_set::TextSet;

verus! {

/// `schema.table`, or the table alone when the schema is empty.
pub open spec fn qualified_name(schema: Seq<char>, table: Seq<char>) -> Seq<char> {
    if schema.len() == 0 {
        table
    } else {
        schema + "."@ + table
    }
}

/// What follows the last `.` (all of it when there is none):
/// `split('.').last()`.
pub open spec fn after_last_dot(s: Seq<char>) -> Seq<char>
    decreases s.len(),
{
    if s.len() == 0 {
        s
    } else if s.last() == '.' {
        Seq::empty()
    } else {
        after_last_dot(s.drop_last()).push(s.last())
    }
}

/// Whether events of the named table are held back.
pub open spec fn table_paused(paused: Set<Seq<char>>, name: Seq<char>) -> bool {
    paused.contains(name) || (name.contains('.') && paused.contains(after_last_dot(name)))
}

/// The tasks an event goes to: the task of its qualified table name, then
/// the task of the bare table name; none for events that are not changes,
/// when everything is paused, or when the table is paused.
pub open spec fn route_targets(
    all_paused: bool,
    paused: Set<Seq<char>>,
    tasks: Set<Seq<char>>,
    e: Event,
) -> Seq<Seq<char>> {
    match e {
        Event::Cdc(c) => {
            let n = qualified_name(c.schema@, c.table@);
            if all_paused || table_paused(paused, n) {
                Seq::empty()
            } else {
                only_if(tasks.contains(n), n) + only_if(
                    n.contains('.') && tasks.contains(after_last_dot(n)),
                    after_last_dot(n),
                )
            }
        },
        _ => Seq::empty(),
    }
}

fn last_segment(s: &String) -> (r: (bool, String))
    ensures
        r.0 == s@.contains('.'),
        r.1@ == after_last_dot(s@),
{
    let cs = chars_of(s.as_str());
    let mut i: usize = cs.len();
    while i > 0 && cs[i - 1] != '.'
        invariant
            i <= cs@.len(),
            cs@ == s@,
            forall|j: int| i <= j < cs@.len() ==> cs@[j] != '.',
        decreases i,
    {
        i = i - 1;
    }
    let mut tail: Vec<char> = Vec::new();
    let mut j: usize = i;
    while j < cs.len()
        invariant
            i <= j <= cs@.len(),
            tail@ == cs@.subrange(i as int, j as int),
        decreases cs@.len() - j,
    {
        tail.push(cs[j]);
        assert(cs@.subrange(i as int, j + 1) =~= cs@.subrange(i as int, j as int).push(cs@[j as int]));
        j = j + 1;
    }
    proof {
        lemma_after_last_dot(s@, i as int);
    }
    let found = i > 0;
    assert(found == s@.contains('.')) by {
        if found {
            assert(s@[i - 1] == '.');
        } else {
            assert forall|k: int| 0 <= k < s@.len() implies s@[k] != '.' by {}
        }
    }
    (found, string_from_chars(tail.as_slice()))
}

proof fn lemma_after_last_dot(s: Seq<char>, i: int)
    requires
        0 <= i <= s.len(),
        i == 0 || s[i - 1] == '.',
        forall|j: int| i <= j < s.len() ==> s[j] != '.',
    ensures
        after_last_dot(s) == s.subrange(i, s.len() as int),
    decreases s.len(),
{
    if s.len() == 0 {
    } else if s.last() == '.' {
        assert(i == s.len());
    } else {
        assert(i < s.len());
        lemma_after_last_dot(s.drop_last(), i);
        assert(s.subrange(i, s.len() as int) =~= s.drop_last().subrange(i, s.len() - 1).push(s.last()));
    }
}

/// The routing and pausing state of the change-event coordinator; the
/// caller keeps each task's channel under its table name.
pub struct CdcCoordinator {
    tasks: TextSet,
    is_paused: bool,
    paused_tables: TextSet,
}

impl CdcCoordinator {
    /// Tables with a registered task.
    pub closed spec fn registered(&self) -> Set<Seq<char>> {
        self.tasks@
    }

    /// Whether everything is paused.
    pub closed spec fn all_paused(&self) -> bool {
        self.is_paused
    }

    /// Tables paused one by one.
    pub closed spec fn paused(&self) -> Set<Seq<char>> {
        self.paused_tables@
    }

    /// The sets are well formed.
    pub closed spec fn wf(&self) -> bool {
        self.tasks.wf() && self.paused_tables.wf()
    }

    /// No tasks, nothing paused.
    pub fn new() -> (r: Self)
        ensures
            r.wf(),
            r.registered() == Set::<Seq<char>>::empty(),
            !r.all_paused(),
            r.paused() == Set::<Seq<char>>::empty(),
    {
        CdcCoordinator { tasks: TextSet::new(), is_paused: false, paused_tables: TextSet::new() }
    }

    /// Registers the task of a table.
    pub fn register_task(&mut self, table_name: String)
        requires
            old(self).wf(),
        ensures
            final(self).wf(),
            final(self).registered() == old(self).registered().insert(table_name@),
            final(self).all_paused() == old(self).all_paused(),
            final(self).paused() == old(self).paused(),
    {
        self.tasks.insert(table_name);
    }

    /// Unregisters the task of a table.
    pub fn unregister_task(&mut self, table_name: &String)
        requires
            old(self).wf(),
        ensures
            final(self).wf(),
            final(self).registered() == old(self).registered().remove(table_name@),
            final(self).all_paused() == old(self).all_paused(),
            final(self).paused() == old(self).paused(),
    {
        self.tasks.remove(table_name);
    }

    /// Holds back every event.
    pub fn pause_all(&mut self)
        ensures
            final(self).all_paused(),
            final(self).registered() == old(self).registered(),
            final(self).paused() == old(self).paused(),
            final(self).wf() == old(self).wf(),
    {
        self.is_paused = true;
    }

    /// Lets events through again.
    pub fn resume_all(&mut self)
        ensures
            !final(self).all_paused(),
            final(self).registered() == old(self).registered(),
            final(self).paused() == old(self).paused(),
            final(self).wf() == old(self).wf(),
    {
        self.is_paused = false;
    }

    /// Whether everything is paused.
    pub fn is_paused(&self) -> (r: bool)
        ensures
            r == self.all_paused(),
    {
        self.is_paused
    }

    /// Holds back the events of a table.
    pub fn pause_table(&mut self, table_name: String)
        requires
            old(self).wf(),
        ensures
            final(self).wf(),
            final(self).paused() == old(self).paused().insert(table_name@),
            final(self).registered() == old(self).registered(),
            final(self).all_paused() == old(self).all_paused(),
    {
        self.paused_tables.insert(table_name);
    }

    /// Lets the events of a table through again.
    pub fn resume_table(&mut self, table_name: &String)
        requires
            old(self).wf(),
        ensures
            final(self).wf(),
            final(self).paused() == old(self).paused().remove(table_name@),
            final(self).registered() == old(self).registered(),
            final(self).all_paused() == old(self).all_paused(),
    {
        self.paused_tables.remove(table_name);
    }

    /// The paused tables, each once.
    pub fn get_paused_tables(&self) -> (r: Vec<String>)
        requires
            self.wf(),
        ensures
            texts(r@).to_set() == self.paused(),
            texts(r@).no_duplicates(),
    {
        self.paused_tables.to_vec()
    }

    /// The tables whose tasks an event goes to, in order.
    pub fn distribute_event(&self, event: &Event) -> (r: Vec<String>)
        ensures
            texts(r@) == route_targets(self.all_paused(), self.paused(), self.registered(), *event),
    {
        let mut r: Vec<String> = Vec::new();
        match event {
            Event::Cdc(c) => {
                let name = if c.schema.as_str().is_empty() {
                    c.table.clone()
                } else {
                    concat3(c.schema.as_str(), ".", c.table.as_str())
                };
                proof {
                    reveal_strlit(".");
                }
                assert(name@ == qualified_name(c.schema@, c.table@));
                let (dotted, tail) = last_segment(&name);
                if self.is_paused || self.paused_tables.contains(&name) || (dotted && self.paused_tables.contains(&tail)) {
                    assert(texts(r@) =~= Seq::<Seq<char>>::empty());
                    return r;
                }
                let ghost first = only_if(self.tasks@.contains(name@), name@);
                if self.tasks.contains(&name) {
                    r.push(name);
                }
                assert(texts(r@) =~= first);
                if dotted && self.tasks.contains(&tail) {
                    let ghost before = texts(r@);
                    r.push(tail);
                    assert(texts(r@) =~= before.push(after_last_dot(qualified_name(c.schema@, c.table@))));
                }
                assert(texts(r@) =~= route_targets(self.is_paused, self.paused_tables@, self.tasks@, *event));
                r
            },
            _ => {
                assert(texts(r@) =~= Seq::<Seq<char>>::empty());
                r
            },
        }
    }
}

proof fn lemma_after_dotted_prefix(p: Seq<char>, t: Seq<char>)
    requires
        p.len() > 0,
        p.last() == '.',
        !t.contains('.'),
    ensures
        after_last_dot(p + t) == t,
    decreases t.len(),
{
    if t.len() == 0 {
        assert(p + t =~= p);
    } else {
        assert((p + t).drop_last() =~= p + t.drop_last());
        assert((p + t).last() == t.last());
        assert(t.last() != '.') by {
            assert(t[t.len() - 1] == t.last());
        }
        assert(!t.drop_last().contains('.')) by {
            if t.drop_last().contains('.') {
                let i = choose|i: int| 0 <= i < t.drop_last().len() && t.drop_last()[i] == '.';
                assert(t[i] == '.');
            }
        }
        lemma_after_dotted_prefix(p, t.drop_last());
        assert(t.drop_last().push(t.last()) =~= t);
    }
}

/// An event of a table in a schema goes to the task registered under the
/// bare table name (a name without a dot) as well as to the one under the
/// qualified name, unless everything or that table is paused.
pub proof fn law_event_reaches_bare_table_task(
    paused: Set<Seq<char>>,
    tasks: Set<Seq<char>>,
    schema: Seq<char>,
    table: Seq<char>,
    e: Event,
)
    requires
        e matches Event::Cdc(c) && c.schema@ == schema && c.table@ == table,
        schema.len() > 0,
        !table.contains('.'),
        !paused.contains(table),
        !paused.contains(schema + "."@ + table),
    ensures
        tasks.contains(table) ==> route_targets(false, paused, tasks, e).contains(table),
        tasks.contains(schema + "."@ + table) ==> route_targets(false, paused, tasks, e).contains(schema + "."@ + table),
        route_targets(true, paused, tasks, e).len() == 0,
{
    reveal_strlit(".");
    let n = schema + "."@ + table;
    let p = schema + "."@;
    assert(p.len() > 0 && p.last() == '.');
    assert(n =~= p + table);
    lemma_after_dotted_prefix(p, table);
    assert(n[schema.len() as int] == '.');
    assert(n.contains('.'));
    let r = route_targets(false, paused, tasks, e);
    if tasks.contains(table) {
        let first = only_if(tasks.contains(n), n);
        assert(r == first + seq![table]);
        assert(r[r.len() - 1] == table);
    }
    if tasks.contains(n) {
        assert(r[0] == n);
    }
}

} // verus!
