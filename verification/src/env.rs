//! The interpreter's working state: three name-to-value mappings —
//! builtins, declared functions, variables — each modelled as a
//! `Map<Seq<char>, _>` over an association vector.
//!
//! The variable store keeps its keys unique and updates in place, so that
//! a loop body's scope can be opened by remembering the store's length
//! and closed by truncating back to it: names declared inside the scope
//! disappear, while updates to names declared before it remain. The
//! function store appends on every declaration and reads from the end,
//! so truncating restores exactly the mapping the scope started with.

use vstd::prelude::*;

use crate::ast::{block_view, params_view, Block, Expression, ExpressionV, Identifier, Parameter,
    StatementV};
use crate::stdlib::Std;

verus! {

/// The mapping that the association entries `s` denote: each key maps to
/// the value of its last entry.
pub open spec fn assoc_map<V>(s: Seq<(Seq<char>, V)>) -> Map<Seq<char>, V>
    decreases s.len(),
{
    if s.len() == 0 {
        Map::empty()
    } else {
        assoc_map(s.drop_last()).insert(s.last().0, s.last().1)
    }
}

/// A key is in the mapping exactly when some entry bears it.
pub proof fn lemma_assoc_contains<V>(s: Seq<(Seq<char>, V)>, k: Seq<char>)
    ensures
        assoc_map(s).contains_key(k) <==> exists|i: int| 0 <= i < s.len() && s[i].0 == k,
    decreases s.len(),
{
    if s.len() > 0 {
        lemma_assoc_contains(s.drop_last(), k);
        if s.last().0 == k {
            assert(s[s.len() - 1].0 == k);
        } else if assoc_map(s).contains_key(k) {
            let i = choose|i: int| 0 <= i < s.len() - 1 && s.drop_last()[i].0 == k;
            assert(s[i].0 == k);
        } else {
            assert(forall|i: int| 0 <= i < s.len() - 1 ==> s.drop_last()[i] == #[trigger] s[i]);
        }
    }
}

/// An entry whose key no later entry repeats gives that key's value.
pub proof fn lemma_assoc_value<V>(s: Seq<(Seq<char>, V)>, i: int)
    requires
        0 <= i < s.len(),
        forall|j: int| i < j < s.len() ==> s[j].0 != s[i].0,
    ensures
        assoc_map(s).contains_key(s[i].0),
        assoc_map(s)[s[i].0] == s[i].1,
    decreases s.len(),
{
    if i == s.len() - 1 {
        assert(s.last() == s[i]);
    } else {
        assert(forall|j: int| 0 <= j < s.len() - 1 ==> s.drop_last()[j] == #[trigger] s[j]);
        lemma_assoc_value(s.drop_last(), i);
        assert(s.last().0 != s[i].0);
    }
}

/// Replacing the value of an entry whose key no later entry repeats
/// updates the mapping at that key alone.
pub proof fn lemma_assoc_update<V>(s: Seq<(Seq<char>, V)>, i: int, v: V)
    requires
        0 <= i < s.len(),
        forall|j: int| i < j < s.len() ==> s[j].0 != s[i].0,
    ensures
        assoc_map(s.update(i, (s[i].0, v))) == assoc_map(s).insert(s[i].0, v),
    decreases s.len(),
{
    let s2 = s.update(i, (s[i].0, v));
    if i == s.len() - 1 {
        assert(s2.drop_last() =~= s.drop_last());
        assert(s2.last() == (s[i].0, v));
        assert(assoc_map(s2) =~= assoc_map(s).insert(s[i].0, v));
    } else {
        assert(forall|j: int| 0 <= j < s.len() - 1 ==> s.drop_last()[j] == #[trigger] s[j]);
        lemma_assoc_update(s.drop_last(), i, v);
        assert(s2.drop_last() =~= s.drop_last().update(i, (s[i].0, v)));
        assert(s2.last() == s.last());
        assert(s.last().0 != s[i].0);
        assert(assoc_map(s2) =~= assoc_map(s).insert(s[i].0, v));
    }
}

/// When every entry at or past `n` bears a key that no entry before `n`
/// bears, truncating to `n` restricts the mapping to the first `n` keys.
pub proof fn lemma_assoc_truncate<V>(s: Seq<(Seq<char>, V)>, n: int)
    requires
        0 <= n <= s.len(),
        forall|i: int, j: int| #![trigger s[i].0, s[j].0] 0 <= i < n <= j < s.len() ==> s[i].0
            != s[j].0,
    ensures
        assoc_map(s.take(n)) == assoc_map(s).restrict(
            Seq::new(n as nat, |i: int| s[i].0).to_set(),
        ),
    decreases s.len() - n,
{
    let keys = Seq::new(n as nat, |i: int| s[i].0).to_set();
    if n == s.len() {
        assert(s.take(n) =~= s);
        assert forall|k: Seq<char>| assoc_map(s).contains_key(k) implies keys.contains(k) by {
            lemma_assoc_contains(s, k);
            let i = choose|i: int| 0 <= i < s.len() && s[i].0 == k;
            assert(Seq::new(n as nat, |i: int| s[i].0)[i] == k);
            assert(Seq::new(n as nat, |i: int| s[i].0).contains(k));
        }
        assert(assoc_map(s.take(n)) =~= assoc_map(s).restrict(keys));
    } else {
        assert(forall|j: int| 0 <= j < s.len() - 1 ==> s.drop_last()[j] == #[trigger] s[j]);
        lemma_assoc_truncate(s.drop_last(), n);
        assert(s.drop_last().take(n) =~= s.take(n));
        assert(Seq::new(n as nat, |i: int| s.drop_last()[i].0) =~= Seq::new(
            n as nat,
            |i: int| s[i].0,
        ));
        let ks = Seq::new(n as nat, |i: int| s[i].0);
        assert(!keys.contains(s.last().0)) by {
            if ks.contains(s.last().0) {
                let i = choose|i: int| 0 <= i < ks.len() && ks[i] == s.last().0;
                assert(s[i].0 == s[s.len() - 1].0);
            }
        }
        assert(assoc_map(s.take(n)) =~= assoc_map(s).restrict(keys));
    }
}

/// A user-declared function value: its parameter list and its body block.
#[derive(Debug, PartialEq)]
pub enum Program {
    Fn { params: Vec<Parameter>, body: Block },
}

/// The model of a function value.
pub struct ProgramV {
    pub params: Seq<Seq<char>>,
    pub body: Seq<StatementV>,
}

impl View for Program {
    type V = ProgramV;

    open spec fn view(&self) -> ProgramV {
        match self {
            Program::Fn { params, body } => ProgramV {
                params: params_view(params@),
                body: block_view(body@),
            },
        }
    }
}

impl Program {
    /// A copy of this function value whose model equals this one's.
    pub fn duplicate(&self) -> (r: Program)
        ensures
            r@ == self@,
    {
        match self {
            Program::Fn { params, body } => Program::Fn {
                params: crate::ast::duplicate_parameters(params),
                body: crate::ast::duplicate_block(body),
            },
        }
    }
}

/// The variable mapping of one scope: name to last-evaluated value, keys
/// unique, existing names updated in place and new names appended.
#[derive(Debug)]
pub struct VarStore {
    pub entries: Vec<(Identifier, Expression)>,
}

impl View for VarStore {
    type V = Map<Seq<char>, ExpressionV>;

    open spec fn view(&self) -> Map<Seq<char>, ExpressionV> {
        assoc_map(self.entry_seq())
    }
}

impl VarStore {
    /// The entries of this store at the model level, oldest first.
    pub open spec fn entry_seq(self) -> Seq<(Seq<char>, ExpressionV)> {
        Seq::new(self.entries@.len(), |i: int| (self.entries@[i].0@, self.entries@[i].1@))
    }

    /// The declared names, oldest first.
    pub open spec fn key_seq(self) -> Seq<Seq<char>> {
        Seq::new(self.entries@.len(), |i: int| self.entries@[i].0@)
    }

    /// Every name is declared once.
    pub open spec fn wf(self) -> bool {
        forall|i: int, j: int|
            #![trigger self.key_seq()[i], self.key_seq()[j]]
            0 <= i < j < self.key_seq().len() ==> self.key_seq()[i] != self.key_seq()[j]
    }

    /// The mapping's domain is exactly the declared names.
    pub proof fn lemma_dom(self)
        ensures
            self@.dom() == self.key_seq().to_set(),
    {
        assert forall|k: Seq<char>| self@.dom().contains(k) <==> self.key_seq().to_set().contains(
            k,
        ) by {
            lemma_assoc_contains(self.entry_seq(), k);
            if self@.dom().contains(k) {
                let i = choose|i: int|
                    0 <= i < self.entry_seq().len() && self.entry_seq()[i].0 == k;
                assert(self.key_seq()[i] == k);
            }
            if self.key_seq().to_set().contains(k) {
                let i = choose|i: int| 0 <= i < self.key_seq().len() && self.key_seq()[i] == k;
                assert(self.entry_seq()[i].0 == k);
            }
        }
        assert(self@.dom() =~= self.key_seq().to_set());
    }

    /// An empty store.
    pub fn new() -> (r: Self)
        ensures
            r@ == Map::<Seq<char>, ExpressionV>::empty(),
            r.wf(),
            r.key_seq() == Seq::<Seq<char>>::empty(),
    {
        let r = VarStore { entries: Vec::new() };
        proof {
            assert(r.entry_seq() =~= Seq::<(Seq<char>, ExpressionV)>::empty());
            assert(r.key_seq() =~= Seq::<Seq<char>>::empty());
        }
        r
    }

    /// How many names are declared.
    pub fn depth(&self) -> (n: usize)
        ensures
            n as int == self.key_seq().len(),
    {
        self.entries.len()
    }

    /// The index of `name`'s entry, if any is declared.
    fn index_of(&self, name: &String) -> (r: Option<usize>)
        ensures
            match r {
                Some(i) => i < self.entry_seq().len() && self.entry_seq()[i as int].0 == name@
                    && forall|j: int|
                        i < j < self.entry_seq().len() ==> self.entry_seq()[j].0 != name@,
                None => !self@.contains_key(name@),
            },
    {
        let mut i: usize = self.entries.len();
        while i > 0
            invariant
                i <= self.entries@.len(),
                forall|j: int|
                    i as int <= j < self.entry_seq().len() ==> self.entry_seq()[j].0 != name@,
            decreases i,
        {
            i = i - 1;
            if self.entries[i].0 == *name {
                return Some(i);
            }
        }
        proof {
            lemma_assoc_contains(self.entry_seq(), name@);
        }
        None
    }

    /// The value bound to `name`, if it is declared.
    pub fn get(&self, name: &String) -> (r: Option<&Expression>)
        ensures
            match r {
                Some(e) => self@.contains_key(name@) && e@ == self@[name@],
                None => !self@.contains_key(name@),
            },
    {
        match self.index_of(name) {
            Some(i) => {
                proof {
                    lemma_assoc_value(self.entry_seq(), i as int);
                }
                Some(&self.entries[i].1)
            },
            None => None,
        }
    }

    /// True when `name` is declared.
    pub fn contains(&self, name: &String) -> (r: bool)
        ensures
            r == self@.contains_key(name@),
    {
        match self.index_of(name) {
            Some(_) => {
                proof {
                    lemma_assoc_contains(self.entry_seq(), name@);
                }
                true
            },
            None => false,
        }
    }

    /// Binds `name` to `value`: in place when `name` is declared, at the
    /// end when it is new.
    pub fn set(&mut self, name: Identifier, value: Expression)
        requires
            old(self).wf(),
        ensures
            final(self).wf(),
            final(self)@ == old(self)@.insert(name@, value@),
            old(self)@.contains_key(name@) ==> final(self).key_seq() == old(self).key_seq(),
            !old(self)@.contains_key(name@) ==> final(self).key_seq() == old(self).key_seq().push(
                name@,
            ),
    {
        let ghost old_entries = self.entry_seq();
        match self.index_of(&name) {
            Some(i) => {
                self.entries[i] = (name, value);
                proof {
                    assert(self.entry_seq() =~= old_entries.update(
                        i as int,
                        (old_entries[i as int].0, value@),
                    ));
                    lemma_assoc_update(old_entries, i as int, value@);
                    lemma_assoc_contains(old_entries, old_entries[i as int].0);
                    assert(self.key_seq() =~= old(self).key_seq());
                }
            },
            None => {
                self.entries.push((name, value));
                proof {
                    assert(self.entry_seq().drop_last() =~= old_entries);
                    assert(self.entry_seq().last() == (name@, value@));
                    assert(self.key_seq() =~= old(self).key_seq().push(name@));
                    lemma_assoc_contains(old_entries, name@);
                    assert forall|i: int, j: int|
                        #![trigger self.key_seq()[i], self.key_seq()[j]]
                        0 <= i < j < self.key_seq().len() implies self.key_seq()[i]
                        != self.key_seq()[j] by {
                        if j == self.key_seq().len() - 1 {
                            assert(old(self).key_seq()[i] == self.key_seq()[i]);
                            assert(!old(self)@.contains_key(name@));
                            lemma_assoc_contains(old_entries, old_entries[i].0);
                        } else {
                            assert(old(self).key_seq()[i] == self.key_seq()[i]);
                            assert(old(self).key_seq()[j] == self.key_seq()[j]);
                        }
                    }
                }
            },
        }
    }

    /// Closes a scope opened when the store held `n` names: every later
    /// name disappears; the first `n` names keep their current values.
    pub fn truncate(&mut self, n: usize)
        requires
            old(self).wf(),
            n as int <= old(self).key_seq().len(),
        ensures
            final(self).wf(),
            final(self).key_seq() == old(self).key_seq().take(n as int),
            final(self)@ == old(self)@.restrict(old(self).key_seq().take(n as int).to_set()),
    {
        let ghost old_entries = self.entry_seq();
        self.entries.truncate(n);
        proof {
            assert(self.entry_seq() =~= old_entries.take(n as int));
            assert(self.key_seq() =~= old(self).key_seq().take(n as int));
            assert forall|i: int, j: int|
                #![trigger old_entries[i].0, old_entries[j].0]
                0 <= i < n as int <= j < old_entries.len() implies old_entries[i].0
                != old_entries[j].0 by {
                assert(old(self).key_seq()[i] == old_entries[i].0);
                assert(old(self).key_seq()[j] == old_entries[j].0);
            }
            lemma_assoc_truncate(old_entries, n as int);
            assert(Seq::new(n as nat, |i: int| old_entries[i].0) =~= old(self).key_seq().take(
                n as int,
            ));
        }
    }
}

/// The declared-function mapping: name to parameters and body. Every
/// declaration appends; lookups read the newest entry first.
#[derive(Debug)]
pub struct FuncStore {
    pub entries: Vec<(Identifier, Program)>,
}

impl View for FuncStore {
    type V = Map<Seq<char>, ProgramV>;

    open spec fn view(&self) -> Map<Seq<char>, ProgramV> {
        assoc_map(self.entry_seq())
    }
}

impl FuncStore {
    /// The entries of this store at the model level, oldest first.
    pub open spec fn entry_seq(self) -> Seq<(Seq<char>, ProgramV)> {
        Seq::new(self.entries@.len(), |i: int| (self.entries@[i].0@, self.entries@[i].1@))
    }

    /// An empty store.
    pub fn new() -> (r: Self)
        ensures
            r@ == Map::<Seq<char>, ProgramV>::empty(),
            r.entry_seq() == Seq::<(Seq<char>, ProgramV)>::empty(),
    {
        let r = FuncStore { entries: Vec::new() };
        proof {
            assert(r.entry_seq() =~= Seq::<(Seq<char>, ProgramV)>::empty());
        }
        r
    }

    /// How many declarations the store holds.
    pub fn depth(&self) -> (n: usize)
        ensures
            n as int == self.entry_seq().len(),
    {
        self.entries.len()
    }

    /// The newest function declared under `name`, if any is.
    pub fn get(&self, name: &String) -> (r: Option<&Program>)
        ensures
            match r {
                Some(p) => self@.contains_key(name@) && p@ == self@[name@],
                None => !self@.contains_key(name@),
            },
    {
        let mut i: usize = self.entries.len();
        while i > 0
            invariant
                i <= self.entries@.len(),
                forall|j: int|
                    i as int <= j < self.entry_seq().len() ==> self.entry_seq()[j].0 != name@,
            decreases i,
        {
            i = i - 1;
            if self.entries[i].0 == *name {
                proof {
                    lemma_assoc_value(self.entry_seq(), i as int);
                }
                return Some(&self.entries[i].1);
            }
        }
        proof {
            lemma_assoc_contains(self.entry_seq(), name@);
        }
        None
    }

    /// True when some function is declared under `name`.
    pub fn contains(&self, name: &String) -> (r: bool)
        ensures
            r == self@.contains_key(name@),
    {
        match self.get(name) {
            Some(_) => true,
            None => false,
        }
    }

    /// Declares `program` under `name`, shadowing any earlier declaration.
    pub fn set(&mut self, name: Identifier, program: Program)
        ensures
            final(self).entry_seq() == old(self).entry_seq().push((name@, program@)),
            final(self)@ == old(self)@.insert(name@, program@),
    {
        let ghost old_entries = self.entry_seq();
        let ghost pv = program@;
        self.entries.push((name, program));
        proof {
            assert(self.entry_seq() =~= old_entries.push((name@, pv)));
            assert(self.entry_seq().drop_last() =~= old_entries);
        }
    }

    /// Closes a scope opened when the store held `n` declarations,
    /// restoring exactly the mapping of that moment.
    pub fn truncate(&mut self, n: usize)
        requires
            n as int <= old(self).entry_seq().len(),
        ensures
            final(self).entry_seq() == old(self).entry_seq().take(n as int),
    {
        let ghost old_entries = self.entry_seq();
        self.entries.truncate(n);
        proof {
            assert(self.entry_seq() =~= old_entries.take(n as int));
        }
    }
}

/// The builtin registry: name to host operation, filled once at startup
/// and read-only while a program runs.
#[derive(Debug)]
pub struct GlobalStore {
    pub entries: Vec<(Identifier, Std)>,
}

impl View for GlobalStore {
    type V = Map<Seq<char>, Std>;

    open spec fn view(&self) -> Map<Seq<char>, Std> {
        assoc_map(self.entry_seq())
    }
}

impl GlobalStore {
    /// The entries of this store at the model level, oldest first.
    pub open spec fn entry_seq(self) -> Seq<(Seq<char>, Std)> {
        Seq::new(self.entries@.len(), |i: int| (self.entries@[i].0@, self.entries@[i].1))
    }

    /// An empty registry.
    pub fn new() -> (r: Self)
        ensures
            r@ == Map::<Seq<char>, Std>::empty(),
    {
        let r = GlobalStore { entries: Vec::new() };
        proof {
            assert(r.entry_seq() =~= Seq::<(Seq<char>, Std)>::empty());
        }
        r
    }

    /// The builtin registered under `name`, if any is.
    pub fn get(&self, name: &String) -> (r: Option<Std>)
        ensures
            match r {
                Some(s) => self@.contains_key(name@) && s == self@[name@],
                None => !self@.contains_key(name@),
            },
    {
        let mut i: usize = self.entries.len();
        while i > 0
            invariant
                i <= self.entries@.len(),
                forall|j: int|
                    i as int <= j < self.entry_seq().len() ==> self.entry_seq()[j].0 != name@,
            decreases i,
        {
            i = i - 1;
            if self.entries[i].0 == *name {
                proof {
                    lemma_assoc_value(self.entry_seq(), i as int);
                }
                return Some(self.entries[i].1);
            }
        }
        proof {
            lemma_assoc_contains(self.entry_seq(), name@);
        }
        None
    }

    /// True when a builtin is registered under `name`.
    pub fn contains(&self, name: &String) -> (r: bool)
        ensures
            r == self@.contains_key(name@),
    {
        match self.get(name) {
            Some(_) => true,
            None => false,
        }
    }

    /// Registers `std` under `name`, shadowing any earlier registration.
    pub fn set(&mut self, name: Identifier, std: Std)
        ensures
            final(self)@ == old(self)@.insert(name@, std),
    {
        let ghost old_entries = self.entry_seq();
        self.entries.push((name, std));
        proof {
            assert(self.entry_seq().drop_last() =~= old_entries);
            assert(self.entry_seq().last() == (name@, std));
        }
    }
}

} // verus!
