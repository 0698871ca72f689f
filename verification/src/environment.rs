//! Lexical scopes. All scopes of a run live in one table and are named by
//! their index in it. A scope's link to the scope that encloses it is set
//! when the scope is made and never changes, and it always points at an older
//! scope: the links form a tree whose root is the global scope, at index 0.
//! Whoever holds the index of a scope sees every change made to that scope.

use vstd::prelude::*;

use crate::lox_type::{LoxType, Value};
use crate::table::Table;

verus! {

/// One scope: its own bindings and the scope around it.
pub struct Scope {
    values: Table<LoxType>,
    enclosing: Option<usize>,
}

/// What a scope holds.
pub ghost struct ScopeView {
    pub values: Map<Seq<char>, Value>,
    pub enclosing: Option<usize>,
}

impl View for Scope {
    type V = ScopeView;

    closed spec fn view(&self) -> ScopeView {
        ScopeView { values: self.values@, enclosing: self.enclosing }
    }
}

/// The scope of index 0 is the root, and every other scope is enclosed by
/// one that is older than itself.
pub open spec fn scopes_wf(scopes: Seq<ScopeView>) -> bool {
    &&& scopes.len() > 0
    &&& scopes[0].enclosing is None
    &&& forall|i: int|
        0 < i < scopes.len() ==> ((#[trigger] scopes[i]).enclosing matches Some(e) && e < i)
}

/// The scope reached from `start` by following exactly `distance` links.
pub open spec fn ancestor(scopes: Seq<ScopeView>, start: int, distance: nat) -> Option<int>
    decreases distance,
{
    if start < 0 || start >= scopes.len() {
        None
    } else if distance == 0 {
        Some(start)
    } else {
        match scopes[start].enclosing {
            Some(e) => ancestor(scopes, e as int, (distance - 1) as nat),
            None => None,
        }
    }
}

/// The first scope that binds `name`, searching from `start` outwards.
pub open spec fn defining_scope(scopes: Seq<ScopeView>, start: int, name: Seq<char>) -> Option<int>
    decreases start,
{
    if start < 0 || start >= scopes.len() {
        None
    } else if scopes[start].values.contains_key(name) {
        Some(start)
    } else {
        match scopes[start].enclosing {
            Some(e) => if e < start {
                defining_scope(scopes, e as int, name)
            } else {
                None
            },
            None => None,
        }
    }
}

/// What a search for `name` from `start` outwards finds.
pub open spec fn lookup(scopes: Seq<ScopeView>, start: int, name: Seq<char>) -> Option<Value> {
    match defining_scope(scopes, start, name) {
        Some(scope) => Some(scopes[scope].values[name]),
        None => None,
    }
}

/// What scope `distance` links out from `start` binds `name` to. Scopes
/// nearer or further than that are not looked at.
pub open spec fn lookup_at(
    scopes: Seq<ScopeView>,
    start: int,
    distance: nat,
    name: Seq<char>,
) -> Option<Value> {
    match ancestor(scopes, start, distance) {
        Some(scope) => if scopes[scope].values.contains_key(name) {
            Some(scopes[scope].values[name])
        } else {
            None
        },
        None => None,
    }
}

/// The scopes after `name` has been bound to `value` in scope `scope`.
pub open spec fn bind(
    scopes: Seq<ScopeView>,
    scope: int,
    name: Seq<char>,
    value: Value,
) -> Seq<ScopeView> {
    scopes.update(
        scope,
        ScopeView { values: scopes[scope].values.insert(name, value), enclosing: scopes[scope].enclosing },
    )
}

/// The table of all scopes.
pub struct Environment {
    scopes: Vec<Scope>,
}

impl View for Environment {
    type V = Seq<ScopeView>;

    closed spec fn view(&self) -> Seq<ScopeView> {
        self.scopes@.map_values(|scope: Scope| scope@)
    }
}

impl Environment {
    /// The scopes form a tree whose root is the global scope.
    pub open spec fn wf(&self) -> bool {
        scopes_wf(self@)
    }

    /// A table that holds the global scope alone.
    pub fn new() -> (environment: Self)
        ensures
            environment.wf(),
            environment@ == seq![ScopeView { values: Map::empty(), enclosing: None }],
    {
        let mut scopes = Vec::new();
        scopes.push(Scope { values: Table::new(), enclosing: None });
        let environment = Environment { scopes };
        assert(environment@ =~= seq![ScopeView { values: Map::empty(), enclosing: None }]);
        environment
    }

    /// There are no more scopes than an index can name.
    pub proof fn lemma_fits(&self)
        ensures
            self@.len() <= usize::MAX,
    {
        assert(self@.len() == self.scopes.len());
    }

    /// The number of scopes made so far.
    pub fn len(&self) -> (count: usize)
        ensures
            count == self@.len(),
    {
        self.scopes.len()
    }

    /// Makes an empty scope inside `enclosing` and returns its index.
    pub fn with_enclosing(&mut self, enclosing: usize) -> (scope: usize)
        requires
            old(self).wf(),
            enclosing < old(self)@.len(),
        ensures
            final(self).wf(),
            scope == old(self)@.len(),
            final(self)@ == old(self)@.push(
                ScopeView { values: Map::empty(), enclosing: Some(enclosing) },
            ),
    {
        let scope = self.scopes.len();
        self.scopes.push(Scope { values: Table::new(), enclosing: Some(enclosing) });
        assert(self@ =~= old(self)@.push(
            ScopeView { values: Map::empty(), enclosing: Some(enclosing) },
        ));
        scope
    }

    /// The scope around `scope`, if it has one.
    pub fn enclosing(&self, scope: usize) -> (outer: Option<usize>)
        requires
            scope < self@.len(),
        ensures
            outer == self@[scope as int].enclosing,
    {
        self.scopes[scope].enclosing
    }

    /// The scope `distance` links out from `scope`, if the chain is that long.
    fn ancestor(&self, scope: usize, distance: usize) -> (found: Option<usize>)
        requires
            self.wf(),
            scope < self@.len(),
        ensures
            match found {
                Some(a) => a < self@.len() && ancestor(self@, scope as int, distance as nat) == Some(
                    a as int,
                ),
                None => ancestor(self@, scope as int, distance as nat) is None,
            },
    {
        let mut current = scope;
        let mut remaining = distance;
        while remaining > 0
            invariant
                self.wf(),
                current < self@.len(),
                ancestor(self@, scope as int, distance as nat) == ancestor(
                    self@,
                    current as int,
                    remaining as nat,
                ),
            decreases remaining,
        {
            match self.scopes[current].enclosing {
                Some(outer) => {
                    assert(self@[current as int].enclosing == Some(outer));
                    current = outer;
                    remaining = remaining - 1;
                },
                None => {
                    assert(self@[current as int].enclosing is None);
                    return None;
                },
            }
        }
        Some(current)
    }

    /// The first scope that binds `name`, searching from `scope` outwards.
    fn resolve(&self, scope: usize, name: &str) -> (found: Option<usize>)
        requires
            self.wf(),
            scope < self@.len(),
        ensures
            match found {
                Some(d) => d < self@.len() && defining_scope(self@, scope as int, name@) == Some(
                    d as int,
                ) && self@[d as int].values.contains_key(name@),
                None => defining_scope(self@, scope as int, name@) is None,
            },
    {
        let mut current = scope;
        loop
            invariant
                self.wf(),
                current < self@.len(),
                defining_scope(self@, scope as int, name@) == defining_scope(
                    self@,
                    current as int,
                    name@,
                ),
            decreases current,
        {
            assert(self@[current as int] == self.scopes[current as int]@);
            if self.scopes[current].values.contains_key(name) {
                return Some(current);
            }
            match self.scopes[current].enclosing {
                Some(outer) => {
                    current = outer;
                },
                None => {
                    return None;
                },
            }
        }
    }

    /// Searches for `name` from `scope` outwards and returns what the first
    /// scope that binds it holds for it.
    pub fn get(&self, scope: usize, name: &str) -> (found: Option<LoxType>)
        requires
            self.wf(),
            scope < self@.len(),
        ensures
            match found {
                Some(value) => lookup(self@, scope as int, name@) == Some(value@),
                None => lookup(self@, scope as int, name@) is None,
            },
    {
        match self.resolve(scope, name) {
            Some(d) => self.get_local(d, name),
            None => None,
        }
    }

    /// What scope `scope` itself binds `name` to.
    fn get_local(&self, scope: usize, name: &str) -> (found: Option<LoxType>)
        requires
            scope < self@.len(),
        ensures
            match found {
                Some(value) => self@[scope as int].values.contains_key(name@) && self@[scope as int].values[name@]
                    == value@,
                None => !self@[scope as int].values.contains_key(name@),
            },
    {
        assert(self@[scope as int] == self.scopes[scope as int]@);
        match self.scopes[scope].values.get(name) {
            Some(value) => Some(value.clone()),
            None => None,
        }
    }

    /// Follows exactly `distance` links from `scope` and returns what the
    /// scope reached binds `name` to. No other scope is searched: when that
    /// scope does not bind the name, or the chain is too short, nothing is
    /// found.
    pub fn get_at(&self, scope: usize, distance: usize, name: &str) -> (found: Option<LoxType>)
        requires
            self.wf(),
            scope < self@.len(),
        ensures
            match found {
                Some(value) => lookup_at(self@, scope as int, distance as nat, name@) == Some(value@),
                None => lookup_at(self@, scope as int, distance as nat, name@) is None,
            },
    {
        match self.ancestor(scope, distance) {
            Some(a) => self.get_local(a, name),
            None => None,
        }
    }

    /// Binds `name` to `value` in scope `scope` itself, whether or not the
    /// scope bound the name before.
    pub fn define(&mut self, scope: usize, name: &str, value: LoxType)
        requires
            old(self).wf(),
            scope < old(self)@.len(),
        ensures
            final(self).wf(),
            final(self)@ == bind(old(self)@, scope as int, name@, value@),
    {
        assert(self@[scope as int] == self.scopes[scope as int]@);
        self.scopes[scope].values.insert(String::from_str(name), value);
        assert(self@ =~= bind(old(self)@, scope as int, name@, value@));
    }

    /// Gives `name` the value `value` in the first scope, from `scope`
    /// outwards, that binds it. Where no scope binds it, nothing changes and
    /// the result is false: assignment never makes a binding.
    pub fn assign(&mut self, scope: usize, name: &str, value: LoxType) -> (assigned: bool)
        requires
            old(self).wf(),
            scope < old(self)@.len(),
        ensures
            final(self).wf(),
            match defining_scope(old(self)@, scope as int, name@) {
                Some(d) => assigned && final(self)@ == bind(old(self)@, d, name@, value@),
                None => !assigned && final(self)@ == old(self)@,
            },
    {
        match self.resolve(scope, name) {
            Some(d) => {
                self.define(d, name, value);
                true
            },
            None => false,
        }
    }

    /// Gives `name` the value `value` in the scope exactly `distance` links
    /// out from `scope`, if that scope binds it. No other scope is touched.
    pub fn assign_at(
        &mut self,
        scope: usize,
        distance: usize,
        name: &str,
        value: LoxType,
    ) -> (assigned: bool)
        requires
            old(self).wf(),
            scope < old(self)@.len(),
        ensures
            final(self).wf(),
            match ancestor(old(self)@, scope as int, distance as nat) {
                Some(a) => if old(self)@[a].values.contains_key(name@) {
                    assigned && final(self)@ == bind(old(self)@, a, name@, value@)
                } else {
                    !assigned && final(self)@ == old(self)@
                },
                None => !assigned && final(self)@ == old(self)@,
            },
    {
        match self.ancestor(scope, distance) {
            Some(a) => {
                assert(self@[a as int] == self.scopes[a as int]@);
                if self.scopes[a].values.contains_key(name) {
                    self.define(a, name, value);
                    true
                } else {
                    false
                }
            },
            None => false,
        }
    }
}


/// An assignment at a distance changes exactly the scope that lies that
/// many links out: afterwards that scope binds the name to the new value,
/// every other scope is as it was (a scope further in or further out that
/// binds the same name keeps its own value), and no link has changed.
pub proof fn lemma_assign_at_exact(
    scopes: Seq<ScopeView>,
    start: int,
    distance: nat,
    name: Seq<char>,
    value: Value,
)
    requires
        scopes_wf(scopes),
        ancestor(scopes, start, distance) is Some,
    ensures
        ({
            let target = ancestor(scopes, start, distance).unwrap();
            let after = bind(scopes, target, name, value);
            &&& 0 <= target < scopes.len()
            &&& scopes_wf(after)
            &&& after.len() == scopes.len()
            &&& lookup_at(after, start, distance, name) == Some(value)
            &&& forall|other: int|
                0 <= other < scopes.len() && other != target ==> after[other] == scopes[other]
            &&& forall|other: int|
                0 <= other < scopes.len() ==> (#[trigger] after[other]).enclosing
                    == scopes[other].enclosing
        }),
{
    let target = ancestor(scopes, start, distance).unwrap();
    lemma_ancestor_in_range(scopes, start, distance);
    let after = bind(scopes, target, name, value);
    lemma_ancestor_same_links(scopes, after, start, distance);
}

/// Following links from a scope leads to a scope that exists.
pub proof fn lemma_ancestor_in_range(scopes: Seq<ScopeView>, start: int, distance: nat)
    ensures
        ancestor(scopes, start, distance) matches Some(scope) ==> 0 <= scope < scopes.len(),
    decreases distance,
{
    if 0 <= start < scopes.len() && distance > 0 {
        match scopes[start].enclosing {
            Some(e) => {
                lemma_ancestor_in_range(scopes, e as int, (distance - 1) as nat);
            },
            None => {},
        }
    }
}

/// Where the links are the same, the ancestors are the same.
pub proof fn lemma_ancestor_same_links(
    before: Seq<ScopeView>,
    after: Seq<ScopeView>,
    start: int,
    distance: nat,
)
    requires
        before.len() == after.len(),
        forall|i: int| 0 <= i < before.len() ==> (#[trigger] after[i]).enclosing == before[i].enclosing,
    ensures
        ancestor(after, start, distance) == ancestor(before, start, distance),
    decreases distance,
{
    if 0 <= start < before.len() && distance > 0 {
        match before[start].enclosing {
            Some(e) => {
                lemma_ancestor_same_links(before, after, e as int, (distance - 1) as nat);
            },
            None => {},
        }
    }
}

/// A scope is never its own ancestor: every link leads to an older scope.
pub proof fn lemma_no_cycle(scopes: Seq<ScopeView>, start: int, distance: nat)
    requires
        scopes_wf(scopes),
        distance > 0,
    ensures
        ancestor(scopes, start, distance) matches Some(scope) ==> scope < start,
    decreases distance,
{
    if 0 <= start < scopes.len() {
        match scopes[start].enclosing {
            Some(e) => {
                if distance > 1 {
                    lemma_no_cycle(scopes, e as int, (distance - 1) as nat);
                }
            },
            None => {},
        }
    }
}


/// New scopes do not change where the links of the old ones lead: where
/// `after` has every scope of `before` with the same scope around it, the
/// ancestors of a scope of `before` are the same in both.
pub proof fn lemma_ancestor_grows(
    before: Seq<ScopeView>,
    after: Seq<ScopeView>,
    start: int,
    distance: nat,
)
    requires
        scopes_wf(before),
        before.len() <= after.len(),
        forall|i: int|
            0 <= i < before.len() ==> (#[trigger] after[i]).enclosing == before[i].enclosing,
        0 <= start < before.len(),
    ensures
        ancestor(after, start, distance) == ancestor(before, start, distance),
    decreases distance,
{
    if distance > 0 {
        assert(after[start].enclosing == before[start].enclosing);
        match before[start].enclosing {
            Some(e) => {
                lemma_ancestor_grows(before, after, e as int, (distance - 1) as nat);
            },
            None => {},
        }
    }
}

} // verus!
