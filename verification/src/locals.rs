//! The table in which scope resolution records, for a reference to a
//! variable, how many scopes lie between the reference and the scope that
//! declares the variable. A reference is known by the text of its token and
//! the line it stands on.

use vstd::prelude::*;

use crate::table::Table;
use crate::token::Token;

verus! {

/// Recorded distances, grouped by line.
pub struct Locals {
    lines: Vec<Table<usize>>,
}

/// The map that a sequence of per-line maps stands for.
pub open spec fn by_key(lines: Seq<Map<Seq<char>, usize>>) -> Map<(Seq<char>, usize), usize> {
    Map::new(
        |key: (Seq<char>, usize)| key.1 < lines.len() && lines[key.1 as int].contains_key(key.0),
        |key: (Seq<char>, usize)| lines[key.1 as int][key.0],
    )
}

impl View for Locals {
    type V = Map<(Seq<char>, usize), usize>;

    closed spec fn view(&self) -> Map<(Seq<char>, usize), usize> {
        by_key(self.lines@.map_values(|line: Table<usize>| line@))
    }
}

impl Locals {
    /// A table without records.
    pub fn new() -> (locals: Self)
        ensures
            locals@ == Map::<(Seq<char>, usize), usize>::empty(),
    {
        let locals = Locals { lines: Vec::new() };
        assert(locals@ =~= Map::<(Seq<char>, usize), usize>::empty());
        locals
    }

    /// The distance recorded for `name`, if one was.
    pub fn get(&self, name: &Token) -> (distance: Option<usize>)
        ensures
            distance == if self@.contains_key(name.key()) {
                Some(self@[name.key()])
            } else {
                None
            },
    {
        if name.line < self.lines.len() {
            match self.lines[name.line].get(name.lexeme.as_str()) {
                Some(distance) => Some(*distance),
                None => None,
            }
        } else {
            None
        }
    }

    /// Records `distance` for `name`, in place of what was recorded for a
    /// token of the same text on the same line.
    pub fn insert(&mut self, name: &Token, distance: usize)
        ensures
            final(self)@ == old(self)@.insert(name.key(), distance),
    {
        while self.lines.len() <= name.line
            invariant
                self@ == old(self)@,
            decreases name.line + 1 - self.lines.len(),
        {
            let ghost before = self.lines@.map_values(|line: Table<usize>| line@);
            self.lines.push(Table::new());
            assert(self.lines@.map_values(|line: Table<usize>| line@) =~= before.push(
                Map::empty(),
            ));
            assert(self@ =~= by_key(before));
        }
        let ghost before = self.lines@.map_values(|line: Table<usize>| line@);
        self.lines[name.line].insert(name.lexeme.clone(), distance);
        assert(self.lines@.map_values(|line: Table<usize>| line@) =~= before.update(
            name.line as int,
            before[name.line as int].insert(name.lexeme@, distance),
        ));
        assert(self@ =~= old(self)@.insert(name.key(), distance));
    }
}

} // verus!
