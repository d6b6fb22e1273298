//! The macro table: a mapping from identifier to macro definition.
//!
//! The table is owned by the caller (directive processing inserts and
//! removes definitions between expansions) and the expansion core only
//! reads it.  It is kept as an association list where a later definition
//! of the same name shadows an earlier one, so its model is the map built
//! by inserting the entries in order.

use vstd::prelude::*;
use crate::token::PreprocessingToken;
use crate::model::{MacroModel, TableModel};
use crate::token::toks_view;

verus! {

/// A macro definition: an object macro's replacement list, or a function
/// macro's parameter names, whether it is variadic, and its replacement
/// list.  Parameter names within one macro are unique.
pub enum Macro {
    Object(Vec<PreprocessingToken>),
    Function(Vec<String>, bool, Vec<PreprocessingToken>),
}

/// The model of a parameter list.
pub open spec fn params_view(s: Seq<String>) -> Seq<Seq<char>> {
    s.map_values(|p: String| p@)
}

impl View for Macro {
    type V = MacroModel;

    open spec fn view(&self) -> MacroModel {
        match self {
            Macro::Object(body) => MacroModel::Object(toks_view(body@)),
            Macro::Function(params, variadic, body) => MacroModel::Function(
                params_view(params@),
                *variadic,
                toks_view(body@),
            ),
        }
    }
}

/// The map an association list denotes, later entries shadowing earlier.
pub open spec fn table_of(s: Seq<(String, Macro)>) -> TableModel
    decreases s.len(),
{
    if s.len() == 0 {
        Map::empty()
    } else {
        table_of(s.drop_last()).insert(s.last().0@, s.last().1@)
    }
}

/// The macro table handed to the expander.
pub struct Macros {
    definitions: Vec<(String, Macro)>,
}

impl View for Macros {
    type V = TableModel;

    closed spec fn view(&self) -> TableModel {
        table_of(self.definitions@)
    }
}

/// The denoted map has a key exactly where some entry defines it.
proof fn lemma_table_of_key(s: Seq<(String, Macro)>, k: Seq<char>)
    ensures
        table_of(s).contains_key(k) <==> exists|i: int| 0 <= i < s.len() && s[i].0@ == k,
    decreases s.len(),
{
    if s.len() > 0 {
        lemma_table_of_key(s.drop_last(), k);
        if table_of(s).contains_key(k) {
            if s.last().0@ == k {
                assert(s[s.len() - 1].0@ == k);
            } else {
                let i = choose|i: int| 0 <= i < s.drop_last().len() && s.drop_last()[i].0@ == k;
                assert(s[i].0@ == k);
            }
        }
        if exists|i: int| 0 <= i < s.len() && s[i].0@ == k {
            let i = choose|i: int| 0 <= i < s.len() && s[i].0@ == k;
            if i < s.len() - 1 {
                assert(s.drop_last()[i].0@ == k);
            }
        }
    }
}

/// The value of a key is the one of the last entry that defines it.
proof fn lemma_table_of_last(s: Seq<(String, Macro)>, k: Seq<char>, j: int)
    requires
        0 <= j < s.len(),
        s[j].0@ == k,
        forall|i: int| j < i < s.len() ==> s[i].0@ != k,
    ensures
        table_of(s).contains_key(k),
        table_of(s)[k] == s[j].1@,
    decreases s.len(),
{
    if j == s.len() - 1 {
        assert(s.last() == s[j]);
    } else {
        assert(forall|i: int| j < i < s.drop_last().len() ==> s.drop_last()[i].0@ != k);
        assert(s.drop_last()[j] == s[j]);
        lemma_table_of_last(s.drop_last(), k, j);
        assert(s.last().0@ != k);
    }
}

/// The entries that do not define `k`, in order.
spec fn without_key(s: Seq<(String, Macro)>, k: Seq<char>) -> Seq<(String, Macro)>
    decreases s.len(),
{
    if s.len() == 0 {
        Seq::empty()
    } else if s.last().0@ == k {
        without_key(s.drop_last(), k)
    } else {
        without_key(s.drop_last(), k).push(s.last())
    }
}

/// Dropping every entry of a key denotes removing the key.
proof fn lemma_table_of_remove(s: Seq<(String, Macro)>, k: Seq<char>)
    ensures
        table_of(without_key(s, k)) == table_of(s).remove(k),
    decreases s.len(),
{
    if s.len() == 0 {
        assert(table_of(without_key(s, k)) =~= table_of(s).remove(k));
    } else {
        let dl = s.drop_last();
        let e = s.last();
        lemma_table_of_remove(dl, k);
        if e.0@ == k {
            assert(table_of(s).remove(k) =~= table_of(dl).remove(k));
        } else {
            let w = without_key(dl, k).push(e);
            assert(w.drop_last() =~= without_key(dl, k));
            assert(table_of(w) == table_of(without_key(dl, k)).insert(e.0@, e.1@));
            assert(table_of(s).remove(k) =~= table_of(dl).remove(k).insert(e.0@, e.1@));
        }
    }
}

impl Macros {
    /// An empty table.
    pub fn new() -> (r: Macros)
        ensures
            r@ == TableModel::empty(),
    {
        Macros { definitions: Vec::new() }
    }

    /// Defines `name`, shadowing any earlier definition of it.
    pub fn define(&mut self, name: String, m: Macro)
        ensures
            final(self)@ == old(self)@.insert(name@, m@),
    {
        let ghost before = self.definitions@;
        self.definitions.push((name, m));
        proof {
            assert(self.definitions@.drop_last() =~= before);
        }
    }

    /// Removes every definition of `name`, shadowed ones included.
    pub fn undefine(&mut self, name: &String)
        ensures
            final(self)@ == old(self)@.remove(name@),
    {
        let ghost orig = self.definitions@;
        let ghost k = name@;
        let mut rev: Vec<(String, Macro)> = Vec::new();
        proof {
            assert(orig.take(orig.len() as int) =~= orig);
        }
        while self.definitions.len() > 0
            invariant
                self.definitions@.len() <= orig.len(),
                self.definitions@ == orig.take(self.definitions@.len() as int),
                rev@ == orig.skip(self.definitions@.len() as int).reverse(),
            decreases self.definitions@.len(),
        {
            let ghost l = self.definitions@.len() as int;
            let e = match self.definitions.pop() {
                Option::Some(e) => e,
                Option::None => vstd::pervasive::unreached(),
            };
            proof {
                assert(orig.take(l).len() == l);
                assert(orig.take(l)[l - 1] == orig[l - 1]);
                assert(e == orig[l - 1]);
                assert(self.definitions@ =~= orig.take(l - 1));
            }
            rev.push(e);
            proof {
                assert(orig.skip(l - 1).len() == orig.len() - (l - 1));
                assert(rev@ =~= orig.skip(l - 1).reverse());
            }
        }
        proof {
            assert(self.definitions@ =~= without_key(orig.take(0), k));
        }
        while rev.len() > 0
            invariant
                k == name@,
                rev@.len() <= orig.len(),
                rev@ == orig.skip(orig.len() - rev@.len()) .reverse(),
                self.definitions@ == without_key(orig.take(orig.len() - rev@.len()), k),
            decreases rev@.len(),
        {
            let ghost p = orig.len() - rev@.len();
            let e = match rev.pop() {
                Option::Some(e) => e,
                Option::None => vstd::pervasive::unreached(),
            };
            proof {
                assert(p + 1 <= orig.len());
                assert(orig.skip(p).len() == orig.len() - p);
                assert(orig.skip(p).reverse().last() == orig.skip(p).first());
                assert(orig.skip(p).first() == orig[p]);
                assert(e == orig[p]);
                assert(rev@ =~= orig.skip(p + 1).reverse());
                assert(orig.take(p + 1).len() == p + 1);
                assert(orig.take(p + 1).drop_last() =~= orig.take(p));
                assert(orig.take(p + 1).last() == orig[p]);
            }
            let same = e.0 == *name;
            if same {
                proof {
                    assert(orig[p].0@ == k);
                    assert(orig.take(p + 1).last().0@ == k);
                    assert(without_key(orig.take(p + 1), k) == without_key(
                        orig.take(p + 1).drop_last(),
                        k,
                    ));
                    assert(without_key(orig.take(p + 1), k) == self.definitions@);
                }
            } else {
                self.definitions.push(e);
                proof {
                    assert(orig[p].0@ != k);
                    assert(orig.take(p + 1).last().0@ != k);
                    assert(without_key(orig.take(p + 1), k) == without_key(
                        orig.take(p + 1).drop_last(),
                        k,
                    ).push(orig.take(p + 1).last()));
                    assert(self.definitions@ == without_key(orig.take(p + 1), k));
                }
            }
        }
        proof {
            assert(orig.take(orig.len() as int) =~= orig);
            lemma_table_of_remove(orig, k);
        }
    }

    /// The definition of `name`, if it has one.
    pub fn lookup(&self, name: &String) -> (r: Option<&Macro>)
        ensures
            match r {
                Option::Some(m) => self@.contains_key(name@) && m@ == self@[name@],
                Option::None => !self@.contains_key(name@),
            },
    {
        let n = self.definitions.len();
        let mut j: usize = n;
        while j > 0
            invariant
                j <= n,
                n == self.definitions@.len(),
                forall|i: int| j <= i < n ==> self.definitions@[i].0@ != name@,
            decreases j,
        {
            j = j - 1;
            if self.definitions[j].0 == *name {
                proof {
                    lemma_table_of_last(self.definitions@, name@, j as int);
                }
                return Option::Some(&self.definitions[j].1);
            }
        }
        proof {
            lemma_table_of_key(self.definitions@, name@);
        }
        Option::None
    }
}

} // verus!
