//! The variable environment: a finite map from names to the expression last
//! bound to each.

use vstd::prelude::*;
use crate::parser::ast::{Expression, ExpressionView};
use crate::text::{characters, same_word};

verus! {

/// One name with the expression bound to it.
pub struct Binding {
    name: Vec<char>,
    value: Expression,
}

/// The bindings of a script's variables. A later binding of a name replaces
/// the earlier one.
pub struct Environment {
    bindings: Vec<Binding>,
}

/// The map that a list of bindings stands for: each name goes to the value
/// of its last entry.
pub closed spec fn bindings_map(s: Seq<Binding>) -> Map<Seq<char>, ExpressionView>
    decreases s.len(),
{
    if s.len() == 0 {
        Map::empty()
    } else {
        bindings_map(s.drop_last()).insert(s.last().name@, s.last().value@)
    }
}

proof fn lemma_absent(s: Seq<Binding>, key: Seq<char>)
    requires
        forall|i: int| 0 <= i < s.len() ==> s[i].name@ != key,
    ensures
        !bindings_map(s).dom().contains(key),
    decreases s.len(),
{
    if s.len() > 0 {
        lemma_absent(s.drop_last(), key);
    }
}

proof fn lemma_found(s: Seq<Binding>, key: Seq<char>, i: int)
    requires
        0 <= i < s.len(),
        s[i].name@ == key,
        forall|j: int| i < j < s.len() ==> s[j].name@ != key,
    ensures
        bindings_map(s).dom().contains(key),
        bindings_map(s)[key] == s[i].value@,
    decreases s.len(),
{
    if i < s.len() - 1 {
        lemma_found(s.drop_last(), key, i);
    }
}

proof fn lemma_replace(s: Seq<Binding>, key: Seq<char>, i: int, b: Binding)
    requires
        0 <= i < s.len(),
        s[i].name@ == key,
        b.name@ == key,
        forall|j: int| i < j < s.len() ==> s[j].name@ != key,
    ensures
        bindings_map(s.update(i, b)) == bindings_map(s).insert(key, b.value@),
    decreases s.len(),
{
    let t = s.update(i, b);
    if i == s.len() - 1 {
        assert(t.drop_last() == s.drop_last());
        assert(bindings_map(t) == bindings_map(s).insert(key, b.value@));
    } else {
        lemma_replace(s.drop_last(), key, i, b);
        assert(t.drop_last() == s.drop_last().update(i, b));
        assert(t.last() == s.last());
        assert(bindings_map(t) == bindings_map(s).insert(key, b.value@));
    }
}

impl View for Environment {
    type V = Map<Seq<char>, ExpressionView>;

    closed spec fn view(&self) -> Map<Seq<char>, ExpressionView> {
        bindings_map(self.bindings@)
    }
}

impl Environment {
    /// The environment without any binding.
    pub fn new() -> (r: Environment)
        ensures
            r@ == Map::<Seq<char>, ExpressionView>::empty(),
    {
        Environment { bindings: Vec::new() }
    }

    /// The position of the last binding of `word`, if it has one.
    fn position(&self, word: &Vec<char>) -> (r: Option<usize>)
        ensures
            match r {
                Some(i) => i < self.bindings.len() && self.bindings[i as int].name@ == word@
                    && forall|j: int|
                    i < j < self.bindings.len() ==> self.bindings[j].name@ != word@,
                None => forall|j: int|
                    0 <= j < self.bindings.len() ==> self.bindings[j].name@ != word@,
            },
    {
        let mut i: usize = self.bindings.len();
        while i > 0
            invariant
                i <= self.bindings.len(),
                forall|j: int| i <= j < self.bindings.len() ==> self.bindings[j].name@ != word@,
            decreases i,
        {
            i = i - 1;
            if same_word(&self.bindings[i].name, word) {
                return Some(i);
            }
        }
        None
    }

    /// Whether `name` is bound.
    pub fn contains_key(&self, name: &str) -> (r: bool)
        ensures
            r == self@.dom().contains(name@),
    {
        let word = characters(name);
        match self.position(&word) {
            Some(i) => {
                proof {
                    lemma_found(self.bindings@, name@, i as int);
                }
                true
            },
            None => {
                proof {
                    lemma_absent(self.bindings@, name@);
                }
                false
            },
        }
    }

    /// The expression bound to `name`, if any.
    pub fn get(&self, name: &str) -> (r: Option<&Expression>)
        ensures
            match r {
                Some(e) => self@.dom().contains(name@) && e@ == self@[name@],
                None => !self@.dom().contains(name@),
            },
    {
        let word = characters(name);
        match self.position(&word) {
            Some(i) => {
                proof {
                    lemma_found(self.bindings@, name@, i as int);
                }
                Some(&self.bindings[i].value)
            },
            None => {
                proof {
                    lemma_absent(self.bindings@, name@);
                }
                None
            },
        }
    }

    /// Binds `name` to `value`, replacing what it was bound to before.
    pub fn insert(&mut self, name: String, value: Expression)
        ensures
            final(self)@ == old(self)@.insert(name@, value@),
    {
        let word = characters(name.as_str());
        let found = self.position(&word);
        let binding = Binding { name: word, value };
        match found {
            Some(i) => {
                proof {
                    lemma_replace(self.bindings@, name@, i as int, binding);
                }
                self.bindings.set(i, binding);
            },
            None => {
                proof {
                    assert(self.bindings@.push(binding).drop_last() == self.bindings@);
                }
                self.bindings.push(binding);
            },
        }
    }
}

} // verus!
