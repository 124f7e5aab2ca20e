//! Command-line arguments as the configuration sees them, and the bonds that
//! link configuration keys to them.
use vstd::prelude::*;

use crate::pairs::{insert_all, lemma_insert_all_absent, lemma_insert_all_last, pairs_map};

verus! {

/// The text of an optional string.
pub open spec fn opt_str(o: Option<String>) -> Option<Seq<char>> {
    match o {
        Some(s) => Some(s@),
        None => None,
    }
}

/// One command-line argument: its name, whether the command line gave it,
/// and its value (given, or the parser's default).
#[derive(Debug)]
pub struct ClapArg {
    pub name: String,
    pub present: bool,
    pub value: Option<String>,
}

/// The arguments of a parsed command line.
#[derive(Debug)]
pub struct ClapMatches {
    args: Vec<ClapArg>,
}

/// What is known of one argument: whether it was given, and its value.
pub type ArgView = (bool, Option<Seq<char>>);

pub open spec fn arg_pairs(args: Seq<ClapArg>) -> Seq<(Seq<char>, ArgView)> {
    args.map_values(|a: ClapArg| (a.name@, (a.present, opt_str(a.value))))
}

impl View for ClapMatches {
    type V = Map<Seq<char>, ArgView>;

    closed spec fn view(&self) -> Map<Seq<char>, ArgView> {
        pairs_map(arg_pairs(self.args@))
    }
}

impl ClapMatches {
    /// A command line without arguments.
    pub fn new() -> (m: ClapMatches)
        ensures
            m@ == Map::<Seq<char>, ArgView>::empty(),
    {
        ClapMatches { args: Vec::new() }
    }

    /// Records argument `name`; a later record of the same name replaces an earlier one.
    pub fn add_arg(&mut self, name: &str, present: bool, value: Option<String>)
        ensures
            final(self)@ == old(self)@.insert(name@, (present, opt_str(value))),
    {
        let ghost start = arg_pairs(self.args@);
        self.args.push(ClapArg { name: name.to_owned(), present, value });
        assert(arg_pairs(self.args@) =~= start.push((name@, (present, opt_str(value)))));
        assert(arg_pairs(self.args@).drop_last() =~= start);
    }

    /// The index of the last record of `name`.
    fn find(&self, name: &str) -> (r: Option<usize>)
        ensures
            match r {
                Some(i) => i < self.args@.len() && self.args@[i as int].name@ == name@ && forall|
                    j: int,
                | i < j < self.args@.len() ==> self.args@[j].name@ != name@,
                None => forall|j: int| 0 <= j < self.args@.len() ==> self.args@[j].name@ != name@,
            },
    {
        let wanted: String = name.to_owned();
        let mut i: usize = self.args.len();
        while i > 0
            invariant
                i <= self.args@.len(),
                wanted@ == name@,
                forall|j: int| i <= j < self.args@.len() ==> self.args@[j].name@ != name@,
            decreases i,
        {
            if self.args[i - 1].name.eq(&wanted) {
                return Some(i - 1);
            }
            i = i - 1;
        }
        None
    }

    /// What is known of `name`.
    proof fn lemma_lookup(&self, name: Seq<char>, r: Option<usize>)
        requires
            match r {
                Some(i) => i < self.args@.len() && self.args@[i as int].name@ == name && forall|
                    j: int,
                | i < j < self.args@.len() ==> self.args@[j].name@ != name,
                None => forall|j: int| 0 <= j < self.args@.len() ==> self.args@[j].name@ != name,
            },
        ensures
            match r {
                Some(i) => self@.contains_key(name) && self@[name] == (
                    self.args@[i as int].present,
                    opt_str(self.args@[i as int].value),
                ),
                None => !self@.contains_key(name),
            },
    {
        let s = arg_pairs(self.args@);
        match r {
            Some(i) => {
                lemma_insert_all_last(Map::empty(), s, i as int);
            },
            None => {
                lemma_insert_all_absent(Map::empty(), s, name);
            },
        }
    }

    /// Whether the command line gave `name`.
    pub fn is_present(&self, name: &str) -> (r: bool)
        ensures
            r == (self@.contains_key(name@) && self@[name@].0),
    {
        let found = self.find(name);
        proof {
            self.lemma_lookup(name@, found);
        }
        match found {
            Some(i) => self.args[i].present,
            None => false,
        }
    }

    /// The value of `name`, given or default.
    pub fn value_of(&self, name: &str) -> (r: Option<String>)
        ensures
            opt_str(r) == (if self@.contains_key(name@) {
                self@[name@].1
            } else {
                None
            }),
    {
        let found = self.find(name);
        proof {
            self.lemma_lookup(name@, found);
        }
        match found {
            Some(i) => match &self.args[i].value {
                Some(v) => Some(v.clone()),
                None => None,
            },
            None => None,
        }
    }

    /// The names of the arguments, each bound to itself.
    pub fn self_bonds(&self) -> (r: Vec<(String, String)>)
        ensures
            forall|k: Seq<char>|
                #![trigger pairs_map(text_bond_pairs(r@)).contains_key(k)]
                pairs_map(text_bond_pairs(r@)).contains_key(k) <==> self@.contains_key(k),
            forall|i: int| 0 <= i < r@.len() ==> #[trigger] r@[i].0@ == r@[i].1@,
    {
        let mut r: Vec<(String, String)> = Vec::new();
        let n: usize = self.args.len();
        let mut i: usize = 0;
        while i < n
            invariant
                n == self.args@.len(),
                i <= n,
                r@.len() == i,
                forall|j: int| 0 <= j < i ==> #[trigger] r@[j].0@ == self.args@[j].name@,
                forall|j: int| 0 <= j < i ==> #[trigger] r@[j].0@ == r@[j].1@,
            decreases n - i,
        {
            r.push((self.args[i].name.clone(), self.args[i].name.clone()));
            i = i + 1;
        }
        proof {
            assert forall|k: Seq<char>|
                #![trigger pairs_map(text_bond_pairs(r@)).contains_key(k)]
                pairs_map(text_bond_pairs(r@)).contains_key(k) <==> self@.contains_key(k) by {
                crate::pairs::lemma_insert_all_keys(Map::empty(), text_bond_pairs(r@), k);
                crate::pairs::lemma_insert_all_keys(Map::empty(), arg_pairs(self.args@), k);
                if exists|j: int| 0 <= j < r@.len() && text_bond_pairs(r@)[j].0 == k {
                    let j = choose|j: int| 0 <= j < r@.len() && text_bond_pairs(r@)[j].0 == k;
                    assert(arg_pairs(self.args@)[j].0 == k);
                }
                if exists|j: int| 0 <= j < self.args@.len() && arg_pairs(self.args@)[j].0 == k {
                    let j = choose|j: int|
                        0 <= j < self.args@.len() && arg_pairs(self.args@)[j].0 == k;
                    assert(text_bond_pairs(r@)[j].0 == k);
                }
            }
        }
        r
    }
}

/// The pairs of `s` by their texts.
pub open spec fn text_bond_pairs(s: Seq<(String, String)>) -> Seq<(Seq<char>, Seq<char>)> {
    s.map_values(|e: (String, String)| (e.0@, e.1@))
}

/// The bonds from configuration keys to command-line argument names.
#[derive(Debug)]
pub struct Bonds {
    pairs: Vec<(String, String)>,
}

impl View for Bonds {
    type V = Map<Seq<char>, Seq<char>>;

    closed spec fn view(&self) -> Map<Seq<char>, Seq<char>> {
        pairs_map(text_bond_pairs(self.pairs@))
    }
}

impl Bonds {
    pub fn new() -> (b: Bonds)
        ensures
            b@ == Map::<Seq<char>, Seq<char>>::empty(),
    {
        Bonds { pairs: Vec::new() }
    }

    /// The argument bound to `key`.
    pub fn get(&self, key: &str) -> (r: Option<String>)
        ensures
            opt_str(r) == (if self@.contains_key(key@) {
                Some(self@[key@])
            } else {
                None
            }),
    {
        let wanted: String = key.to_owned();
        let s = Ghost(text_bond_pairs(self.pairs@));
        let mut i: usize = self.pairs.len();
        while i > 0
            invariant
                i <= self.pairs@.len(),
                wanted@ == key@,
                s@ == text_bond_pairs(self.pairs@),
                forall|j: int| i <= j < self.pairs@.len() ==> self.pairs@[j].0@ != key@,
            decreases i,
        {
            if self.pairs[i - 1].0.eq(&wanted) {
                proof {
                    lemma_insert_all_last(Map::empty(), s@, i - 1);
                }
                return Some(self.pairs[i - 1].1.clone());
            }
            i = i - 1;
        }
        proof {
            lemma_insert_all_absent(Map::empty(), s@, key@);
        }
        None
    }

    /// Binds `key` to `arg`; returns the argument it was bound to before.
    pub fn insert(&mut self, key: &str, arg: &str) -> (r: Option<String>)
        ensures
            final(self)@ == old(self)@.insert(key@, arg@),
            opt_str(r) == (if old(self)@.contains_key(key@) {
                Some(old(self)@[key@])
            } else {
                None
            }),
    {
        let previous = self.get(key);
        let ghost start = text_bond_pairs(self.pairs@);
        self.pairs.push((key.to_owned(), arg.to_owned()));
        assert(text_bond_pairs(self.pairs@) =~= start.push((key@, arg@)));
        assert(text_bond_pairs(self.pairs@).drop_last() =~= start);
        previous
    }

    /// Binds every key of `pairs` to its argument, in order.
    pub fn extend(&mut self, pairs: &Vec<(String, String)>)
        ensures
            final(self)@ == insert_all(old(self)@, text_bond_pairs(pairs@)),
    {
        let ghost start = self@;
        let n: usize = pairs.len();
        let mut i: usize = 0;
        while i < n
            invariant
                n == pairs@.len(),
                i <= n,
                self@ == insert_all(start, text_bond_pairs(pairs@).take(i as int)),
            decreases n - i,
        {
            self.insert(pairs[i].0.as_str(), pairs[i].1.as_str());
            proof {
                assert(text_bond_pairs(pairs@).take(i + 1).drop_last() =~= text_bond_pairs(
                    pairs@,
                ).take(i as int));
            }
            i = i + 1;
        }
        assert(text_bond_pairs(pairs@).take(n as int) =~= text_bond_pairs(pairs@));
    }
}

} // verus!
