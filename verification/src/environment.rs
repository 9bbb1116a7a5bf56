//! The shell's environment-variable store: a map from name to value.
//!
//! Names are stored lower-cased: `set_var` lower-cases the name before
//! inserting and `get_var` lower-cases it before looking it up, so the two
//! agree on any spelling. `unset_var` removes the name exactly as given.

use vstd::prelude::*;

verus! {

/// The lower-case form of a string, as `str::to_lowercase` computes it: a
/// function of the characters alone.
pub uninterp spec fn lower_of(s: Seq<char>) -> Seq<char>;

/// Relies on str::to_lowercase: the result depends on the characters of
/// the input alone.
#[verifier::external_body]
fn to_lower(s: &str) -> (r: String)
    ensures
        r@ == lower_of(s@),
{
    s.to_lowercase()
}

spec fn has_key(s: Seq<(String, String)>, k: Seq<char>) -> bool {
    exists|i: int| 0 <= i < s.len() && s[i].0@ == k
}

spec fn key_index(s: Seq<(String, String)>, k: Seq<char>) -> int {
    choose|i: int| 0 <= i < s.len() && s[i].0@ == k
}

/// The map a sequence of name/value pairs stands for.
spec fn vars_of(s: Seq<(String, String)>) -> Map<Seq<char>, Seq<char>> {
    Map::new(|k: Seq<char>| has_key(s, k), |k: Seq<char>| s[key_index(s, k)].1@)
}

/// No two pairs share a name.
spec fn distinct_keys(s: Seq<(String, String)>) -> bool {
    forall|i: int, j: int| #![trigger s[i].0@, s[j].0@]
        0 <= i < j < s.len() ==> s[i].0@ != s[j].0@
}

/// With distinct keys, the map holds at a pair's name that pair's value.
proof fn lemma_vars_of_at(s: Seq<(String, String)>, i: int)
    requires
        distinct_keys(s),
        0 <= i < s.len(),
    ensures
        vars_of(s).contains_key(s[i].0@),
        vars_of(s)[s[i].0@] == s[i].1@,
{
    let k = s[i].0@;
    assert(has_key(s, k));
    let j = key_index(s, k);
    assert(0 <= j < s.len() && s[j].0@ == k);
    if i != j {
        if i < j {
            assert(s[i].0@ != s[j].0@);
        } else {
            assert(s[j].0@ != s[i].0@);
        }
    }
}

/// Appending a pair with a fresh name inserts it into the map.
proof fn lemma_vars_of_push(s: Seq<(String, String)>, p: (String, String))
    requires
        distinct_keys(s),
        !has_key(s, p.0@),
    ensures
        distinct_keys(s.push(p)),
        vars_of(s.push(p)) =~= vars_of(s).insert(p.0@, p.1@),
{
    let s2 = s.push(p);
    let k0 = p.0@;
    assert(s2[s.len() as int] == p);
    assert forall|i: int, j: int| #![trigger s2[i].0@, s2[j].0@]
        0 <= i < j < s2.len() implies s2[i].0@ != s2[j].0@ by {
        if j == s.len() {
            assert(s2[i] == s[i]);
            assert(!(s[i].0@ == k0));
        } else {
            assert(s2[i] == s[i]);
            assert(s2[j] == s[j]);
        }
    }
    assert forall|k: Seq<char>| #[trigger] has_key(s2, k) implies (k == k0 || has_key(s, k)) by {
        let i = choose|i: int| 0 <= i < s2.len() && s2[i].0@ == k;
        if i != s.len() {
            assert(s[i] == s2[i]);
        }
    }
    assert forall|k: Seq<char>| #[trigger] has_key(s, k) implies has_key(s2, k) by {
        let i = choose|i: int| 0 <= i < s.len() && s[i].0@ == k;
        assert(s2[i] == s[i]);
    }
    assert(has_key(s2, k0));
    assert forall|k: Seq<char>| #[trigger] has_key(s2, k) && k != k0 implies vars_of(s2)[k]
        == vars_of(s)[k] by {
        let i2 = key_index(s2, k);
        let i = key_index(s, k);
        assert(0 <= i2 < s2.len() && s2[i2].0@ == k);
        assert(has_key(s, k));
        assert(0 <= i < s.len() && s[i].0@ == k);
        assert(i2 != s.len());
        assert(s2[i2] == s[i2]);
        if i != i2 {
            if i < i2 {
                assert(s[i].0@ != s[i2].0@);
            } else {
                assert(s[i2].0@ != s[i].0@);
            }
        }
    }
    assert(vars_of(s2)[k0] == p.1@) by {
        lemma_vars_of_at(s2, s.len() as int);
    }
}

/// Removing the pair at an index removes its name from the map.
proof fn lemma_vars_of_remove(s: Seq<(String, String)>, k: int)
    requires
        distinct_keys(s),
        0 <= k < s.len(),
    ensures
        distinct_keys(s.remove(k)),
        vars_of(s.remove(k)) =~= vars_of(s).remove(s[k].0@),
{
    let s2 = s.remove(k);
    let k0 = s[k].0@;
    assert forall|i: int, j: int| #![trigger s2[i].0@, s2[j].0@]
        0 <= i < j < s2.len() implies s2[i].0@ != s2[j].0@ by {
        let io = if i < k { i } else { i + 1 };
        let jo = if j < k { j } else { j + 1 };
        assert(s2[i] == s[io]);
        assert(s2[j] == s[jo]);
    }
    assert forall|n: Seq<char>| #[trigger] has_key(s2, n) implies has_key(s, n) && n != k0 by {
        let i = choose|i: int| 0 <= i < s2.len() && s2[i].0@ == n;
        let io = if i < k { i } else { i + 1 };
        assert(s[io] == s2[i]);
        if io != k {
            if io < k {
                assert(s[io].0@ != s[k].0@);
            } else {
                assert(s[k].0@ != s[io].0@);
            }
        }
    }
    assert forall|n: Seq<char>| #[trigger] has_key(s, n) && n != k0 implies has_key(s2, n) by {
        let i = choose|i: int| 0 <= i < s.len() && s[i].0@ == n;
        assert(i != k);
        let i2 = if i < k { i } else { i - 1 };
        assert(s2[i2] == s[i]);
    }
    assert forall|n: Seq<char>| #[trigger] has_key(s2, n) implies vars_of(s2)[n] == vars_of(
        s,
    )[n] by {
        let i2 = key_index(s2, n);
        assert(0 <= i2 < s2.len() && s2[i2].0@ == n);
        let io = if i2 < k { i2 } else { i2 + 1 };
        assert(s2[i2] == s[io]);
        lemma_vars_of_at(s, io);
        lemma_vars_of_at(s2, i2);
    }
}

/// The map has exactly one key per stored pair.
proof fn lemma_vars_of_len(s: Seq<(String, String)>)
    requires
        distinct_keys(s),
    ensures
        vars_of(s).dom().finite(),
        vars_of(s).dom().len() == s.len(),
{
    let keys = Seq::new(s.len(), |i: int| s[i].0@);
    assert forall|k: Seq<char>| #[trigger] vars_of(s).dom().contains(k) implies keys.to_set()
        .contains(k) by {
        let i = key_index(s, k);
        assert(0 <= i < s.len() && s[i].0@ == k);
        assert(keys[i] == k);
    }
    assert forall|k: Seq<char>| #[trigger] keys.to_set().contains(k) implies vars_of(s)
        .dom()
        .contains(k) by {
        let i = choose|i: int| 0 <= i < keys.len() && keys[i] == k;
        assert(s[i].0@ == k);
    }
    assert(vars_of(s).dom() =~= keys.to_set());
    assert(keys.no_duplicates());
    keys.unique_seq_to_set();
}

/// The environment-variable store.
pub struct Environment {
    vars: Vec<(String, String)>,
}

impl View for Environment {
    type V = Map<Seq<char>, Seq<char>>;

    closed spec fn view(&self) -> Map<Seq<char>, Seq<char>> {
        vars_of(self.vars@)
    }
}

impl Environment {
    #[verifier::type_invariant]
    spec fn inv(&self) -> bool {
        distinct_keys(self.vars@)
    }

    /// An empty store.
    pub fn new() -> (r: Self)
        ensures
            r@ == Map::<Seq<char>, Seq<char>>::empty(),
    {
        let r = Environment { vars: Vec::new() };
        proof {
            assert(r@ =~= Map::<Seq<char>, Seq<char>>::empty());
        }
        r
    }

    /// The value stored under `n`, looked up by the lower-cased name.
    pub fn get_var(&self, n: &str) -> (r: Option<String>)
        ensures
            match r {
                Some(v) => self@.contains_key(lower_of(n@)) && v@ == self@[lower_of(n@)],
                None => !self@.contains_key(lower_of(n@)),
            },
    {
        proof {
            use_type_invariant(&*self);
        }
        let key = to_lower(n);
        match Self::find_in(&self.vars, key.as_str()) {
            Some(i) => {
                proof {
                    lemma_vars_of_at(self.vars@, i as int);
                }
                Some(self.vars[i].1.clone())
            },
            None => None,
        }
    }

    /// Store `v` under the lower-cased form of `n`, replacing any previous
    /// value.
    pub fn set_var(&mut self, n: &str, v: &str)
        ensures
            final(self)@ == old(self)@.insert(lower_of(n@), v@),
    {
        proof {
            use_type_invariant(&*self);
        }
        let key = to_lower(n);
        let mut vars: Vec<(String, String)> = Vec::new();
        std::mem::swap(&mut vars, &mut self.vars);
        let ghost s0 = vars@;
        match Self::find_in(&vars, key.as_str()) {
            Some(i) => {
                proof {
                    lemma_vars_of_remove(vars@, i as int);
                }
                let _ = vars.remove(i);
            },
            None => {},
        }
        let pair = (key, v.to_owned());
        proof {
            lemma_vars_of_push(vars@, pair);
        }
        vars.push(pair);
        std::mem::swap(&mut vars, &mut self.vars);
        proof {
            assert(final(self)@ =~= old(self)@.insert(lower_of(n@), v@));
        }
    }

    /// The index of the pair stored under exactly `key`, if any.
    fn find_in(vars: &Vec<(String, String)>, key: &str) -> (r: Option<usize>)
        ensures
            match r {
                Some(i) => 0 <= i < vars@.len() && vars@[i as int].0@ == key@,
                None => !has_key(vars@, key@),
            },
    {
        let owned: String = key.to_owned();
        let n = vars.len();
        for i in 0..n
            invariant
                n == vars@.len(),
                owned@ == key@,
                forall|j: int| 0 <= j < i ==> vars@[j].0@ != key@,
        {
            if vars[i].0 == owned {
                return Some(i);
            }
        }
        None
    }

    /// Remove the value stored under exactly `n` (the name is not
    /// lower-cased here).
    pub fn unset_var(&mut self, n: &str)
        ensures
            final(self)@ == old(self)@.remove(n@),
    {
        proof {
            use_type_invariant(&*self);
        }
        match Self::find_in(&self.vars, n) {
            Some(i) => {
                proof {
                    lemma_vars_of_remove(self.vars@, i as int);
                }
                let mut vars: Vec<(String, String)> = Vec::new();
                std::mem::swap(&mut vars, &mut self.vars);
                let _ = vars.remove(i);
                std::mem::swap(&mut vars, &mut self.vars);
                proof {
                    assert(final(self)@ =~= old(self)@.remove(n@));
                }
            },
            None => {
                proof {
                    assert(final(self)@ =~= old(self)@.remove(n@));
                }
            },
        }
    }

    /// Every stored name/value pair, one item per variable.
    pub fn items(&self) -> (r: Vec<(String, String)>)
        ensures
            r@.len() == self@.dom().len(),
            forall|i: int|
                0 <= i < r@.len() ==> #[trigger] self@.contains_key(r@[i].0@) && self@[r@[i].0@]
                    == r@[i].1@,
            forall|k: Seq<char>| #[trigger]
                self@.contains_key(k) ==> exists|i: int| 0 <= i < r@.len() && r@[i].0@ == k,
    {
        proof {
            use_type_invariant(&*self);
            lemma_vars_of_len(self.vars@);
        }
        let mut r: Vec<(String, String)> = Vec::new();
        let n = self.vars.len();
        let mut i: usize = 0;
        while i < n
            invariant
                i <= n,
                n == self.vars@.len(),
                distinct_keys(self.vars@),
                r@.len() == i,
                forall|j: int|
                    0 <= j < i ==> r@[j].0@ == #[trigger] self.vars@[j].0@ && r@[j].1@
                        == self.vars@[j].1@,
            decreases n - i,
        {
            let name = self.vars[i].0.clone();
            let value = self.vars[i].1.clone();
            r.push((name, value));
            i += 1;
        }
        proof {
            assert forall|i: int| 0 <= i < r@.len() implies #[trigger] self@.contains_key(r@[i].0@)
                && self@[r@[i].0@] == r@[i].1@ by {
                lemma_vars_of_at(self.vars@, i);
            }
            assert forall|k: Seq<char>| #[trigger] self@.contains_key(k) implies exists|i: int|
                0 <= i < r@.len() && r@[i].0@ == k by {
                let i = key_index(self.vars@, k);
                assert(0 <= i < r@.len() && r@[i].0@ == k);
            }
        }
        r
    }
}

} // verus!
