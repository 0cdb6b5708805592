use vstd::prelude::*;
use vstd::string::*;

use crate::arg_key::ArgKey;

verus! {

/// The keyed values recorded for one tier, in the order they were read.
pub type ParamsView = Seq<(Seq<char>, Seq<char>)>;

/// One record per consumed tier: the positional value and its keyed values.
pub type TiersView = Seq<(Seq<char>, ParamsView)>;

/// How many of `p` carry the key `k`.
pub open spec fn count_in(p: ParamsView, k: Seq<char>) -> nat
    decreases p.len(),
{
    if p.len() == 0 {
        0
    } else {
        count_in(p.drop_last(), k) + if p.last().0 == k {
            1nat
        } else {
            0nat
        }
    }
}

/// The values of `p` that carry the key `k`, in order.
pub open spec fn values_in(p: ParamsView, k: Seq<char>) -> Seq<Seq<char>>
    decreases p.len(),
{
    if p.len() == 0 {
        Seq::empty()
    } else if p.last().0 == k {
        values_in(p.drop_last(), k).push(p.last().1)
    } else {
        values_in(p.drop_last(), k)
    }
}

/// The keyed values of the last tier, or none when no tier was consumed.
pub open spec fn last_params(a: TiersView) -> ParamsView {
    if a.len() == 0 {
        Seq::empty()
    } else {
        a.last().1
    }
}

/// `a` with `(k, v)` appended to the keyed values of its last tier.
pub open spec fn push_param(a: TiersView, k: Seq<char>, v: Seq<char>) -> TiersView {
    if a.len() == 0 {
        a
    } else {
        a.update(a.len() - 1, (a.last().0, a.last().1.push((k, v))))
    }
}

pub proof fn lemma_values_in_len(p: ParamsView, k: Seq<char>)
    ensures
        values_in(p, k).len() == count_in(p, k),
        count_in(p, k) <= p.len(),
    decreases p.len(),
{
    if p.len() > 0 {
        lemma_values_in_len(p.drop_last(), k);
    }
}

pub open spec fn params_view(v: Seq<(ArgKey, String)>) -> ParamsView {
    Seq::new(v.len(), |i: int| (v[i].0@, v[i].1@))
}

/// The record of one consumed tier.
#[derive(Debug)]
pub struct ParsedTier {
    value: String,
    params: Vec<(ArgKey, String)>,
}

impl View for ParsedTier {
    type V = (Seq<char>, ParamsView);

    closed spec fn view(&self) -> (Seq<char>, ParamsView) {
        (self.value@, params_view(self.params@))
    }
}

/// The accumulated result of parsing: one record per consumed tier.
#[derive(Debug)]
pub struct ParsedArg {
    values: Vec<ParsedTier>,
}

impl View for ParsedArg {
    type V = TiersView;

    closed spec fn view(&self) -> TiersView {
        Seq::new(self.values@.len(), |i: int| self.values@[i]@)
    }
}

impl Default for ParsedArg {
    fn default() -> (r: Self)
        ensures
            r@ == TiersView::empty(),
    {
        ParsedArg { values: Vec::new() }
    }
}

impl ParsedArg {
    pub fn new() -> (r: Self)
        ensures
            r@ == TiersView::empty(),
    {
        ParsedArg { values: Vec::new() }
    }

    /// Opens the record of a new tier whose positional value is `v`.
    pub fn add_positional_argument(&mut self, v: String) -> (r: &mut Self)
        ensures
            r@ == old(self)@.push((v@, ParamsView::empty())),
            *final(self) == *final(r),
    {
        let t = ParsedTier { value: v, params: Vec::new() };
        proof {
            assert(params_view(t.params@) =~= ParamsView::empty());
        }
        self.values.push(t);
        proof {
            assert(self@ =~= old(self)@.push((v@, ParamsView::empty())));
        }
        self
    }

    /// Records `(k, v)` in the last tier; nothing happens when no tier was opened.
    pub fn add_argument(&mut self, k: ArgKey, v: String) -> (r: &mut Self)
        ensures
            r@ == push_param(old(self)@, k@, v@),
            *final(self) == *final(r),
    {
        let n = self.values.len();
        if n == 0 {
            return self;
        }
        let ghost kv = k@;
        let ghost vv = v@;
        let mut last = self.values.pop().unwrap();
        let ghost old_params = last.params@;
        last.params.push((k, v));
        proof {
            assert(params_view(last.params@) =~= params_view(old_params).push((kv, vv)));
        }
        self.values.push(last);
        proof {
            assert(self@ =~= push_param(old(self)@, kv, vv));
        }
        self
    }

    /// The positional value of the last tier.
    pub fn arg(&self) -> (r: &str)
        requires
            self@.len() > 0,
        ensures
            r@ == self@.last().0,
    {
        self.values[self.values.len() - 1].value.as_str()
    }

    /// The positional value of tier `i`, if that tier was consumed.
    pub fn positional_value(&self, i: usize) -> (r: Option<&str>)
        ensures
            i < self@.len() ==> (r matches Some(s) && s@ == self@[i as int].0),
            i >= self@.len() ==> r.is_none(),
    {
        if i < self.values.len() {
            Some(self.values[i].value.as_str())
        } else {
            None
        }
    }

    /// The keyed values of the last tier, in the order they were read.
    pub fn param_iter(&self) -> (r: &[(ArgKey, String)])
        ensures
            params_view(r@) == last_params(self@),
    {
        let n = self.values.len();
        if n == 0 {
            let e: &[(ArgKey, String)] = &[];
            proof {
                assert(params_view(e@) =~= last_params(self@));
            }
            e
        } else {
            let r = self.values[n - 1].params.as_slice();
            r
        }
    }

    /// The number of tiers consumed so far.
    pub fn len(&self) -> (r: usize)
        ensures
            r == self@.len(),
    {
        self.values.len()
    }

    pub fn is_empty(&self) -> (r: bool)
        ensures
            r == (self@.len() == 0),
    {
        self.values.len() == 0
    }

    /// The first value given for `k` in the last tier.
    pub fn first_of(&self, k: &ArgKey) -> (r: Option<&String>)
        ensures
            r.is_none() <==> count_in(last_params(self@), k@) == 0,
            r matches Some(v) ==> v@ == values_in(last_params(self@), k@)[0],
    {
        let p = self.param_iter();
        let ghost pv = params_view(p@);
        let n = p.len();
        let mut i: usize = 0;
        while i < n
            invariant
                n == p@.len(),
                pv == params_view(p@),
                pv == last_params(self@),
                0 <= i <= n,
                count_in(pv.subrange(0, i as int), k@) == 0,
            decreases n - i,
        {
            proof {
                assert(pv.subrange(0, i + 1).drop_last() =~= pv.subrange(0, i as int));
            }
            if p[i].0 == *k {
                proof {
                    assert(pv[i as int].0 == k@);
                    lemma_values_prefix(pv, k@, i as int);
                    assert(pv[i as int].1 == p@[i as int].1@);
                }
                return Some(&p[i].1);
            }
            i = i + 1;
        }
        proof {
            assert(pv.subrange(0, n as int) =~= pv);
        }
        None
    }

    /// All values given for `k` in the last tier, in order.
    pub fn filter(&self, key: &ArgKey) -> (r: Vec<String>)
        ensures
            r@.len() == values_in(last_params(self@), key@).len(),
            forall|i: int| 0 <= i < r@.len() ==> #[trigger] r@[i]@ == values_in(last_params(self@), key@)[i],
    {
        let p = self.param_iter();
        let ghost pv = params_view(p@);
        let n = p.len();
        let mut out: Vec<String> = Vec::new();
        let mut i: usize = 0;
        while i < n
            invariant
                n == p@.len(),
                pv == params_view(p@),
                pv == last_params(self@),
                0 <= i <= n,
                out@.len() == values_in(pv.subrange(0, i as int), key@).len(),
                forall|j: int| 0 <= j < out@.len() ==> #[trigger] out@[j]@ == values_in(pv.subrange(0, i as int), key@)[j],
            decreases n - i,
        {
            proof {
                assert(pv.subrange(0, i + 1).drop_last() =~= pv.subrange(0, i as int));
            }
            if p[i].0 == *key {
                out.push(p[i].1.clone());
            }
            i = i + 1;
        }
        proof {
            assert(pv.subrange(0, n as int) =~= pv);
        }
        out
    }

    /// How many values were given for `key` in the last tier.
    pub fn count(&self, key: &ArgKey) -> (r: usize)
        ensures
            r == count_in(last_params(self@), key@),
    {
        let p = self.param_iter();
        let ghost pv = params_view(p@);
        let n = p.len();
        let mut c: usize = 0;
        let mut i: usize = 0;
        while i < n
            invariant
                n == p@.len(),
                pv == params_view(p@),
                pv == last_params(self@),
                0 <= i <= n,
                c == count_in(pv.subrange(0, i as int), key@),
            decreases n - i,
        {
            proof {
                assert(pv.subrange(0, i + 1).drop_last() =~= pv.subrange(0, i as int));
                lemma_values_in_len(pv.subrange(0, i as int), key@);
            }
            if p[i].0 == *key {
                c = c + 1;
            }
            i = i + 1;
        }
        proof {
            assert(pv.subrange(0, n as int) =~= pv);
        }
        c
    }

    /// Whether any value was given for `key` in the last tier.
    pub fn contains(&self, key: &ArgKey) -> (r: bool)
        ensures
            r == (count_in(last_params(self@), key@) > 0),
    {
        self.first_of(key).is_some()
    }
    /// The first value given for the key written `k` in the last tier.
    pub fn first_of_str(&self, k: &str) -> (r: Option<&String>)
        ensures
            r.is_none() <==> count_in(last_params(self@), k@) == 0,
            r matches Some(v) ==> v@ == values_in(last_params(self@), k@)[0],
    {
        let key = ArgKey { value: String::from_str(k) };
        self.first_of(&key)
    }

    /// All values given for the key written `k` in the last tier, in order.
    pub fn filter_str(&self, k: &str) -> (r: Vec<String>)
        ensures
            r@.len() == values_in(last_params(self@), k@).len(),
            forall|i: int| 0 <= i < r@.len() ==> #[trigger] r@[i]@ == values_in(last_params(self@), k@)[i],
    {
        let key = ArgKey { value: String::from_str(k) };
        self.filter(&key)
    }

    /// How many values were given for the key written `k` in the last tier.
    pub fn count_str(&self, k: &str) -> (r: usize)
        ensures
            r == count_in(last_params(self@), k@),
    {
        let key = ArgKey { value: String::from_str(k) };
        self.count(&key)
    }

    /// Whether any value was given for the key written `k` in the last tier.
    pub fn contains_str(&self, k: &str) -> (r: bool)
        ensures
            r == (count_in(last_params(self@), k@) > 0),
    {
        let key = ArgKey { value: String::from_str(k) };
        self.contains(&key)
    }
}

/// When the first `i` entries of `p` do not carry `k` and entry `i` does,
/// the first value for `k` is that of entry `i`.
proof fn lemma_values_prefix(p: ParamsView, k: Seq<char>, i: int)
    requires
        0 <= i < p.len(),
        count_in(p.subrange(0, i), k) == 0,
        p[i].0 == k,
    ensures
        count_in(p, k) > 0,
        values_in(p, k).len() > 0,
        values_in(p, k)[0] == p[i].1,
    decreases p.len(),
{
    lemma_values_in_len(p.subrange(0, i), k);
    if p.len() == i + 1 {
        assert(p.drop_last() =~= p.subrange(0, i));
        lemma_values_in_len(p.drop_last(), k);
    } else {
        let q = p.drop_last();
        assert(q.subrange(0, i) =~= p.subrange(0, i));
        lemma_values_prefix(q, k, i);
        lemma_values_in_len(q, k);
    }
}

} // verus!
