use vstd::prelude::*;
use vstd::string::*;

use crate::arg_key::ArgKey;
use crate::arg_parser::{KeyedSpec, Outcome, keyed_spec, find_param, lemma_find_param, parse_tier, parse_from, parse_tier_with, resume_index};
use crate::argument::Arg;
use crate::decimal::{decimal, dec_of};
use crate::error::{ArgParseError, error_of, error_from_kind};
use crate::parse_error;
use crate::parsed_arg::{ParsedArg, TiersView};
use crate::raw_args::RawArgs;

verus! {

/// Whether `r` is what `o` describes, errors reported as [`ArgParseError`],
/// with the same records and tokens left.
pub open spec fn meets_arg(o: Outcome, r: Result<(), ArgParseError>, a: TiersView, raw: Seq<Seq<char>>) -> bool {
    match o {
        Ok((a1, r1)) => r.is_ok() && a == a1 && raw == r1,
        Err((e, k, a1, r1)) => r matches Err(err) && err.err == error_of(e) && err.pos@ == k && a == a1 && raw == r1,
    }
}

fn to_arg_error(e: parse_error::ParseError) -> (r: ArgParseError)
    ensures
        r.err == error_of(e.kind),
        e.key matches Some(k) ==> r.pos@ == k@,
{
    let pos = match e.key {
        Some(k) => k,
        None => String::new(),
    };
    ArgParseError::new(pos, error_from_kind(e.kind))
}

/// One positional level: its positional argument and its keyed arguments.
#[derive(Debug)]
pub struct ArgStructure {
    positional: Arg,
    parameters: Vec<(ArgKey, Arg)>,
}

impl ArgStructure {
    pub closed spec fn spec_pos(&self) -> Arg {
        self.positional
    }

    pub closed spec fn spec_params(&self) -> KeyedSpec<Arg> {
        keyed_spec(self.parameters@)
    }

    pub fn new(arg: Arg) -> (r: Self)
        ensures
            r.spec_pos() == arg,
            r.spec_params().len() == 0,
    {
        ArgStructure { positional: arg, parameters: Vec::new() }
    }

    /// The keyed argument registered under `k`, registered afresh (without
    /// constraints) when there is none.
    pub fn add_argument(&mut self, k: ArgKey) -> (r: &mut Arg)
        ensures
            find_param(old(self).spec_params(), k@) < old(self).spec_params().len() ==> {
                &&& *r == old(self).spec_params()[find_param(old(self).spec_params(), k@)].1
                &&& final(self).spec_params() == old(self).spec_params().update(
                    find_param(old(self).spec_params(), k@),
                    (k@, *final(r)),
                )
            },
            find_param(old(self).spec_params(), k@) >= old(self).spec_params().len() ==> {
                &&& r.inner.help_text.is_none()
                &&& r.inner.spec_validators().len() == 0
                &&& final(self).spec_params() == old(self).spec_params().push((k@, *final(r)))
            },
            final(self).spec_pos() == old(self).spec_pos(),
    {
        let ghost ps = self.spec_params();
        proof {
            lemma_find_param(ps, k@);
        }
        let n = self.parameters.len();
        let mut i: usize = 0;
        while i < n
            invariant
                n == self.parameters@.len(),
                ps == self.spec_params(),
                0 <= i <= n,
                forall|j: int| 0 <= j < i ==> ps[j].0 != k@,
                0 <= find_param(ps, k@) <= ps.len(),
                forall|j: int| 0 <= j < find_param(ps, k@) ==> ps[j].0 != k@,
                find_param(ps, k@) < ps.len() ==> ps[find_param(ps, k@)].0 == k@,
            ensures
                n == self.parameters@.len(),
                ps == self.spec_params(),
                0 <= i <= n,
                forall|j: int| 0 <= j < i ==> ps[j].0 != k@,
                i < n ==> ps[i as int].0 == k@,
                0 <= find_param(ps, k@) <= ps.len(),
                forall|j: int| 0 <= j < find_param(ps, k@) ==> ps[j].0 != k@,
                find_param(ps, k@) < ps.len() ==> ps[find_param(ps, k@)].0 == k@,
            decreases n - i,
        {
            if self.parameters[i].0 == k {
                break;
            }
            i = i + 1;
        }
        if i == n {
            self.parameters.push((k, Arg::new()));
        }
        proof {
            let f = find_param(ps, k@);
            if f < i {
                assert(ps[f].0 == k@);
            }
            if i < f && i < n {
                assert(ps[i as int].0 == k@);
            }
            assert(f == i);
        }
        &mut self.parameters[i].1
    }

    /// Registers a keyed argument under `k` without checking its shape.
    pub fn add_argument_unchecked(&mut self, k: &str) -> (r: &mut Arg)
        ensures
            find_param(old(self).spec_params(), k@) < old(self).spec_params().len() ==> {
                &&& *r == old(self).spec_params()[find_param(old(self).spec_params(), k@)].1
                &&& final(self).spec_params() == old(self).spec_params().update(
                    find_param(old(self).spec_params(), k@),
                    (k@, *final(r)),
                )
            },
            find_param(old(self).spec_params(), k@) >= old(self).spec_params().len() ==> {
                &&& r.inner.help_text.is_none()
                &&& r.inner.spec_validators().len() == 0
                &&& final(self).spec_params() == old(self).spec_params().push((k@, *final(r)))
            },
            final(self).spec_pos() == old(self).spec_pos(),
    {
        self.add_argument(ArgKey { value: String::from_str(k) })
    }

    /// The keyed arguments, in registration order.
    pub fn param_iter(&self) -> (r: &[(ArgKey, Arg)])
        ensures
            keyed_spec(r@) == self.spec_params(),
    {
        self.parameters.as_slice()
    }

    pub fn param_len(&self) -> (r: usize)
        ensures
            r == self.spec_params().len(),
    {
        self.parameters.len()
    }

    /// The positional argument.
    pub fn arg(&self) -> (r: &Arg)
        ensures
            *r == self.spec_pos(),
    {
        &self.positional
    }

    pub fn arg_mut(&mut self) -> (r: &mut Arg)
        ensures
            *r == old(self).spec_pos(),
            final(self).spec_pos() == *final(r),
            final(self).spec_params() == old(self).spec_params(),
    {
        &mut self.positional
    }

    fn parse(&self, pos_name: &str, values: &mut ParsedArg, raw: &mut RawArgs, parse_positional: bool) -> (r: Result<(), ArgParseError>)
        ensures
            meets_arg(
                parse_tier(self.spec_pos(), self.spec_params(), pos_name@, old(values)@, old(raw)@, parse_positional),
                r,
                final(values)@,
                final(raw)@,
            ),
    {
        match parse_tier_with(&self.positional, &self.parameters, pos_name, values, raw, parse_positional) {
            Ok(_) => Ok(()),
            Err(e) => Err(to_arg_error(e)),
        }
    }
}

/// Each tier as its positional argument and its keyed arguments.
pub open spec fn tiers_of(s: Seq<ArgStructure>) -> Seq<(Arg, KeyedSpec<Arg>)> {
    Seq::new(s.len(), |i: int| (s[i].spec_pos(), s[i].spec_params()))
}

proof fn lemma_tiers_of_update(s: Seq<ArgStructure>, n: int)
    requires
        0 <= n < s.len(),
    ensures
        forall|x: ArgStructure| #[trigger] tiers_of(s.update(n, x)) == tiers_of(s).update(n, (x.spec_pos(), x.spec_params())),
        forall|x: ArgStructure| #[trigger] tiers_of(s.update(n, x)).drop_last() == tiers_of(s).drop_last() || n != s.len() - 1,
{
    assert forall|x: ArgStructure| #[trigger] tiers_of(s.update(n, x)) == tiers_of(s).update(n, (x.spec_pos(), x.spec_params())) by {
        assert(tiers_of(s.update(n, x)) =~= tiers_of(s).update(n, (x.spec_pos(), x.spec_params())));
    }
    assert forall|x: ArgStructure| #[trigger] tiers_of(s.update(n, x)).drop_last() == tiers_of(s).drop_last() || n != s.len() - 1 by {
        if n == s.len() - 1 {
            assert(tiers_of(s.update(n, x)).drop_last() =~= tiers_of(s).drop_last());
        }
    }
}

/// A parser: an ordered sequence of tiers.
#[derive(Debug)]
pub struct ArgumentParser {
    args: Vec<ArgStructure>,
}

impl Default for ArgumentParser {
    fn default() -> (r: Self)
        ensures
            r.wf(),
            r.spec_tiers().len() == 1,
            r.spec_tiers()[0].1.len() == 0,
    {
        let mut args: Vec<ArgStructure> = Vec::new();
        args.push(ArgStructure::new(Arg::positional()));
        ArgumentParser { args }
    }
}

impl ArgumentParser {
    /// The tiers, each as its positional argument and its keyed arguments.
    pub closed spec fn spec_tiers(&self) -> Seq<(Arg, KeyedSpec<Arg>)> {
        tiers_of(self.args@)
    }

    /// Whether the parser is well formed: it has at least one tier, the
    /// last of which receives new keyed arguments.
    pub open spec fn wf(&self) -> bool {
        self.spec_tiers().len() >= 1
    }

    /// Registers a keyed argument under `k` in the last tier and hands it
    /// out; see [`ArgStructure::add_argument`].
    pub fn add_argument(&mut self, k: ArgKey) -> (r: &mut Arg)
        requires
            old(self).wf(),
        ensures
            final(self).spec_tiers().len() == old(self).spec_tiers().len(),
            final(self).spec_tiers().drop_last() == old(self).spec_tiers().drop_last(),
            final(self).spec_tiers().last().0 == old(self).spec_tiers().last().0,
            ({
                let p = old(self).spec_tiers().last().1;
                let q = final(self).spec_tiers().last().1;
                &&& find_param(p, k@) < p.len() ==> *r == p[find_param(p, k@)].1 && q == p.update(find_param(p, k@), (k@, *final(r)))
                &&& find_param(p, k@) >= p.len() ==> r.inner.help_text.is_none() && r.inner.spec_validators().len() == 0
                    && q == p.push((k@, *final(r)))
            }),
    {
        let n = self.args.len() - 1;
        proof {
            lemma_tiers_of_update(self.args@, n as int);
        }
        let last = &mut self.args[n];
        last.add_argument(k)
    }

    /// Registers a keyed argument under `k` in the last tier, without
    /// checking its shape.
    pub fn add_argument_unchecked(&mut self, k: &str) -> (r: &mut Arg)
        requires
            old(self).wf(),
        ensures
            final(self).spec_tiers().len() == old(self).spec_tiers().len(),
            final(self).spec_tiers().drop_last() == old(self).spec_tiers().drop_last(),
            final(self).spec_tiers().last().0 == old(self).spec_tiers().last().0,
            ({
                let p = old(self).spec_tiers().last().1;
                let q = final(self).spec_tiers().last().1;
                &&& find_param(p, k@) < p.len() ==> *r == p[find_param(p, k@)].1 && q == p.update(find_param(p, k@), (k@, *final(r)))
                &&& find_param(p, k@) >= p.len() ==> r.inner.help_text.is_none() && r.inner.spec_validators().len() == 0
                    && q == p.push((k@, *final(r)))
            }),
    {
        self.add_argument(ArgKey { value: String::from_str(k) })
    }

    /// The tiers, in order.
    pub fn arg_iter(&self) -> (r: &[ArgStructure])
        ensures
            tiers_of(r@) == self.spec_tiers(),
    {
        self.args.as_slice()
    }

    /// The tiers, in order, for changing in place.
    pub fn arg_iter_mut(&mut self) -> (r: &mut [ArgStructure])
        ensures
            tiers_of(r@) == old(self).spec_tiers(),
            final(self).spec_tiers() == tiers_of(final(r)@),
    {
        self.args.as_mut_slice()
    }

    /// The last tier.
    pub fn last_arg(&self) -> (r: &ArgStructure)
        requires
            self.wf(),
        ensures
            r.spec_pos() == self.spec_tiers().last().0,
            r.spec_params() == self.spec_tiers().last().1,
    {
        &self.args[self.args.len() - 1]
    }

    /// The last tier, for changing in place.
    pub fn last_mut_arg(&mut self) -> (r: &mut ArgStructure)
        requires
            old(self).wf(),
        ensures
            r.spec_pos() == old(self).spec_tiers().last().0,
            r.spec_params() == old(self).spec_tiers().last().1,
            final(self).spec_tiers() == old(self).spec_tiers().update(
                old(self).spec_tiers().len() - 1,
                (final(r).spec_pos(), final(r).spec_params()),
            ),
    {
        let n = self.args.len() - 1;
        proof {
            lemma_tiers_of_update(self.args@, n as int);
        }
        &mut self.args[n]
    }

    /// Tier `id`, if there is one, for changing in place.
    pub fn get_mut(&mut self, id: usize) -> (r: Option<&mut ArgStructure>)
        ensures
            id >= old(self).spec_tiers().len() ==> r.is_none() && final(self).spec_tiers() == old(self).spec_tiers(),
            id < old(self).spec_tiers().len() ==> (r matches Some(t) && t.spec_pos() == old(self).spec_tiers()[id as int].0
                && t.spec_params() == old(self).spec_tiers()[id as int].1
                && final(self).spec_tiers() == old(self).spec_tiers().update(
                    id as int,
                    (final(t).spec_pos(), final(t).spec_params()),
                )),
    {
        if id < self.args.len() {
            proof {
                lemma_tiers_of_update(self.args@, id as int);
            }
            Some(&mut self.args[id])
        } else {
            None
        }
    }

    /// A parser with one tier, whose positional argument occurs exactly once.
    pub fn new() -> (r: Self)
        ensures
            r.wf(),
            r.spec_tiers().len() == 1,
            r.spec_tiers()[0].0.inner.spec_validators() == seq![crate::arg::ValidatorView::Count(1, 1)],
            r.spec_tiers()[0].1.len() == 0,
    {
        let mut args: Vec<ArgStructure> = Vec::new();
        let pos = Arg::positional();
        args.push(ArgStructure::new(pos));
        let r = ArgumentParser { args };
        proof {
            assert(r.spec_tiers()[0].0 == pos);
        }
        r
    }

    /// Appends a tier and hands out its positional argument, which occurs
    /// exactly once unless changed.
    pub fn add_positional(&mut self) -> (r: &mut Arg)
        ensures
            final(self).wf(),
            r.inner.spec_validators() == seq![crate::arg::ValidatorView::Count(1, 1)],
            final(self).spec_tiers() == old(self).spec_tiers().push((*final(r), KeyedSpec::<Arg>::empty())),
    {
        let t = ArgStructure::new(Arg::positional());
        proof {
            assert(t.spec_params() =~= KeyedSpec::<Arg>::empty());
        }
        self.args.push(t);
        let last = self.args.len() - 1;
        self.args[last].arg_mut()
    }

    /// The number of tiers.
    pub fn len(&self) -> (r: usize)
        ensures
            r == self.spec_tiers().len(),
    {
        self.args.len()
    }

    pub fn is_empty(&self) -> (r: bool)
        ensures
            r == (self.spec_tiers().len() == 0),
    {
        self.args.len() == 0
    }

    /// Tier `id`, if there is one.
    pub fn get(&self, id: usize) -> (r: Option<&ArgStructure>)
        ensures
            id < self.spec_tiers().len() ==> (r matches Some(t) && t.spec_pos() == self.spec_tiers()[id as int].0
                && t.spec_params() == self.spec_tiers()[id as int].1),
            id >= self.spec_tiers().len() ==> r.is_none(),
    {
        if id < self.args.len() {
            Some(&self.args[id])
        } else {
            None
        }
    }

    /// Resumes parsing: from the last tier already recorded in `values`
    /// (whose positional value is not read again) through the last tier.
    /// Positional errors are tagged with the tier's index.
    pub fn parse_mut_args(&self, values: &mut ParsedArg, raw: &mut RawArgs) -> (r: Result<(), ArgParseError>)
        ensures
            meets_arg(
                parse_from(self.spec_tiers(), Seq::empty(), resume_index(old(values)@.len()), old(values)@, old(raw)@),
                r,
                final(values)@,
                final(raw)@,
            ),
    {
        let ghost tiers = self.spec_tiers();
        let n = self.args.len();
        let start: usize = if values.len() == 0 {
            0
        } else {
            values.len() - 1
        };
        let mut i: usize = start;
        while i < n
            invariant
                n == tiers.len(),
                tiers == self.spec_tiers(),
                start <= i,
                start == resume_index(old(values)@.len()),
                parse_from(tiers, Seq::empty(), start as nat, old(values)@, old(raw)@)
                    == parse_from(tiers, Seq::empty(), i as nat, values@, raw@),
            decreases n - i,
        {
            let consume = values.len() <= i;
            let name = decimal(i as u64);
            proof {
                assert(Seq::<char>::empty() + dec_of(i as nat) =~= name@);
            }
            match self.args[i].parse(name.as_str(), values, raw, consume) {
                Err(e) => {
                    return Err(e);
                },
                Ok(_) => {},
            }
            i = i + 1;
        }
        Ok(())
    }

    /// Parses every tier from the start.
    pub fn parse_args(&self, raw: &mut RawArgs) -> (r: Result<ParsedArg, ArgParseError>)
        ensures
            match parse_from(self.spec_tiers(), Seq::empty(), 0, TiersView::empty(), old(raw)@) {
                Ok((a, rw)) => r matches Ok(pa) && pa@ == a && final(raw)@ == rw,
                Err((e, k, _, rw)) => r matches Err(err) && err.err == error_of(e) && err.pos@ == k
                    && final(raw)@ == rw,
            },
    {
        let mut args = ParsedArg::new();
        match self.parse_mut_args(&mut args, raw) {
            Ok(_) => Ok(args),
            Err(e) => Err(e),
        }
    }
}

} // verus!
