use vstd::prelude::*;
use vstd::string::*;

use crate::arg::{ArgValidator, Arg, opt_view};
use crate::arg_key::{ArgKey, is_key_shape, is_option_token, key_part, value_part, has_char, first_index_of, lemma_first_index_of};
use crate::decimal::{decimal, dec_of};
use crate::parse_error::{ParseError, ParseErrorKind};
use crate::parsed_arg::{ParsedArg, TiersView, ParamsView, push_param};
use crate::raw_args::RawArgs;

verus! {

/// The keyed arguments of a tier, by key.
pub type KeyedSpec<A> = Seq<(Seq<char>, A)>;

/// Either the records and the tokens left, or the error kind, the key or
/// slot name it is attached to, and the records and the tokens left when it
/// was raised.
pub type Outcome = Result<(TiersView, Seq<Seq<char>>), (ParseErrorKind, Seq<char>, TiersView, Seq<Seq<char>>)>;

pub open spec fn keyed_spec<A>(p: Seq<(ArgKey, A)>) -> KeyedSpec<A> {
    Seq::new(p.len(), |i: int| (p[i].0@, p[i].1))
}

/// The slot of the first keyed argument whose key is `k`, or `p.len()`.
pub open spec fn find_param<A>(p: KeyedSpec<A>, k: Seq<char>) -> int
    decreases p.len(),
{
    if p.len() == 0 {
        0
    } else if p[0].0 == k {
        0
    } else {
        1 + find_param(p.drop_first(), k)
    }
}

pub proof fn lemma_find_param<A>(p: KeyedSpec<A>, k: Seq<char>)
    ensures
        0 <= find_param(p, k) <= p.len(),
        forall|j: int| 0 <= j < find_param(p, k) ==> p[j].0 != k,
        find_param(p, k) < p.len() ==> p[find_param(p, k)].0 == k,
    decreases p.len(),
{
    if p.len() > 0 && p[0].0 != k {
        lemma_find_param(p.drop_first(), k);
        assert forall|j: int| 0 <= j < find_param(p, k) implies p[j].0 != k by {
            if j > 0 {
                assert(p[j] == p.drop_first()[j - 1]);
            }
        }
    }
}

pub open spec fn or_empty(v: Option<Seq<char>>) -> Seq<char> {
    match v {
        Some(s) => s,
        None => Seq::empty(),
    }
}

/// Reads the keyed arguments of one tier from `raw`, token by token, until a
/// token is not the key of one of `p`. A value may be given inline
/// (`--k=v`); where the argument reports a missing value, the following
/// token is tried as the value once.
pub open spec fn parse_keyed<A: ArgValidator>(p: KeyedSpec<A>, a: TiersView, raw: Seq<Seq<char>>) -> Outcome
    decreases raw.len(),
{
    if raw.len() == 0 || !is_option_token(raw[0]) || find_param(p, key_part(raw[0])) >= p.len() {
        Ok((a, raw))
    } else {
        let k = key_part(raw[0]);
        let arg = p[find_param(p, k)].1;
        let iv = value_part(raw[0]);
        let rest = raw.drop_first();
        match arg.validate_spec(iv) {
            None => parse_keyed(p, push_param(a, k, or_empty(iv)), rest),
            Some(e) => if e == ParseErrorKind::NoValueGiven {
                let v2 = if rest.len() > 0 {
                    Some(rest[0])
                } else {
                    None
                };
                match arg.validate_spec(v2) {
                    None => parse_keyed(
                        p,
                        push_param(a, k, or_empty(v2)),
                        if rest.len() > 0 {
                            rest.drop_first()
                        } else {
                            rest
                        },
                    ),
                    Some(e2) => Err((e2, k, a, rest)),
                }
            } else {
                Err((e, k, a, raw))
            },
        }
    }
}

/// Runs the tier-end check of every keyed argument of `p`, in order, each
/// error tagged with its key.
pub open spec fn post_all<A: ArgValidator>(p: KeyedSpec<A>, a: TiersView) -> Result<TiersView, (ParseErrorKind, Seq<char>, TiersView)>
    decreases p.len(),
{
    if p.len() == 0 {
        Ok(a)
    } else {
        let (a1, e) = p[0].1.post_spec(Some(p[0].0), a);
        match e {
            Some(e) => Err((e, p[0].0, a1)),
            None => post_all(p.drop_first(), a1),
        }
    }
}

/// Reads the positional value of a tier, when `consume` asks for one and a
/// token is left; errors are tagged with `slot`.
pub open spec fn parse_positional<A: ArgValidator>(pos: A, slot: Seq<char>, a: TiersView, raw: Seq<Seq<char>>, consume: bool) -> Outcome {
    if consume && raw.len() > 0 {
        if is_key_shape(raw[0]) {
            Err((ParseErrorKind::NotPositional, slot, a, raw))
        } else {
            match pos.validate_spec(Some(raw[0])) {
                Some(e) => Err((e, slot, a, raw)),
                None => {
                    let (a1, e) = pos.post_spec(None, a.push((raw[0], ParamsView::empty())));
                    match e {
                        Some(e) => Err((e, slot, a1, raw)),
                        None => Ok((a1, raw.drop_first())),
                    }
                },
            }
        }
    } else {
        Ok((a, raw))
    }
}

/// One tier: its positional value, then its keyed arguments, then the
/// tier-end checks of its keyed arguments.
pub open spec fn parse_tier<A: ArgValidator>(pos: A, p: KeyedSpec<A>, slot: Seq<char>, a: TiersView, raw: Seq<Seq<char>>, consume: bool) -> Outcome {
    match parse_positional(pos, slot, a, raw, consume) {
        Err(e) => Err(e),
        Ok((a1, r1)) => match parse_keyed(p, a1, r1) {
            Err(e) => Err(e),
            Ok((a2, r2)) => match post_all(p, a2) {
                Err((e, k, a3)) => Err((e, k, a3, r2)),
                Ok(a3) => Ok((a3, r2)),
            },
        },
    }
}

/// Whether `r` is what `o` describes: success or an error of the same kind
/// tagged with the same key, with the same records and tokens left.
pub open spec fn meets(o: Outcome, r: Result<(), ParseError>, a: TiersView, raw: Seq<Seq<char>>) -> bool {
    match o {
        Ok((a1, r1)) => r.is_ok() && a == a1 && raw == r1,
        Err((e, k, a1, r1)) => r matches Err(err) && err.kind == e && (err.key matches Some(kk) && kk@ == k)
            && a == a1 && raw == r1,
    }
}

fn opt_as_str(v: &Option<String>) -> (r: Option<&str>)
    ensures
        opt_view(r) == match v {
            Some(s) => Some(s@),
            None => None::<Seq<char>>,
        },
{
    match v {
        Some(s) => Some(s.as_str()),
        None => None,
    }
}

fn find_param_exec<A>(p: &Vec<(ArgKey, A)>, k: &ArgKey) -> (r: usize)
    ensures
        r == find_param(keyed_spec(p@), k@),
{
    let ghost ps = keyed_spec(p@);
    proof {
        lemma_find_param(ps, k@);
    }
    let n = p.len();
    let mut i: usize = 0;
    while i < n
        invariant
            n == p@.len(),
            ps == keyed_spec(p@),
            0 <= i <= n,
            forall|j: int| 0 <= j < i ==> ps[j].0 != k@,
            0 <= find_param(ps, k@) <= ps.len(),
            forall|j: int| 0 <= j < find_param(ps, k@) ==> ps[j].0 != k@,
            find_param(ps, k@) < ps.len() ==> ps[find_param(ps, k@)].0 == k@,
        decreases n - i,
    {
        if p[i].0 == *k {
            proof {
                assert(ps[i as int].0 == k@);
            }
            return i;
        }
        i = i + 1;
    }
    n
}

/// Reads the positional value of a tier; see [`parse_positional`].
fn positional_exec<A: ArgValidator>(pos: &A, slot: &str, args: &mut ParsedArg, raw: &mut RawArgs, consume: bool) -> (r: Result<(), ParseError>)
    ensures
        meets(parse_positional(*pos, slot@, old(args)@, old(raw)@, consume), r, final(args)@, final(raw)@),
{
    if !consume {
        return Ok(());
    }
    let current = match raw.peek() {
        None => {
            return Ok(());
        },
        Some(t) => t.clone(),
    };
    if ArgKey::is_arg_key(current.as_str()) {
        return Err(ParseError::not_positional("expected a positional value, found an option").key(String::from_str(slot)));
    }
    match pos.validate(Some(current.as_str())) {
        Err(e) => {
            return Err(e.key(String::from_str(slot)));
        },
        Ok(_) => {},
    }
    args.add_positional_argument(current);
    match pos.post_validate(None, args) {
        Err(e) => {
            return Err(e.key(String::from_str(slot)));
        },
        Ok(_) => {},
    }
    raw.advance();
    Ok(())
}

/// Reads the keyed arguments of a tier; see [`parse_keyed`].
fn parse_params<A: ArgValidator>(p: &Vec<(ArgKey, A)>, args: &mut ParsedArg, raw: &mut RawArgs) -> (r: Result<(), ParseError>)
    ensures
        meets(parse_keyed(keyed_spec(p@), old(args)@, old(raw)@), r, final(args)@, final(raw)@),
{
    let ghost ps = keyed_spec(p@);
    let ghost target = parse_keyed(ps, args@, raw@);
    loop
        invariant
            ps == keyed_spec(p@),
            parse_keyed(ps, args@, raw@) == target,
            target == parse_keyed(ps, old(args)@, old(raw)@),
        ensures
            target == Outcome::Ok((args@, raw@)),
        decreases raw@.len(),
    {
        let tok = match raw.peek() {
            None => {
                break;
            },
            Some(t) => t.clone(),
        };
        let (key, inline) = match ArgKey::parse_arg(tok.as_str()) {
            Err(_) => {
                break;
            },
            Ok(kv) => kv,
        };
        let idx = find_param_exec(p, &key);
        if idx >= p.len() {
            break;
        }
        let arg = &p[idx].1;
        let ghost a0 = args@;
        let ghost r0 = raw@;
        proof {
            assert(ps[idx as int].1 == *arg);
        }
        match arg.validate(opt_as_str(&inline)) {
            Ok(_) => {
                let v = match inline {
                    Some(s) => s,
                    None => String::new(),
                };
                args.add_argument(key, v);
                raw.advance();
            },
            Err(e) => {
                if e.kind != ParseErrorKind::NoValueGiven {
                    return Err(e.key(key.value));
                }
                raw.advance();
                let next: Option<String> = match raw.peek() {
                    Some(t) => Some(t.clone()),
                    None => None,
                };
                match arg.validate(opt_as_str(&next)) {
                    Err(e2) => {
                        return Err(e2.key(key.value));
                    },
                    Ok(_) => {},
                }
                let v = match next {
                    Some(s) => s,
                    None => String::new(),
                };
                args.add_argument(key, v);
                raw.advance();
            },
        }
    }
    Ok(())
}

/// Runs the tier-end checks of the keyed arguments; see [`post_all`].
fn post_validate_all<A: ArgValidator>(p: &Vec<(ArgKey, A)>, args: &mut ParsedArg) -> (r: Result<(), ParseError>)
    ensures
        match post_all(keyed_spec(p@), old(args)@) {
            Ok(a) => r.is_ok() && final(args)@ == a,
            Err((e, k, a)) => r matches Err(err) && err.kind == e && (err.key matches Some(kk) && kk@ == k)
                && final(args)@ == a,
        },
{
    let ghost ps = keyed_spec(p@);
    let n = p.len();
    proof {
        assert(ps.subrange(0, n as int) =~= ps);
    }
    let mut i: usize = 0;
    while i < n
        invariant
            n == p@.len(),
            ps == keyed_spec(p@),
            0 <= i <= n,
            post_all(ps, old(args)@) == post_all(ps.subrange(i as int, n as int), args@),
        decreases n - i,
    {
        proof {
            assert(ps.subrange(i as int, n as int).drop_first() =~= ps.subrange(i + 1, n as int));
        }
        match p[i].1.post_validate(Some(&p[i].0), args) {
            Err(e) => {
                return Err(e.key(p[i].0.value.clone()));
            },
            Ok(_) => {},
        }
        i = i + 1;
    }
    proof {
        assert(ps.subrange(n as int, n as int).len() == 0);
    }
    Ok(())
}

/// Parses one tier: its positional value (when `consume` asks for one), its
/// keyed arguments, then their tier-end checks. Errors at the positional
/// value are tagged with `slot`, the others with their key.
pub fn parse_tier_with<A: ArgValidator>(
    pos: &A,
    p: &Vec<(ArgKey, A)>,
    slot: &str,
    args: &mut ParsedArg,
    raw: &mut RawArgs,
    consume: bool,
) -> (r: Result<(), ParseError>)
    ensures
        meets(parse_tier(*pos, keyed_spec(p@), slot@, old(args)@, old(raw)@, consume), r, final(args)@, final(raw)@),
{
    match positional_exec(pos, slot, args, raw, consume) {
        Err(e) => {
            return Err(e);
        },
        Ok(_) => {},
    }
    match parse_params(p, args, raw) {
        Err(e) => {
            return Err(e);
        },
        Ok(_) => {},
    }
    post_validate_all(p, args)
}

/// `p` with `arg` registered under `k`: an existing entry keeps its slot.
pub open spec fn register_keyed<A>(p: KeyedSpec<A>, k: Seq<char>, arg: A) -> KeyedSpec<A> {
    if find_param(p, k) < p.len() {
        p.update(find_param(p, k), (k, arg))
    } else {
        p.push((k, arg))
    }
}

/// Whether some keyed argument of `p` is registered under `k`.
pub open spec fn has_param<A>(p: KeyedSpec<A>, k: Seq<char>) -> bool {
    exists|i: int| 0 <= i < p.len() && #[trigger] p[i].0 == k
}

/// After registering under `k`, an argument is registered under `k`, and
/// every key registered before still is.
pub proof fn lemma_register_keeps_keys<A>(p: KeyedSpec<A>, k: Seq<char>, arg: A, k2: Seq<char>)
    ensures
        has_param(register_keyed(p, k, arg), k),
        has_param(p, k2) ==> has_param(register_keyed(p, k, arg), k2),
{
    lemma_find_param(p, k);
    let q = register_keyed(p, k, arg);
    let f = find_param(p, k);
    if f < p.len() {
        assert(q[f].0 == k);
    } else {
        assert(q[p.len() as int].0 == k);
    }
    if has_param(p, k2) {
        let i = choose|i: int| 0 <= i < p.len() && #[trigger] p[i].0 == k2;
        if f < p.len() && i == f {
            assert(k2 == k);
            assert(q[f].0 == k2);
        } else {
            assert(q[i].0 == k2);
        }
    }
}

/// The tier from which a parse resumes when `n` tiers were already read.
pub open spec fn resume_index(n: nat) -> nat {
    if n == 0 {
        0
    } else {
        (n - 1) as nat
    }
}

/// Parses the tiers from `i` on. A tier's positional value is read only
/// when no record exists for it yet; positional errors are tagged with
/// `prefix` followed by the tier's index.
pub open spec fn parse_from<A: ArgValidator>(tiers: Seq<(A, KeyedSpec<A>)>, prefix: Seq<char>, i: nat, a: TiersView, raw: Seq<Seq<char>>) -> Outcome
    decreases tiers.len() - i,
{
    if i >= tiers.len() {
        Ok((a, raw))
    } else {
        match parse_tier(tiers[i as int].0, tiers[i as int].1, prefix + dec_of(i), a, raw, a.len() <= i) {
            Err(e) => Err(e),
            Ok((a1, r1)) => parse_from(tiers, prefix, i + 1, a1, r1),
        }
    }
}

/// The first `k` keys of `p`, one per line.
pub open spec fn keys_text<A>(p: KeyedSpec<A>, k: nat) -> Seq<char>
    decreases k,
{
    if k == 0 || k > p.len() {
        Seq::empty()
    } else {
        keys_text(p, (k - 1) as nat) + p[k - 1].0 + "\n"@
    }
}

/// The listing of the first `k` tiers: each as a line `arg<index>`, then
/// its keys.
pub open spec fn schema_text<A>(tiers: Seq<(A, KeyedSpec<A>)>, k: nat) -> Seq<char>
    decreases k,
{
    if k == 0 || k > tiers.len() {
        Seq::empty()
    } else {
        schema_text(tiers, (k - 1) as nat) + "arg"@ + dec_of((k - 1) as nat) + "\n"@ + keys_text(
            tiers[k - 1].1,
            tiers[k - 1].1.len(),
        )
    }
}

/// One positional level: its positional argument and its keyed arguments.
#[derive(Debug)]
pub struct ParamTier {
    pub pos: Arg,
    params: Vec<(ArgKey, Arg)>,
}

impl ParamTier {
    /// The keyed arguments of this tier.
    pub closed spec fn spec_params(&self) -> KeyedSpec<Arg> {
        keyed_spec(self.params@)
    }

    /// The positional argument of this tier.
    pub closed spec fn spec_pos(&self) -> Arg {
        self.pos
    }

    pub fn new(pos: Arg) -> (r: Self)
        ensures
            r.spec_pos() == pos,
            r.spec_params().len() == 0,
    {
        ParamTier { pos, params: Vec::new() }
    }

    /// The number of keyed arguments.
    pub fn len(&self) -> (r: usize)
        ensures
            r == self.spec_params().len(),
    {
        self.params.len()
    }

    pub fn is_empty(&self) -> (r: bool)
        ensures
            r == (self.spec_params().len() == 0),
    {
        self.params.len() == 0
    }

    /// The keyed arguments, in registration order.
    pub fn params_iter(&self) -> (r: &[(ArgKey, Arg)])
        ensures
            keyed_spec(r@) == self.spec_params(),
    {
        self.params.as_slice()
    }

    /// Parses this tier, the tier at index `pos_id`; positional errors are
    /// tagged `arg<pos_id>`.
    pub fn parse(&self, pos_id: usize, args: &mut ParsedArg, raw: &mut RawArgs, parse_positional: bool) -> (r: Result<(), ParseError>)
        ensures
            meets(
                parse_tier(self.spec_pos(), self.spec_params(), "arg"@ + dec_of(pos_id as nat), old(args)@, old(raw)@, parse_positional),
                r,
                final(args)@,
                final(raw)@,
            ),
    {
        let slot = String::from_str("arg").concat(decimal(pos_id as u64).as_str());
        parse_tier_with(&self.pos, &self.params, slot.as_str(), args, raw, parse_positional)
    }
}

/// A parser: an ordered sequence of tiers.
#[derive(Debug)]
pub struct ArgParser {
    args: Vec<ParamTier>,
}

impl ArgParser {
    /// The tiers, each as its positional argument and its keyed arguments.
    pub closed spec fn spec_tiers(&self) -> Seq<(Arg, KeyedSpec<Arg>)> {
        Seq::new(self.args@.len(), |i: int| (self.args@[i].spec_pos(), self.args@[i].spec_params()))
    }

    /// A parser with one tier, whose positional argument requires a value.
    pub fn new() -> (r: Self)
        ensures
            r.spec_tiers().len() == 1,
            r.spec_tiers()[0].0.help_text.is_none(),
            r.spec_tiers()[0].0.spec_validators() == seq![crate::arg::ValidatorView::Empty(false)],
            r.spec_tiers()[0].1.len() == 0,
    {
        let pos = Arg::new().require_value();
        proof {
            assert(pos.spec_validators() =~= seq![crate::arg::ValidatorView::Empty(false)]);
        }
        let mut args: Vec<ParamTier> = Vec::new();
        args.push(ParamTier::new(pos));
        let r = ArgParser { args };
        proof {
            assert(r.spec_tiers()[0].0 == pos);
        }
        r
    }

    /// A parser with no tier yet; its first tier is the first one the caller
    /// appends.
    pub fn empty() -> (r: Self)
        ensures
            r.spec_tiers().len() == 0,
    {
        let r = ArgParser { args: Vec::new() };
        proof {
            assert(r.spec_tiers() =~= Seq::<(Arg, KeyedSpec<Arg>)>::empty());
        }
        r
    }

    /// Appends a tier whose positional argument is `arg`.
    pub fn add_positional_argument(&mut self, arg: Arg)
        ensures
            final(self).spec_tiers() == old(self).spec_tiers().push((arg, KeyedSpec::<Arg>::empty())),
    {
        let t = ParamTier::new(arg);
        proof {
            assert(t.spec_params() =~= KeyedSpec::<Arg>::empty());
        }
        self.args.push(t);
        proof {
            assert(self.spec_tiers() =~= old(self).spec_tiers().push((arg, KeyedSpec::<Arg>::empty())));
        }
    }

    /// Registers `arg` under the key `k` in the last tier; an argument
    /// already registered under `k` is replaced in its slot.
    pub fn add_argument(&mut self, k: &str, arg: Arg)
        requires
            is_key_shape(k@),
        ensures
            old(self).spec_tiers().len() == 0 ==> final(self).spec_tiers() == old(self).spec_tiers(),
            old(self).spec_tiers().len() > 0 ==> final(self).spec_tiers() == old(self).spec_tiers().update(
                old(self).spec_tiers().len() - 1,
                (
                    old(self).spec_tiers().last().0,
                    register_keyed(old(self).spec_tiers().last().1, k@, arg),
                ),
            ),
    {
        if self.args.len() == 0 {
            return;
        }
        let key = match ArgKey::make(k) {
            Ok(key) => key,
            Err(_) => {
                return;
            },
        };
        let ghost t0 = self.spec_tiers();
        let last = self.args.len() - 1;
        let idx = find_param_exec(&self.args[last].params, &key);
        let mut tier = self.args.remove(last);
        let ghost p0 = tier.spec_params();
        if idx < tier.params.len() {
            tier.params.set(idx, (key, arg));
        } else {
            tier.params.push((key, arg));
        }
        proof {
            assert(tier.spec_params() =~= register_keyed(p0, k@, arg));
        }
        self.args.push(tier);
        proof {
            assert(self.spec_tiers() =~= t0.update(t0.len() - 1, (t0.last().0, register_keyed(t0.last().1, k@, arg))));
        }
    }

    /// The number of tiers.
    pub fn len(&self) -> (r: usize)
        ensures
            r == self.spec_tiers().len(),
    {
        self.args.len()
    }

    pub fn is_empty(&self) -> (r: bool)
        ensures
            r == (self.spec_tiers().len() == 0),
    {
        self.args.len() == 0
    }

    /// Resumes parsing: from the last tier already recorded in `args` (whose
    /// positional value is not read again) through the last tier.
    pub fn incremental_parse(&self, args: &mut ParsedArg, raw: &mut RawArgs) -> (r: Result<(), ParseError>)
        ensures
            meets(
                parse_from(self.spec_tiers(), "arg"@, resume_index(old(args)@.len()), old(args)@, old(raw)@),
                r,
                final(args)@,
                final(raw)@,
            ),
    {
        let ghost tiers = self.spec_tiers();
        let n = self.args.len();
        let start: usize = if args.len() == 0 {
            0
        } else {
            args.len() - 1
        };
        let mut i: usize = start;
        while i < n
            invariant
                n == tiers.len(),
                tiers == self.spec_tiers(),
                start <= i,
                start == resume_index(old(args)@.len()),
                parse_from(tiers, "arg"@, start as nat, old(args)@, old(raw)@)
                    == parse_from(tiers, "arg"@, i as nat, args@, raw@),
            decreases n - i,
        {
            let consume = args.len() <= i;
            match self.args[i].parse(i, args, raw, consume) {
                Err(e) => {
                    return Err(e);
                },
                Ok(_) => {},
            }
            i = i + 1;
        }
        Ok(())
    }

    /// Parses every tier from the start.
    pub fn parse(&self, raw: &mut RawArgs) -> (r: Result<ParsedArg, ParseError>)
        ensures
            match parse_from(self.spec_tiers(), "arg"@, 0, TiersView::empty(), old(raw)@) {
                Ok((a, rw)) => r matches Ok(pa) && pa@ == a && final(raw)@ == rw,
                Err((e, k, _, rw)) => r matches Err(err) && err.kind == e && (err.key matches Some(kk) && kk@ == k)
                    && final(raw)@ == rw,
            },
    {
        let mut args = ParsedArg::new();
        match self.incremental_parse(&mut args, raw) {
            Ok(_) => Ok(args),
            Err(e) => Err(e),
        }
    }

    /// A listing of the schema: for each tier a line `arg<index>`, then one
    /// line per key of that tier.
    pub fn to_text(&self) -> (r: String)
        ensures
            r@ == schema_text(self.spec_tiers(), self.spec_tiers().len()),
    {
        let ghost tiers = self.spec_tiers();
        let mut out = String::new();
        let n = self.args.len();
        let mut i: usize = 0;
        while i < n
            invariant
                n == tiers.len(),
                tiers == self.spec_tiers(),
                0 <= i <= n,
                out@ == schema_text(tiers, i as nat),
            decreases n - i,
        {
            out = out.concat("arg").concat(decimal(i as u64).as_str()).concat("\n");
            let ghost head = out@;
            let params = &self.args[i].params;
            let m = params.len();
            let mut j: usize = 0;
            proof {
                assert(keys_text(tiers[i as int].1, 0) =~= Seq::<char>::empty());
                assert(head + keys_text(tiers[i as int].1, 0) =~= head);
            }
            while j < m
                invariant
                    m == params@.len(),
                    keyed_spec(params@) == tiers[i as int].1,
                    0 <= j <= m,
                    out@ == head + keys_text(tiers[i as int].1, j as nat),
                decreases m - j,
            {
                out = out.concat(params[j].0.value.as_str()).concat("\n");
                proof {
                    assert(out@ =~= head + keys_text(tiers[i as int].1, (j + 1) as nat));
                }
                j = j + 1;
            }
            proof {
                reveal_strlit("\n");
            }
            i = i + 1;
        }
        out
    }

    /// The tiers, in order.
    pub fn iter(&self) -> (r: &[ParamTier])
        ensures
            r@.len() == self.spec_tiers().len(),
            forall|i: int| 0 <= i < r@.len() ==> (#[trigger] r@[i]).spec_pos() == self.spec_tiers()[i].0
                && r@[i].spec_params() == self.spec_tiers()[i].1,
    {
        self.args.as_slice()
    }
}

/// A value may be given inline or as the next token: for a long option `k`
/// (`--` and at least two characters, without `=`) whose argument requires
/// a value and accepts `v`, the tokens `k=v` and `k v` are read as the same
/// record, leaving the same tokens.
pub proof fn lemma_inline_and_split_value_agree<A: ArgValidator>(
    p: KeyedSpec<A>,
    a: TiersView,
    k: Seq<char>,
    v: Seq<char>,
    rest: Seq<Seq<char>>,
)
    requires
        k.len() >= 4 && k[0] == '-' && k[1] == '-',
        !has_char(k, '='),
        find_param(p, k) < p.len(),
        p[find_param(p, k)].1.validate_spec(None) == Some(ParseErrorKind::NoValueGiven),
        p[find_param(p, k)].1.validate_spec(Some(v)).is_none(),
    ensures
        parse_keyed(p, a, seq![k + seq!['='] + v] + rest) == parse_keyed(p, push_param(a, k, v), rest),
        parse_keyed(p, a, seq![k, v] + rest) == parse_keyed(p, push_param(a, k, v), rest),
{
    let t = k + seq!['='] + v;
    lemma_first_index_of(t, '=');
    let f = first_index_of(t, '=');
    assert(t[k.len() as int] == '=');
    if f < k.len() {
        assert(t[f] == k[f]);
        assert(has_char(k, '='));
    }
    assert(f == k.len());
    assert(key_part(t) =~= k);
    assert(t.subrange(f + 1, t.len() as int) =~= v);
    let r1 = seq![t] + rest;
    assert(r1[0] == t);
    assert(r1.drop_first() =~= rest);
    lemma_first_index_of(k, '=');
    let g = first_index_of(k, '=');
    if g < k.len() {
        assert(has_char(k, '='));
    }
    assert(key_part(k) =~= k);
    let r2 = seq![k, v] + rest;
    assert(r2[0] == k);
    assert(r2.drop_first()[0] == v);
    assert(r2.drop_first().drop_first() =~= rest);
}

/// `b` grows `a`: the earlier records are kept as they are, the last record
/// of `a` keeps its positional value and its keyed values as a prefix, and
/// new records may follow.
pub open spec fn extends(b: TiersView, a: TiersView) -> bool {
    &&& a.len() > 0
    &&& b.len() >= a.len()
    &&& forall|j: int| 0 <= j < a.len() - 1 ==> #[trigger] b[j] == a[j]
    &&& b[a.len() - 1].0 == a.last().0
    &&& b[a.len() - 1].1.len() >= a.last().1.len()
    &&& forall|j: int| 0 <= j < a.last().1.len() ==> #[trigger] b[a.len() - 1].1[j] == a.last().1[j]
}

proof fn lemma_extends_refl(a: TiersView)
    requires
        a.len() > 0,
    ensures
        extends(a, a),
{
}

proof fn lemma_extends_trans(c: TiersView, b: TiersView, a: TiersView)
    requires
        extends(c, b),
        extends(b, a),
    ensures
        extends(c, a),
{
    if b.len() > a.len() {
        assert(c[a.len() - 1] == b[a.len() - 1]);
    }
    assert forall|j: int| 0 <= j < a.len() - 1 implies #[trigger] c[j] == a[j] by {
        assert(b[j] == a[j]);
        assert(c[j] == b[j]);
    }
    assert forall|j: int| 0 <= j < a.last().1.len() implies #[trigger] c[a.len() - 1].1[j] == a.last().1[j] by {
        assert(b[a.len() - 1].1[j] == a.last().1[j]);
        if b.len() == a.len() {
            assert(c[b.len() - 1].1[j] == b.last().1[j]);
        }
    }
}

proof fn lemma_push_param_extends(a: TiersView, k: Seq<char>, v: Seq<char>)
    requires
        a.len() > 0,
    ensures
        extends(push_param(a, k, v), a),
{
    let b = push_param(a, k, v);
    assert forall|j: int| 0 <= j < a.last().1.len() implies #[trigger] b[a.len() - 1].1[j] == a.last().1[j] by {
        assert(b[a.len() - 1].1 == a.last().1.push((k, v)));
    }
}

proof fn lemma_post_extends(vs: Seq<crate::arg::ValidatorView>, k: Option<Seq<char>>, a: TiersView)
    requires
        a.len() > 0,
    ensures
        extends(crate::arg::fold_post(vs, k, a).0, a),
    decreases vs.len(),
{
    let (a1, e) = crate::arg::view_post(vs[0], k, a);
    if vs.len() > 0 {
        match vs[0] {
            crate::arg::ValidatorView::Default(d) => {
                match k {
                    Some(kk) => {
                        if crate::parsed_arg::count_in(crate::parsed_arg::last_params(a), kk) == 0 {
                            lemma_push_param_extends(a, kk, d);
                        } else {
                            lemma_extends_refl(a);
                        }
                    },
                    None => lemma_extends_refl(a),
                }
            },
            _ => lemma_extends_refl(a),
        }
        if e.is_none() {
            lemma_post_extends(vs.drop_first(), k, a1);
            lemma_extends_trans(crate::arg::fold_post(vs.drop_first(), k, a1).0, a1, a);
        }
    } else {
        lemma_extends_refl(a);
    }
}

/// The records an outcome leaves, whether it succeeded or not.
pub open spec fn outcome_records(o: Outcome) -> TiersView {
    match o {
        Ok((a, _)) => a,
        Err((_, _, a, _)) => a,
    }
}

/// The tokens an outcome leaves, whether it succeeded or not.
pub open spec fn outcome_tokens(o: Outcome) -> Seq<Seq<char>> {
    match o {
        Ok((_, r)) => r,
        Err((_, _, _, r)) => r,
    }
}

/// Whether `s` is what is left of `t` after reading some tokens from its
/// front.
pub open spec fn is_suffix(s: Seq<Seq<char>>, t: Seq<Seq<char>>) -> bool {
    s.len() <= t.len() && s == t.subrange(t.len() - s.len(), t.len() as int)
}

proof fn lemma_suffix_refl(t: Seq<Seq<char>>)
    ensures
        is_suffix(t, t),
{
    assert(t.subrange(0, t.len() as int) =~= t);
}

proof fn lemma_suffix_drop(t: Seq<Seq<char>>)
    requires
        t.len() > 0,
    ensures
        is_suffix(t.drop_first(), t),
{
    assert(t.drop_first() =~= t.subrange(1, t.len() as int));
}

proof fn lemma_suffix_trans(u: Seq<Seq<char>>, s: Seq<Seq<char>>, t: Seq<Seq<char>>)
    requires
        is_suffix(u, s),
        is_suffix(s, t),
    ensures
        is_suffix(u, t),
{
    assert(u =~= t.subrange(t.len() - u.len(), t.len() as int));
}

/// Keyed reading keeps the records it started from and only reads tokens
/// from the front, whether it succeeds or fails.
proof fn lemma_keyed_extends(p: KeyedSpec<Arg>, a: TiersView, raw: Seq<Seq<char>>)
    requires
        a.len() > 0,
    ensures
        extends(outcome_records(parse_keyed(p, a, raw)), a),
        is_suffix(outcome_tokens(parse_keyed(p, a, raw)), raw),
    decreases raw.len(),
{
    lemma_suffix_refl(raw);
    lemma_extends_refl(a);
    if !(raw.len() == 0 || !is_option_token(raw[0]) || find_param(p, key_part(raw[0])) >= p.len()) {
        let k = key_part(raw[0]);
        let iv = value_part(raw[0]);
        let rest = raw.drop_first();
        lemma_suffix_drop(raw);
        let v2 = if rest.len() > 0 {
            Some(rest[0])
        } else {
            None
        };
        let rest2 = if rest.len() > 0 {
            rest.drop_first()
        } else {
            rest
        };
        if rest.len() > 0 {
            lemma_suffix_drop(rest);
            lemma_suffix_trans(rest2, rest, raw);
        }
        let a1 = push_param(a, k, or_empty(iv));
        let a2 = push_param(a, k, or_empty(v2));
        lemma_push_param_extends(a, k, or_empty(iv));
        lemma_push_param_extends(a, k, or_empty(v2));
        lemma_keyed_extends(p, a1, rest);
        lemma_keyed_extends(p, a2, rest2);
        let o1 = parse_keyed(p, a1, rest);
        let o2 = parse_keyed(p, a2, rest2);
        lemma_extends_trans(outcome_records(o1), a1, a);
        lemma_extends_trans(outcome_records(o2), a2, a);
        lemma_suffix_trans(outcome_tokens(o1), rest, raw);
        lemma_suffix_trans(outcome_tokens(o2), rest2, raw);
    }
}

proof fn lemma_post_all_extends(p: KeyedSpec<Arg>, a: TiersView)
    requires
        a.len() > 0,
    ensures
        match post_all(p, a) {
            Ok(a2) => extends(a2, a),
            Err((_, _, a2)) => extends(a2, a),
        },
    decreases p.len(),
{
    if p.len() == 0 {
        lemma_extends_refl(a);
    } else {
        let (a1, e) = p[0].1.post_spec(Some(p[0].0), a);
        lemma_post_extends(p[0].1.spec_validators(), Some(p[0].0), a);
        if e.is_none() {
            lemma_post_all_extends(p.drop_first(), a1);
            match post_all(p.drop_first(), a1) {
                Ok(b) => lemma_extends_trans(b, a1, a),
                Err((_, _, b)) => lemma_extends_trans(b, a1, a),
            }
        }
    }
}

proof fn lemma_tier_extends(pos: Arg, p: KeyedSpec<Arg>, slot: Seq<char>, a: TiersView, raw: Seq<Seq<char>>, consume: bool)
    requires
        a.len() > 0,
    ensures
        extends(outcome_records(parse_tier(pos, p, slot, a, raw, consume)), a),
        is_suffix(outcome_tokens(parse_tier(pos, p, slot, a, raw, consume)), raw),
{
    lemma_extends_refl(a);
    lemma_suffix_refl(raw);
    let o0 = parse_positional(pos, slot, a, raw, consume);
    if consume && raw.len() > 0 && !is_key_shape(raw[0]) && pos.validate_spec(Some(raw[0])).is_none() {
        let b = a.push((raw[0], ParamsView::empty()));
        assert(extends(b, a));
        lemma_post_extends(pos.spec_validators(), None, b);
        lemma_extends_trans(pos.post_spec(None, b).0, b, a);
        lemma_suffix_drop(raw);
    }
    if let Ok((a1, r1)) = o0 {
        lemma_keyed_extends(p, a1, r1);
        let o1 = parse_keyed(p, a1, r1);
        lemma_extends_trans(outcome_records(o1), a1, a);
        lemma_suffix_trans(outcome_tokens(o1), r1, raw);
        if let Ok((a2, r2)) = o1 {
            lemma_post_all_extends(p, a2);
            match post_all(p, a2) {
                Ok(a3) => lemma_extends_trans(a3, a2, a),
                Err((_, _, a3)) => lemma_extends_trans(a3, a2, a),
            }
        }
    }
}

proof fn lemma_from_extends(tiers: Seq<(Arg, KeyedSpec<Arg>)>, prefix: Seq<char>, i: nat, a: TiersView, raw: Seq<Seq<char>>)
    requires
        a.len() > 0,
    ensures
        extends(outcome_records(parse_from(tiers, prefix, i, a, raw)), a),
        is_suffix(outcome_tokens(parse_from(tiers, prefix, i, a, raw)), raw),
    decreases tiers.len() - i,
{
    lemma_extends_refl(a);
    lemma_suffix_refl(raw);
    if i < tiers.len() {
        let t = parse_tier(tiers[i as int].0, tiers[i as int].1, prefix + dec_of(i), a, raw, a.len() <= i);
        lemma_tier_extends(tiers[i as int].0, tiers[i as int].1, prefix + dec_of(i), a, raw, a.len() <= i);
        if let Ok((a1, r1)) = t {
            lemma_from_extends(tiers, prefix, i + 1, a1, r1);
            let o = parse_from(tiers, prefix, i + 1, a1, r1);
            lemma_extends_trans(outcome_records(o), a1, a);
            lemma_suffix_trans(outcome_tokens(o), r1, raw);
        }
    }
}

/// Resuming a parse never goes back over what was read: the tier already
/// recorded last is resumed without reading its positional value again;
/// whether the parse succeeds or stops at an error, the records before that
/// tier are kept as they are, its keyed values are only added to, and
/// tokens are only read from the front.
pub proof fn lemma_resume_keeps_recorded_tiers(
    tiers: Seq<(Arg, KeyedSpec<Arg>)>,
    prefix: Seq<char>,
    a: TiersView,
    raw: Seq<Seq<char>>,
)
    requires
        0 < a.len() <= tiers.len(),
    ensures
        parse_from(tiers, prefix, resume_index(a.len()), a, raw) == match parse_tier(
            tiers[a.len() - 1].0,
            tiers[a.len() - 1].1,
            prefix + dec_of((a.len() - 1) as nat),
            a,
            raw,
            false,
        ) {
            Err(e) => Err(e),
            Ok((a1, r1)) => parse_from(tiers, prefix, a.len(), a1, r1),
        },
        extends(outcome_records(parse_from(tiers, prefix, resume_index(a.len()), a, raw)), a),
        is_suffix(outcome_tokens(parse_from(tiers, prefix, resume_index(a.len()), a, raw)), raw),
{
    lemma_from_extends(tiers, prefix, resume_index(a.len()), a, raw);
}

proof fn lemma_post_keeps_len(vs: Seq<crate::arg::ValidatorView>, k: Option<Seq<char>>, a: TiersView)
    ensures
        crate::arg::fold_post(vs, k, a).0.len() == a.len(),
    decreases vs.len(),
{
    if vs.len() > 0 {
        let (a1, e) = crate::arg::view_post(vs[0], k, a);
        assert(a1.len() == a.len());
        if e.is_none() {
            lemma_post_keeps_len(vs.drop_first(), k, a1);
        }
    }
}

proof fn lemma_keyed_keeps_len(p: KeyedSpec<Arg>, a: TiersView, raw: Seq<Seq<char>>)
    ensures
        outcome_records(parse_keyed(p, a, raw)).len() == a.len(),
    decreases raw.len(),
{
    if !(raw.len() == 0 || !is_option_token(raw[0]) || find_param(p, key_part(raw[0])) >= p.len()) {
        let k = key_part(raw[0]);
        let iv = value_part(raw[0]);
        let rest = raw.drop_first();
        let v2 = if rest.len() > 0 {
            Some(rest[0])
        } else {
            None
        };
        let rest2 = if rest.len() > 0 {
            rest.drop_first()
        } else {
            rest
        };
        lemma_keyed_keeps_len(p, push_param(a, k, or_empty(iv)), rest);
        lemma_keyed_keeps_len(p, push_param(a, k, or_empty(v2)), rest2);
    }
}

proof fn lemma_post_all_keeps_len(p: KeyedSpec<Arg>, a: TiersView)
    ensures
        match post_all(p, a) {
            Ok(a2) => a2.len() == a.len(),
            Err((_, _, a2)) => a2.len() == a.len(),
        },
    decreases p.len(),
{
    if p.len() > 0 {
        let (a1, e) = p[0].1.post_spec(Some(p[0].0), a);
        lemma_post_keeps_len(p[0].1.spec_validators(), Some(p[0].0), a);
        if e.is_none() {
            lemma_post_all_keeps_len(p.drop_first(), a1);
        }
    }
}

/// A tier adds at most one record, and only when it reads its positional
/// value.
proof fn lemma_tier_len(pos: Arg, p: KeyedSpec<Arg>, slot: Seq<char>, a: TiersView, raw: Seq<Seq<char>>, consume: bool)
    ensures
        outcome_records(parse_tier(pos, p, slot, a, raw, consume)).len() <= a.len() + 1,
        !consume ==> outcome_records(parse_tier(pos, p, slot, a, raw, consume)).len() == a.len(),
{
    if consume && raw.len() > 0 {
        lemma_post_keeps_len(pos.spec_validators(), None, a.push((raw[0], ParamsView::empty())));
    }
    if let Ok((a1, r1)) = parse_positional(pos, slot, a, raw, consume) {
        lemma_keyed_keeps_len(p, a1, r1);
        if let Ok((a2, _)) = parse_keyed(p, a1, r1) {
            lemma_post_all_keeps_len(p, a2);
        }
    }
}

proof fn lemma_from_len(tiers: Seq<(Arg, KeyedSpec<Arg>)>, prefix: Seq<char>, i: nat, a: TiersView, raw: Seq<Seq<char>>, bound: nat)
    requires
        a.len() <= bound,
    ensures
        outcome_records(parse_from(tiers, prefix, i, a, raw)).len() <= if tiers.len() > bound {
            tiers.len() as nat
        } else {
            bound
        },
    decreases tiers.len() - i,
{
    if i < tiers.len() {
        let consume = a.len() <= i;
        let t = parse_tier(tiers[i as int].0, tiers[i as int].1, prefix + dec_of(i), a, raw, consume);
        lemma_tier_len(tiers[i as int].0, tiers[i as int].1, prefix + dec_of(i), a, raw, consume);
        let a1 = outcome_records(t);
        assert(a1.len() <= i + 1 || a1.len() <= bound);
        if let Ok((a1, r1)) = t {
            let b: nat = if a1.len() > bound {
                a1.len() as nat
            } else {
                bound
            };
            if a1.len() > bound {
                assert(a1.len() <= i + 1);
                assert(b <= tiers.len());
            }
            lemma_from_len(tiers, prefix, i + 1, a1, r1, b);
        }
    }
}

/// A parse never records more tiers than the parser has: starting from at
/// most that many records, it ends with at most that many, whether it
/// succeeds or stops at an error.
pub proof fn lemma_records_within_tiers(
    tiers: Seq<(Arg, KeyedSpec<Arg>)>,
    prefix: Seq<char>,
    a: TiersView,
    raw: Seq<Seq<char>>,
)
    requires
        a.len() <= tiers.len(),
    ensures
        outcome_records(parse_from(tiers, prefix, resume_index(a.len()), a, raw)).len() <= tiers.len(),
{
    lemma_from_len(tiers, prefix, resume_index(a.len()), a, raw, a.len() as nat);
}

} // verus!
