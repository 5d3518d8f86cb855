//! The parameter-serialization protocol.
//!
//! Every domain entity can append itself to an accumulating list of
//! key/value string pairs, passing each key through a caller-supplied
//! renaming strategy ("mangling") just before emission. The default strategy
//! is the identity; batched transactions use a positional strategy that
//! wraps each key as `transactions[<index>][<key>]`.

use vstd::prelude::*;
use vstd::string::StringExecFns;
use crate::decimal::{
    is_dec_digit, lemma_dec_nat_digits, lemma_dec_nat_injective, lemma_dec_value_of_dec_nat,
    spec_dec_nat, spec_dec_value, u64_to_dec,
};

verus! {

/// The abstract value of a flat parameter list: ordered key/value pairs of
/// character sequences.
pub type ParamSeq = Seq<(Seq<char>, Seq<char>)>;

/// A key-renaming strategy applied to every key at emission time.
///
/// The set of strategies is closed: either keys pass through unchanged, or
/// they are wrapped positionally for the transaction at a given zero-based
/// index of a batched report.
#[derive(Clone, Copy, Debug)]
pub enum Mangling {
    Identity,
    TransactionIndex(usize),
}

impl Mangling {
    /// What this strategy turns a key into.
    pub open spec fn spec_apply(self, key: Seq<char>) -> Seq<char> {
        match self {
            Mangling::Identity => key,
            Mangling::TransactionIndex(i) => "transactions["@ + spec_dec_nat(i as nat) + "]["@
                + key + "]"@,
        }
    }

    /// Applies this strategy to one key.
    pub fn apply(&self, key: &str) -> (r: String)
        ensures
            r@ == self.spec_apply(key@),
    {
        match self {
            Mangling::Identity => key.to_owned(),
            Mangling::TransactionIndex(i) => {
                let mut s = String::from_str("transactions[");
                let idx = u64_to_dec(*i as u64);
                s.append(idx.as_str());
                s.append("][");
                s.append(key);
                s.append("]");
                proof {
                    assert(s@ =~= self.spec_apply(key@));
                }
                s
            },
        }
    }
}

/// `ps` with every key passed through `m`, values untouched.
pub open spec fn mangled_params(m: Mangling, ps: ParamSeq) -> ParamSeq {
    ps.map_values(|p: (Seq<char>, Seq<char>)| (m.spec_apply(p.0), p.1))
}

/// The identity strategy leaves a parameter list unchanged.
pub proof fn lemma_mangled_identity(ps: ParamSeq)
    ensures
        mangled_params(Mangling::Identity, ps) == ps,
{
    assert(mangled_params(Mangling::Identity, ps) =~= ps);
}

/// Mangling distributes over concatenation of parameter lists.
pub proof fn lemma_mangled_append(m: Mangling, a: ParamSeq, b: ParamSeq)
    ensures
        mangled_params(m, a + b) == mangled_params(m, a) + mangled_params(m, b),
{
    assert(mangled_params(m, a + b) =~= mangled_params(m, a) + mangled_params(m, b));
}

/// Mangling a single pair.
pub proof fn lemma_mangled_singleton(m: Mangling, key: Seq<char>, value: Seq<char>)
    ensures
        mangled_params(m, seq![(key, value)]) == seq![(m.spec_apply(key), value)],
{
    assert(mangled_params(m, seq![(key, value)]) =~= seq![(m.spec_apply(key), value)]);
}

/// Appends one key/value pair to the target.
pub fn push_param(target: &mut Vec<(String, String)>, key: String, value: String)
    ensures
        final(target).deep_view() == old(target).deep_view() + seq![(key@, value@)],
{
    let ghost k = key@;
    let ghost v = value@;
    target.push((key, value));
    proof {
        assert(target.deep_view() =~= old(target).deep_view() + seq![(k, v)]);
    }
}

/// An entity that can serialize itself as flat key/value string parameters.
///
/// `spec_params` is the entity's abstract parameter list; the exec method
/// appends exactly that list, with every key passed through the given
/// mangling strategy, preserving anything already in the target.
pub trait ToParams {
    /// The parameters this entity contributes, in emission order.
    spec fn spec_params(&self) -> ParamSeq;

    /// Appends this entity's parameters to `target`, each key passed
    /// through `mangling` immediately before emission.
    fn to_params_with_mangling(&self, target: &mut Vec<(String, String)>, mangling: &Mangling)
        ensures
            final(target).deep_view() == old(target).deep_view() + mangled_params(
                *mangling,
                self.spec_params(),
            ),
    ;

    /// Appends this entity's parameters to `target` with keys unchanged.
    fn to_params(&self, target: &mut Vec<(String, String)>)
        ensures
            final(target).deep_view() == old(target).deep_view() + self.spec_params(),
    {
        self.to_params_with_mangling(target, &Mangling::Identity);
        proof {
            lemma_mangled_identity(self.spec_params());
        }
    }
}

/// The positional strategy is injective: a wrapped key determines both the
/// transaction index and the original key, so the batch structure of a flat
/// parameter list is recoverable.
pub proof fn lemma_transaction_mangling_injective(
    i: usize,
    j: usize,
    k1: Seq<char>,
    k2: Seq<char>,
)
    requires
        Mangling::TransactionIndex(i).spec_apply(k1) == Mangling::TransactionIndex(j).spec_apply(
            k2,
        ),
    ensures
        i == j,
        k1 == k2,
{
    reveal_strlit("transactions[");
    reveal_strlit("][");
    reveal_strlit("]");
    let p = "transactions["@;
    let di = spec_dec_nat(i as nat);
    let dj = spec_dec_nat(j as nat);
    let s1 = p + di + "]["@ + k1 + "]"@;
    let s2 = p + dj + "]["@ + k2 + "]"@;
    lemma_dec_nat_digits(i as nat);
    lemma_dec_nat_digits(j as nat);
    let pl = p.len() as int;
    let dil = di.len() as int;
    let djl = dj.len() as int;
    assert(s1 == s2);
    if dil < djl {
        // In `s1` the character after the digits is `]`; in `s2` that
        // position still lies inside the digits, a contradiction.
        assert(s1[pl + dil] == ']');
        assert(s2[pl + dil] == dj[dil]);
        assert(is_dec_digit(dj[dil]));
        assert(false);
    } else if djl < dil {
        assert(s2[pl + djl] == ']');
        assert(s1[pl + djl] == di[djl]);
        assert(is_dec_digit(di[djl]));
        assert(false);
    } else {
        assert(di =~= s1.subrange(pl, pl + dil));
        assert(dj =~= s2.subrange(pl, pl + djl));
        lemma_dec_nat_injective(i as nat, j as nat);
        assert(k1.len() == k2.len());
        assert(k1 =~= s1.subrange(pl + dil + 2, s1.len() - 1));
        assert(k2 =~= s2.subrange(pl + djl + 2, s2.len() - 1));
    }
}

/// The first position at or after `i` holding a non-digit character (or the
/// end of `s`).
pub open spec fn digits_end(s: Seq<char>, i: int) -> int
    decreases s.len() - i,
{
    if i < 0 || i >= s.len() {
        i
    } else if is_dec_digit(s[i]) {
        digits_end(s, i + 1)
    } else {
        i
    }
}

proof fn lemma_digits_end_at(s: Seq<char>, i: int, e: int)
    requires
        0 <= i <= e < s.len(),
        forall|j: int| i <= j < e ==> is_dec_digit(#[trigger] s[j]),
        !is_dec_digit(s[e]),
    ensures
        digits_end(s, i) == e,
    decreases e - i,
{
    if i < e {
        lemma_digits_end_at(s, i + 1, e);
    }
}

/// Parses a key of the positional form `transactions[<index>][<key>]` back
/// into the index and the original key. Keys of any other shape give
/// nothing.
pub open spec fn spec_unmangle(s: Seq<char>) -> Option<(nat, Seq<char>)> {
    let p = "transactions["@;
    let start = p.len() as int;
    let e = digits_end(s, start);
    if s.len() > start && s.subrange(0, start) == p && e > start && e + 2 < s.len() && s[e]
        == ']' && s[e + 1] == '[' && s.last() == ']' {
        Some((spec_dec_value(s.subrange(start, e)), s.subrange(e + 2, s.len() - 1)))
    } else {
        None
    }
}

/// Positional mangling loses nothing: parsing a wrapped key recovers the
/// transaction index and the original key exactly, so the batch structure
/// of a flat parameter list — how many transactions there were and which
/// fields each one carried — can be reconstructed.
pub proof fn lemma_unmangle_recovers(i: usize, k: Seq<char>)
    ensures
        spec_unmangle(Mangling::TransactionIndex(i).spec_apply(k)) == Some((i as nat, k)),
{
    reveal_strlit("transactions[");
    reveal_strlit("][");
    reveal_strlit("]");
    let p = "transactions["@;
    let d = spec_dec_nat(i as nat);
    let s = p + d + "]["@ + k + "]"@;
    lemma_dec_nat_digits(i as nat);
    let start = p.len() as int;
    let e = start + d.len() as int;
    assert(forall|j: int| start <= j < e ==> is_dec_digit(#[trigger] s[j]));
    assert(s[e] == ']');
    lemma_digits_end_at(s, start, e);
    assert(s.subrange(0, start) =~= p);
    assert(s[e + 1] == '[');
    assert(s.last() == ']');
    assert(s.subrange(start, e) =~= d);
    lemma_dec_value_of_dec_nat(i as nat);
    assert(s.subrange(e + 2, s.len() - 1) =~= k);
}

} // verus!
