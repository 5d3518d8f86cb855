//! The call descriptor: one API call to build, and its serialization root.

use vstd::prelude::*;
use crate::application::Application;
use crate::params::{
    Mangling, ParamSeq, ToParams, lemma_unmangle_recovers, mangled_params, spec_unmangle,
};
use crate::service::Service;
use crate::transaction::Transaction;
use crate::user::User;

verus! {

/// The kind of call made against the backend.
#[derive(Clone, Copy, Debug, PartialEq, Eq, Structural)]
pub enum Kind {
    Authorize,
    AuthRep,
    Report,
}

/// The strategy applied to the keys of the transaction at position `i` of a
/// call of kind `kind`: positional wrapping for batched reports, identity
/// otherwise.
pub open spec fn transaction_mangling(kind: Kind, i: int) -> Mangling {
    if kind is Report {
        Mangling::TransactionIndex(i as usize)
    } else {
        Mangling::Identity
    }
}

/// The parameters contributed by the first `i` transactions, in declaration
/// order, each under its own strategy.
pub open spec fn transactions_params_upto(kind: Kind, ts: Seq<Transaction>, i: int) -> ParamSeq
    decreases i,
{
    if i <= 0 {
        Seq::empty()
    } else {
        transactions_params_upto(kind, ts, i - 1) + mangled_params(
            transaction_mangling(kind, i - 1),
            ts[i - 1].spec_params(),
        )
    }
}

/// The parameters contributed by all transactions of a call.
pub open spec fn transactions_params(kind: Kind, ts: Seq<Transaction>) -> ParamSeq {
    transactions_params_upto(kind, ts, ts.len() as int)
}

/// The top-level unit: call kind, service, application, optional user and
/// the transactions to report. Report calls may carry several transactions;
/// authorize and authrep calls carry at most one.
#[derive(Clone, Debug)]
pub struct ApiCall<'a> {
    pub kind: Kind,
    pub service: &'a Service,
    pub application: &'a Application,
    pub user: Option<&'a User>,
    pub transactions: &'a Vec<Transaction<'a>>,
}

impl<'a> ApiCall<'a> {
    /// Creates a call descriptor.
    pub fn new(
        kind: Kind,
        service: &'a Service,
        application: &'a Application,
        user: Option<&'a User>,
        transactions: &'a Vec<Transaction<'a>>,
    ) -> (c: ApiCall<'a>)
        ensures
            c.kind == kind,
            c.service == service,
            c.application == application,
            c.user == user,
            c.transactions == transactions,
    {
        ApiCall { kind, service, application, user, transactions }
    }

    /// The kind of this call.
    pub fn kind(&self) -> (k: Kind)
        ensures
            k == self.kind,
    {
        self.kind
    }

    /// The service this call is made against.
    pub fn service(&self) -> (s: &'a Service)
        ensures
            s == self.service,
    {
        self.service
    }

    /// The application making this call.
    pub fn application(&self) -> (a: &'a Application)
        ensures
            a == self.application,
    {
        self.application
    }

    /// The end user of this call, if any.
    pub fn user(&self) -> (u: Option<&'a User>)
        ensures
            u == self.user,
    {
        self.user
    }

    /// The transactions this call reports.
    pub fn transactions(&self) -> (ts: &'a Vec<Transaction<'a>>)
        ensures
            ts == self.transactions,
    {
        self.transactions
    }

    /// The conceptual shape of a call: a report may carry any number of
    /// transactions, while an authorize or authrep call carries at most
    /// one — its single current usage context.
    pub open spec fn spec_transactions_conform(&self) -> bool {
        self.kind is Report || self.transactions@.len() <= 1
    }

    /// The full flat parameter list of this call: the service's parameters,
    /// then the application's, then the user's (if any), then those of each
    /// transaction in declaration order — positionally mangled for reports.
    pub open spec fn spec_params(&self) -> ParamSeq {
        self.service.spec_params() + self.application.spec_params() + (match self.user {
            Some(u) => u.spec_params(),
            None => Seq::empty(),
        }) + transactions_params(self.kind, self.transactions@)
    }

    /// Appends this call's full parameter list to `target`.
    pub fn to_params(&self, target: &mut Vec<(String, String)>)
        ensures
            final(target).deep_view() == old(target).deep_view() + self.spec_params(),
    {
        let ghost prefix = self.service.spec_params() + self.application.spec_params() + (
        match self.user {
            Some(u) => u.spec_params(),
            None => Seq::empty(),
        });
        self.service.to_params(target);
        self.application.to_params(target);
        if let Some(u) = self.user {
            u.to_params(target);
        }
        let ghost ts = self.transactions@;
        let mut idx: usize = 0;
        while idx < self.transactions.len()
            invariant
                idx <= self.transactions.len(),
                ts == self.transactions@,
                target.deep_view() == old(target).deep_view() + prefix
                    + transactions_params_upto(self.kind, ts, idx as int),
            decreases self.transactions.len() - idx,
        {
            let mangling = match self.kind {
                Kind::Report => Mangling::TransactionIndex(idx),
                _ => Mangling::Identity,
            };
            proof {
                assert(mangling == transaction_mangling(self.kind, idx as int));
            }
            self.transactions[idx].to_params_with_mangling(target, &mangling);
            proof {
                assert(target.deep_view() =~= old(target).deep_view() + prefix
                    + transactions_params_upto(self.kind, ts, idx + 1));
            }
            idx = idx + 1;
        }
        proof {
            assert(target.deep_view() =~= old(target).deep_view() + self.spec_params());
        }
    }
}

/// Serialization is a pure function of the call: filling two fresh targets
/// according to the serialization contract yields identical ordered
/// sequences.
pub proof fn lemma_serialization_deterministic(call: ApiCall, t1: ParamSeq, t2: ParamSeq)
    requires
        t1 == call.spec_params(),
        t2 == call.spec_params(),
    ensures
        t1 == t2,
{
}

/// In a report call the transactions are encoded positionally: the batch's
/// parameter list is the concatenation, in declaration order, of each
/// transaction's parameters with its keys wrapped for its own zero-based
/// index — regardless of any equality between transactions.
pub proof fn lemma_report_transactions_positional(ts: Seq<Transaction>)
    ensures
        transactions_params(Kind::Report, ts) == Seq::new(
            ts.len(),
            |i: int| mangled_params(Mangling::TransactionIndex(i as usize), ts[i].spec_params()),
        ).flatten(),
{
    let segs = Seq::new(
        ts.len(),
        |i: int| mangled_params(Mangling::TransactionIndex(i as usize), ts[i].spec_params()),
    );
    let segs_by_kind = Seq::new(
        ts.len(),
        |j: int| mangled_params(transaction_mangling(Kind::Report, j), ts[j].spec_params()),
    );
    assert(segs =~= segs_by_kind);
    lemma_upto_is_flatten_alt(Kind::Report, ts, ts.len() as int);
    segs.lemma_flatten_and_flatten_alt_are_equivalent();
}

/// Whether a flat entry belongs to the transaction at position `i`: its
/// key has the positional form with index `i`.
pub open spec fn is_transaction_entry(p: (Seq<char>, Seq<char>), i: nat) -> bool {
    match spec_unmangle(p.0) {
        Some(r) => r.0 == i,
        None => false,
    }
}

/// A flat entry with its key restored to the unwrapped form (entries of
/// other shapes are left alone).
pub open spec fn restored_entry(p: (Seq<char>, Seq<char>)) -> (Seq<char>, Seq<char>) {
    match spec_unmangle(p.0) {
        Some(r) => (r.1, p.1),
        None => p,
    }
}

/// The parameters recovered for the transaction at position `i` from a
/// flat parameter list alone: the entries whose keys carry index `i`, in
/// order, with their original keys restored.
pub open spec fn recovered_transaction_params(flat: ParamSeq, i: nat) -> ParamSeq
    decreases flat.len(),
{
    if flat.len() == 0 {
        Seq::empty()
    } else {
        recovered_transaction_params(flat.drop_last(), i) + (if is_transaction_entry(
            flat.last(),
            i,
        ) {
            seq![restored_entry(flat.last())]
        } else {
            Seq::<(Seq<char>, Seq<char>)>::empty()
        })
    }
}

proof fn lemma_recovered_push(s: ParamSeq, p: (Seq<char>, Seq<char>), i: nat)
    ensures
        recovered_transaction_params(s.push(p), i) == recovered_transaction_params(s, i) + (
        if is_transaction_entry(p, i) {
            seq![restored_entry(p)]
        } else {
            Seq::<(Seq<char>, Seq<char>)>::empty()
        }),
{
    assert(s.push(p).drop_last() =~= s);
    assert(s.push(p).last() == p);
    assert(s.push(p).len() == s.len() + 1);
}

proof fn lemma_recovered_add(a: ParamSeq, b: ParamSeq, i: nat)
    ensures
        recovered_transaction_params(a + b, i) == recovered_transaction_params(a, i)
            + recovered_transaction_params(b, i),
    decreases b.len(),
{
    if b.len() == 0 {
        assert(a + b =~= a);
        assert(recovered_transaction_params(b, i) =~= Seq::<(Seq<char>, Seq<char>)>::empty());
    } else {
        lemma_recovered_add(a, b.drop_last(), i);
        lemma_recovered_push(a + b.drop_last(), b.last(), i);
        lemma_recovered_push(b.drop_last(), b.last(), i);
        assert((a + b.drop_last()).push(b.last()) =~= a + b);
        assert(b.drop_last().push(b.last()) =~= b);
    }
}

proof fn lemma_recovered_none(s: ParamSeq, i: nat)
    requires
        forall|j: int| 0 <= j < s.len() ==> !is_transaction_entry(#[trigger] s[j], i),
    ensures
        recovered_transaction_params(s, i) == Seq::<(Seq<char>, Seq<char>)>::empty(),
    decreases s.len(),
{
    if s.len() == 0 {
        assert(recovered_transaction_params(s, i) =~= Seq::<(Seq<char>, Seq<char>)>::empty());
    } else {
        lemma_recovered_none(s.drop_last(), i);
        lemma_recovered_push(s.drop_last(), s.last(), i);
        assert(s.drop_last().push(s.last()) =~= s);
    }
}

proof fn lemma_recovered_segment(ps: ParamSeq, j: usize, i: nat)
    ensures
        recovered_transaction_params(mangled_params(Mangling::TransactionIndex(j), ps), i) == (
        if i == j as nat {
            ps
        } else {
            Seq::<(Seq<char>, Seq<char>)>::empty()
        }),
    decreases ps.len(),
{
    let m = Mangling::TransactionIndex(j);
    if ps.len() == 0 {
        assert(recovered_transaction_params(mangled_params(m, ps), i) =~= Seq::<(
            Seq<char>,
            Seq<char>,
        )>::empty());
    } else {
        let last = ps.last();
        let wrapped = (m.spec_apply(last.0), last.1);
        lemma_unmangle_recovers(j, last.0);
        assert(spec_unmangle(wrapped.0) == Some((j as nat, last.0)));
        assert(restored_entry(wrapped) == last);
        lemma_recovered_segment(ps.drop_last(), j, i);
        lemma_recovered_push(mangled_params(m, ps.drop_last()), wrapped, i);
        assert(mangled_params(m, ps.drop_last()).push(wrapped) =~= mangled_params(m, ps));
        if i == j as nat {
            assert(recovered_transaction_params(mangled_params(m, ps), i) =~= ps);
        }
    }
}

proof fn lemma_recovered_upto(ts: Seq<Transaction>, m: int, i: nat)
    requires
        0 <= m <= ts.len(),
        ts.len() <= usize::MAX,
    ensures
        recovered_transaction_params(transactions_params_upto(Kind::Report, ts, m), i) == (
        if i < m {
            ts[i as int].spec_params()
        } else {
            Seq::<(Seq<char>, Seq<char>)>::empty()
        }),
    decreases m,
{
    if m == 0 {
        assert(recovered_transaction_params(
            transactions_params_upto(Kind::Report, ts, 0),
            i,
        ) =~= Seq::<(Seq<char>, Seq<char>)>::empty());
    } else {
        lemma_recovered_upto(ts, m - 1, i);
        let seg = mangled_params(
            transaction_mangling(Kind::Report, m - 1),
            ts[m - 1].spec_params(),
        );
        lemma_recovered_add(transactions_params_upto(Kind::Report, ts, m - 1), seg, i);
        lemma_recovered_segment(ts[m - 1].spec_params(), (m - 1) as usize, i);
    }
}

proof fn lemma_short_key_no_entry(p: (Seq<char>, Seq<char>), i: nat)
    requires
        p.0.len() <= "transactions["@.len(),
    ensures
        !is_transaction_entry(p, i),
{
}

proof fn lemma_call_prefix_not_entries(c: ApiCall, i: nat)
    ensures
        recovered_transaction_params(
            c.service.spec_params() + c.application.spec_params() + (match c.user {
                Some(u) => u.spec_params(),
                None => Seq::<(Seq<char>, Seq<char>)>::empty(),
            }),
            i,
        ) == Seq::<(Seq<char>, Seq<char>)>::empty(),
{
    reveal_strlit("transactions[");
    reveal_strlit("service_id");
    reveal_strlit("provider_key");
    reveal_strlit("service_token");
    reveal_strlit("app_id");
    reveal_strlit("app_key");
    reveal_strlit("access_token");
    reveal_strlit("user_id");
    let sp = c.service.spec_params();
    let ap = c.application.spec_params();
    let up: ParamSeq = match c.user {
        Some(u) => u.spec_params(),
        None => Seq::<(Seq<char>, Seq<char>)>::empty(),
    };
    let prefix = sp + ap + up;
    assert forall|j: int| 0 <= j < prefix.len() implies !is_transaction_entry(
        #[trigger] prefix[j],
        i,
    ) by {
        let p = prefix[j];
        if j < 2 {
            assert(p == sp[j]);
            if j == 0 {
                assert(p.0 == "service_id"@);
            } else {
                assert(p == c.service.creds.spec_params()[0]);
                if c.service.creds is ProviderKey {
                    assert(p.0 == "provider_key"@);
                } else {
                    assert(p.0 == "service_token"@);
                }
            }
        } else if j < 2 + ap.len() {
            assert(p == ap[j - 2]);
            match c.application {
                Application::AppId(_, key_opt) => {
                    if key_opt is Some {
                        assert(p.0 == "app_id"@ || p.0 == "app_key"@);
                    } else {
                        assert(p.0 == "app_id"@);
                    }
                },
                Application::OAuthToken(_) => {
                    assert(p.0 == "access_token"@);
                },
            }
        } else {
            assert(p == up[j - 2 - ap.len()]);
            match c.user {
                Some(u) => {
                    if *u is UserId {
                        assert(p.0 == "user_id"@);
                    } else {
                        assert(p.0 == "access_token"@);
                    }
                },
                None => {
                    assert(false);
                },
            }
        }
        assert(p.0.len() <= "transactions["@.len());
        lemma_short_key_no_entry(p, i);
    };
    lemma_recovered_none(prefix, i);
}

/// The full batch structure of a report call is recoverable from its flat
/// parameter list alone: for each position below the transaction count the
/// recovered entries are exactly that transaction's own ordered parameter
/// list, every position at or beyond the count recovers nothing, and a
/// position recovers something if and only if it lies below the count —
/// so the count itself is determined by the flat list.
pub proof fn lemma_report_batch_recoverable(c: ApiCall)
    requires
        c.kind is Report,
    ensures
        forall|i: nat|
            i < c.transactions@.len() ==> #[trigger] recovered_transaction_params(
                c.spec_params(),
                i,
            ) == c.transactions@[i as int].spec_params(),
        forall|i: nat|
            i >= c.transactions@.len() ==> #[trigger] recovered_transaction_params(
                c.spec_params(),
                i,
            ) == Seq::<(Seq<char>, Seq<char>)>::empty(),
        forall|i: nat|
            #[trigger] recovered_transaction_params(c.spec_params(), i).len() > 0 <==> i
                < c.transactions@.len(),
{
    let ts = c.transactions@;
    let n = ts.len() as int;
    let sp = c.service.spec_params();
    let ap = c.application.spec_params();
    let up: ParamSeq = match c.user {
        Some(u) => u.spec_params(),
        None => Seq::<(Seq<char>, Seq<char>)>::empty(),
    };
    let prefix = sp + ap + up;
    let txs = transactions_params(c.kind, ts);
    assert(ts.len() <= usize::MAX) by {
        broadcast use vstd::std_specs::vec::axiom_spec_len;

        assert(vstd::std_specs::vec::spec_vec_len(c.transactions) == ts.len());
    }
    assert(c.spec_params() == prefix + txs);
    assert(txs == transactions_params_upto(Kind::Report, ts, n));
    assert forall|i: nat| #[trigger] recovered_transaction_params(c.spec_params(), i) == (
    if i < n {
        ts[i as int].spec_params()
    } else {
        Seq::<(Seq<char>, Seq<char>)>::empty()
    }) by {
        lemma_call_prefix_not_entries(c, i);
        lemma_recovered_add(prefix, txs, i);
        lemma_recovered_upto(ts, n, i);
    };
    assert forall|i: nat| i < n implies #[trigger] recovered_transaction_params(
        c.spec_params(),
        i,
    ).len() > 0 by {
        // the application's parameters alone make a transaction's list
        // non-empty
        let tp = ts[i as int].spec_params();
        match ts[i as int].application {
            Application::AppId(_, _) => {
                assert(ts[i as int].application.spec_params().len() >= 1);
            },
            Application::OAuthToken(_) => {
                assert(ts[i as int].application.spec_params().len() == 1);
            },
        }
        assert(tp.len() >= 1);
    };
}

proof fn lemma_upto_is_flatten_alt(kind: Kind, ts: Seq<Transaction>, i: int)
    requires
        0 <= i <= ts.len(),
    ensures
        transactions_params_upto(kind, ts, i) == Seq::new(
            i as nat,
            |j: int| mangled_params(transaction_mangling(kind, j), ts[j].spec_params()),
        ).flatten_alt(),
    decreases i,
{
    let segs = Seq::new(
        i as nat,
        |j: int| mangled_params(transaction_mangling(kind, j), ts[j].spec_params()),
    );
    if i == 0 {
        assert(segs.flatten_alt() =~= Seq::<(Seq<char>, Seq<char>)>::empty());
    } else {
        lemma_upto_is_flatten_alt(kind, ts, i - 1);
        let prev = Seq::new(
            (i - 1) as nat,
            |j: int| mangled_params(transaction_mangling(kind, j), ts[j].spec_params()),
        );
        assert(segs.drop_last() =~= prev);
        assert(segs.last() == mangled_params(
            transaction_mangling(kind, i - 1),
            ts[i - 1].spec_params(),
        ));
    }
}

} // verus!
