//! One unit of usage to report.

use vstd::prelude::*;
use crate::application::Application;
use crate::decimal::{i64_to_dec, spec_dec_int};
use crate::params::{
    Mangling, ParamSeq, ToParams, lemma_mangled_append, lemma_mangled_singleton, mangled_params,
    push_param,
};
use crate::usage::Usage;
use crate::user::User;

verus! {

/// A reporting entry: borrowed references to the application, optional
/// user and optional usage it pertains to, plus an optional timestamp kept
/// as its decimal string rendering. A transaction never owns its referenced
/// entities; it is a view bounded by their lifetimes.
#[derive(Clone, Debug)]
pub struct Transaction<'a> {
    pub application: &'a Application,
    pub user: Option<&'a User>,
    pub usage: Option<&'a Usage>,
    pub timestamp: Option<String>,
}

impl<'a> Transaction<'a> {
    /// Creates a transaction; a timestamp is rendered in decimal.
    pub fn new(
        application: &'a Application,
        user: Option<&'a User>,
        usage: Option<&'a Usage>,
        timestamp: Option<i64>,
    ) -> (t: Transaction<'a>)
        ensures
            t.application == application,
            t.user == user,
            t.usage == usage,
            match timestamp {
                Some(n) => t.timestamp matches Some(s) && s@ == spec_dec_int(n as int),
                None => t.timestamp is None,
            },
    {
        Transaction {
            application,
            user,
            usage,
            timestamp: match timestamp {
                Some(n) => Some(i64_to_dec(n)),
                None => None,
            },
        }
    }

    /// The application this transaction reports for.
    pub fn application(&self) -> (a: &'a Application)
        ensures
            a == self.application,
    {
        self.application
    }

    /// The user this transaction reports for, if any.
    pub fn user(&self) -> (u: Option<&'a User>)
        ensures
            u == self.user,
    {
        self.user
    }

    /// The usage counters this transaction reports, if any.
    pub fn usage(&self) -> (u: Option<&'a Usage>)
        ensures
            u == self.usage,
    {
        self.usage
    }

    /// The timestamp as a decimal string, if one was given.
    pub fn timestamp(&self) -> (ts: Option<&str>)
        ensures
            match ts {
                Some(s) => self.timestamp matches Some(t) && s@ == t@,
                None => self.timestamp is None,
            },
    {
        match &self.timestamp {
            Some(s) => Some(s.as_str()),
            None => None,
        }
    }
}

impl<'a> ToParams for Transaction<'a> {
    open spec fn spec_params(&self) -> ParamSeq {
        (match self.timestamp {
            Some(ts) => seq![("timestamp"@, ts@)],
            None => Seq::empty(),
        }) + self.application.spec_params() + (match self.user {
            Some(u) => u.spec_params(),
            None => Seq::empty(),
        }) + (match self.usage {
            Some(u) => u.spec_params(),
            None => Seq::empty(),
        })
    }

    fn to_params_with_mangling(&self, target: &mut Vec<(String, String)>, mangling: &Mangling) {
        let ghost ts_part: ParamSeq = match &self.timestamp {
            Some(ts) => seq![("timestamp"@, ts@)],
            None => Seq::empty(),
        };
        let ghost user_part: ParamSeq = match self.user {
            Some(u) => u.spec_params(),
            None => Seq::empty(),
        };
        let ghost usage_part: ParamSeq = match self.usage {
            Some(u) => u.spec_params(),
            None => Seq::empty(),
        };
        if let Some(ts) = &self.timestamp {
            push_param(target, mangling.apply("timestamp"), ts.clone());
            proof {
                lemma_mangled_singleton(*mangling, "timestamp"@, ts@);
            }
        }
        self.application.to_params_with_mangling(target, mangling);
        if let Some(u) = self.user {
            u.to_params_with_mangling(target, mangling);
        }
        if let Some(u) = self.usage {
            u.to_params_with_mangling(target, mangling);
        }
        proof {
            lemma_mangled_append(*mangling, ts_part, self.application.spec_params());
            lemma_mangled_append(
                *mangling,
                ts_part + self.application.spec_params(),
                user_part,
            );
            lemma_mangled_append(
                *mangling,
                ts_part + self.application.spec_params() + user_part,
                usage_part,
            );
            assert(target.deep_view() =~= old(target).deep_view() + mangled_params(
                *mangling,
                self.spec_params(),
            ));
        }
    }
}

} // verus!
