//! Policies that decide how each key-value attribute of a record is printed.

use crate::text::str_eq;
use slog::{Key, Level};
use vstd::prelude::*;

verus! {

/// What happens to one attribute when its record is rendered.
#[derive(Clone, Copy, Debug, PartialEq, Eq)]
pub enum KVCategory {
    /// The attribute is not printed at all.
    Ignore,
    /// The attribute is appended to the line of the record's message.
    Inline,
    /// The attribute is printed on a line of its own, at the given level.
    LevelLog(Level),
}

/// A policy that sorts attributes into categories and gives them display names.
///
/// Both methods are total: a policy answers for every key, known to it or not.
/// What a policy answers is its own affair; the renderer prints whatever it
/// is told.
pub trait KVCategorizer {
    /// For a given key, decides which category it belongs to.
    fn categorize(&self, key: Key) -> KVCategory;

    /// For a given key, returns the name that is printed for it.
    fn name(&self, key: Key) -> &'static str;

    /// True if the category of the key is `KVCategory::Ignore`.
    fn ignore(&self, key: Key) -> (ignored: bool)
        ensures
            exists|category: KVCategory|
                call_ensures(Self::categorize, (self, key), category) && ignored == (category
                    is Ignore),
    {
        match self.categorize(key) {
            KVCategory::Ignore => true,
            _ => false,
        }
    }
}

/// The plainest policy: every attribute is inlined under its own key.
pub struct InlineCategorizer;

impl InlineCategorizer {
    /// The category of `key` under this policy.
    pub open spec fn category_of(key: Seq<char>) -> KVCategory {
        KVCategory::Inline
    }

    /// The name of `key` under this policy.
    pub open spec fn name_of(key: Seq<char>) -> Seq<char> {
        key
    }
}

impl KVCategorizer for InlineCategorizer {
    fn categorize(&self, key: Key) -> (category: KVCategory)
        ensures
            category == InlineCategorizer::category_of(key@),
    {
        KVCategory::Inline
    }

    fn name(&self, key: Key) -> (name: &'static str)
        ensures
            name@ == InlineCategorizer::name_of(key@),
    {
        key
    }
}

/// A policy for errors and their chains: the error, each cause and the
/// backtrace get lines of their own, at falling severity; every other key is
/// left to `InlineCategorizer`.
pub struct ErrorCategorizer;

impl ErrorCategorizer {
    /// The keys to which this policy gives a category of its own.
    pub open spec fn has_own_category(key: Seq<char>) -> bool {
        key == "error"@ || key == "cause"@ || key == "backtrace"@
    }

    /// The keys to which this policy gives a name of its own.
    pub open spec fn has_own_name(key: Seq<char>) -> bool {
        key == "error"@ || key == "cause"@ || key == "backtrace"@ || key == "root_cause"@
    }

    /// The category of `key` under this policy.
    pub open spec fn category_of(key: Seq<char>) -> KVCategory {
        if key == "error"@ {
            KVCategory::LevelLog(Level::Error)
        } else if key == "cause"@ {
            KVCategory::LevelLog(Level::Debug)
        } else if key == "backtrace"@ {
            KVCategory::LevelLog(Level::Trace)
        } else {
            InlineCategorizer::category_of(key)
        }
    }

    /// The name of `key` under this policy.
    pub open spec fn name_of(key: Seq<char>) -> Seq<char> {
        if key == "error"@ {
            "Error"@
        } else if key == "cause"@ {
            "Caused by"@
        } else if key == "backtrace"@ {
            "Originated in"@
        } else if key == "root_cause"@ {
            "Root cause"@
        } else {
            InlineCategorizer::name_of(key)
        }
    }
}

impl KVCategorizer for ErrorCategorizer {
    fn categorize(&self, key: Key) -> (category: KVCategory)
        ensures
            category == ErrorCategorizer::category_of(key@),
    {
        if str_eq(key, "error") {
            KVCategory::LevelLog(Level::Error)
        } else if str_eq(key, "cause") {
            KVCategory::LevelLog(Level::Debug)
        } else if str_eq(key, "backtrace") {
            KVCategory::LevelLog(Level::Trace)
        } else {
            InlineCategorizer.categorize(key)
        }
    }

    fn name(&self, key: Key) -> (name: &'static str)
        ensures
            name@ == ErrorCategorizer::name_of(key@),
    {
        if str_eq(key, "error") {
            "Error"
        } else if str_eq(key, "cause") {
            "Caused by"
        } else if str_eq(key, "backtrace") {
            "Originated in"
        } else if str_eq(key, "root_cause") {
            "Root cause"
        } else {
            InlineCategorizer.name(key)
        }
    }
}

/// Delegation is transparent: on every key that `ErrorCategorizer` does not
/// single out, it answers exactly as `InlineCategorizer` does.
pub proof fn lemma_error_categorizer_delegates(key: Seq<char>)
    ensures
        !ErrorCategorizer::has_own_category(key) ==> ErrorCategorizer::category_of(key)
            == InlineCategorizer::category_of(key),
        !ErrorCategorizer::has_own_name(key) ==> ErrorCategorizer::name_of(key)
            == InlineCategorizer::name_of(key),
{
}

/// The policy of `ErrorCategorizer` on its well-known keys.
pub proof fn lemma_error_categorizer_table()
    ensures
        ErrorCategorizer::category_of("error"@) == KVCategory::LevelLog(Level::Error),
        ErrorCategorizer::category_of("cause"@) == KVCategory::LevelLog(Level::Debug),
        ErrorCategorizer::category_of("backtrace"@) == KVCategory::LevelLog(Level::Trace),
        ErrorCategorizer::category_of("root_cause"@) == KVCategory::Inline,
        ErrorCategorizer::name_of("error"@) == "Error"@,
        ErrorCategorizer::name_of("cause"@) == "Caused by"@,
        ErrorCategorizer::name_of("backtrace"@) == "Originated in"@,
        ErrorCategorizer::name_of("root_cause"@) == "Root cause"@,
{
    reveal_strlit("error");
    reveal_strlit("cause");
    reveal_strlit("backtrace");
    reveal_strlit("root_cause");
    assert("error"@[0] != "cause"@[0]);
    assert("error"@.len() == 5 && "cause"@.len() == 5);
    assert("backtrace"@.len() == 9 && "root_cause"@.len() == 10);
}

} // verus!
