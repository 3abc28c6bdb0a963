//! The per-request extension store: a keyed container of typed slots used
//! by otherwise-decoupled pipeline steps to hand each other values. Each
//! key holds at most one value; inserting under an occupied key replaces
//! the old value; removing takes ownership.

use vstd::prelude::*;

use crate::assoc::StrAssoc;
use crate::forms::{FormFieldModel, MultipartForm};

verus! {

/// Named path-parameter captures produced by a successful route match.
pub type MatchContext = StrAssoc<String>;

/// Slot identifier under which routing stores the match context.
pub const MATCH_CONTEXT_KEY: u64 = 1;

/// Slot identifier under which the transport stores a parsed multipart form.
pub const MULTIPART_FORM_KEY: u64 = 2;

/// A value a pipeline step may park in the store: the library's own typed
/// payloads, plain text or bytes, or an opaque handle an application uses
/// to key its own resources (a pool, a registry).
pub enum ExtValue {
    Params(MatchContext),
    Form(MultipartForm),
    Text(String),
    Bytes(Vec<u8>),
    Handle(u64),
}

/// Ghost image of an `ExtValue`.
pub enum ExtModel {
    Params(Map<Seq<char>, Seq<char>>),
    Form(Map<Seq<char>, FormFieldModel>),
    Text(Seq<char>),
    Bytes(Seq<u8>),
    Handle(u64),
}

impl DeepView for ExtValue {
    type V = ExtModel;

    open spec fn deep_view(&self) -> ExtModel {
        match self {
            ExtValue::Params(mc) => ExtModel::Params(mc@),
            ExtValue::Form(f) => ExtModel::Form(f.entries@),
            ExtValue::Text(s) => ExtModel::Text(s@),
            ExtValue::Bytes(b) => ExtModel::Bytes(b@),
            ExtValue::Handle(h) => ExtModel::Handle(*h),
        }
    }
}

/// The map denoted by a slot sequence; the latest entry for a key wins.
pub open spec fn ext_map_of(s: Seq<(u64, ExtValue)>) -> Map<u64, ExtModel>
    decreases s.len(),
{
    if s.len() == 0 {
        Map::empty()
    } else {
        ext_map_of(s.drop_last()).insert(s.last().0, s.last().1.deep_view())
    }
}

proof fn lemma_ext_absent_suffix(s: Seq<(u64, ExtValue)>, j: int, k: u64)
    requires
        0 <= j <= s.len(),
        forall|l: int| j <= l < s.len() ==> s[l].0 != k,
    ensures
        ext_map_of(s).contains_key(k) == ext_map_of(s.take(j)).contains_key(k),
        ext_map_of(s).contains_key(k) ==> ext_map_of(s)[k] == ext_map_of(s.take(j))[k],
    decreases s.len() - j,
{
    if j == s.len() {
        assert(s.take(j) =~= s);
    } else {
        let shorter = s.drop_last();
        assert(s.last().0 != k);
        lemma_ext_absent_suffix(shorter, j, k);
        assert(shorter.take(j) =~= s.take(j));
    }
}

/// The slot sequence with every entry under key `k` dropped.
pub open spec fn ext_without(s: Seq<(u64, ExtValue)>, k: u64) -> Seq<(u64, ExtValue)>
    decreases s.len(),
{
    if s.len() == 0 {
        s
    } else {
        let rest = ext_without(s.drop_last(), k);
        if s.last().0 == k {
            rest
        } else {
            rest.push(s.last())
        }
    }
}

proof fn lemma_ext_without_key(s: Seq<(u64, ExtValue)>, k: u64)
    ensures
        ext_map_of(ext_without(s, k)) == ext_map_of(s).remove(k),
    decreases s.len(),
{
    if s.len() == 0 {
        assert(ext_map_of(ext_without(s, k)) =~= ext_map_of(s).remove(k));
    } else {
        let shorter = s.drop_last();
        let e = s.last();
        lemma_ext_without_key(shorter, k);
        if e.0 == k {
            assert(ext_map_of(s).remove(k) =~= ext_map_of(shorter).remove(k));
        } else {
            assert(ext_without(s, k).drop_last() =~= ext_without(shorter, k));
            assert(ext_without(s, k).last() == e);
            assert(ext_map_of(s).remove(k) =~= ext_map_of(shorter).remove(k).insert(
                e.0,
                e.1.deep_view(),
            ));
        }
    }
}

/// The type-indexed per-request value store.
pub struct Extensions {
    slots: Vec<(u64, ExtValue)>,
}

impl View for Extensions {
    type V = Map<u64, ExtModel>;

    closed spec fn view(&self) -> Map<u64, ExtModel> {
        ext_map_of(self.slots@)
    }
}

impl Extensions {
    /// An empty store.
    pub fn new() -> (r: Self)
        ensures
            r@ == Map::<u64, ExtModel>::empty(),
    {
        Extensions { slots: Vec::new() }
    }

    /// Parks `value` under `key`, replacing whatever the key held.
    pub fn insert(&mut self, key: u64, value: ExtValue)
        ensures
            final(self)@ == old(self)@.insert(key, value.deep_view()),
    {
        let ghost pre = self.slots@;
        let ghost vview = value.deep_view();
        self.slots.push((key, value));
        proof {
            assert(self.slots@.drop_last() =~= pre);
        }
    }

    /// The value under `key`, if any.
    pub fn get(&self, key: u64) -> (r: Option<&ExtValue>)
        ensures
            match r {
                Some(v) => self@.contains_key(key) && self@[key] == v.deep_view(),
                None => !self@.contains_key(key),
            },
    {
        let n: usize = self.slots.len();
        let mut j: usize = n;
        while j > 0
            invariant
                j <= n,
                n == self.slots@.len(),
                forall|l: int| j <= l < n ==> self.slots@[l].0 != key,
            decreases j,
        {
            j -= 1;
            if self.slots[j].0 == key {
                proof {
                    lemma_ext_absent_suffix(self.slots@, j + 1, key);
                    let upto = self.slots@.take(j + 1);
                    assert(upto.drop_last() =~= self.slots@.take(j as int));
                    assert(upto.last() == self.slots@[j as int]);
                }
                return Some(&self.slots[j].1);
            }
        }
        proof {
            lemma_ext_absent_suffix(self.slots@, 0, key);
            assert(self.slots@.take(0) =~= Seq::<(u64, ExtValue)>::empty());
        }
        None
    }

    /// Takes the value under `key` out of the store, if there is one.
    pub fn remove(&mut self, key: u64) -> (r: Option<ExtValue>)
        ensures
            final(self)@ == old(self)@.remove(key),
            match r {
                Some(v) => old(self)@.contains_key(key) && old(self)@[key] == v.deep_view(),
                None => !old(self)@.contains_key(key),
            },
    {
        let ghost pre = self.slots@;
        let n: usize = self.slots.len();
        let mut kept: Vec<(u64, ExtValue)> = Vec::new();
        let mut found: Option<ExtValue> = None;
        let mut i: usize = 0;
        let mut rest: Vec<(u64, ExtValue)> = Vec::new();
        std::mem::swap(&mut rest, &mut self.slots);
        proof {
            assert(rest@ =~= pre.subrange(0, n as int));
            assert(pre.take(0) =~= Seq::<(u64, ExtValue)>::empty());
        }
        while rest.len() > 0
            invariant
                i + rest@.len() == n,
                n == pre.len(),
                rest@ =~= pre.subrange(i as int, n as int),
                kept@ =~= ext_without(pre.take(i as int), key),
                match found {
                    Some(v) => ext_map_of(pre.take(i as int)).contains_key(key) && ext_map_of(
                        pre.take(i as int),
                    )[key] == v.deep_view(),
                    None => !ext_map_of(pre.take(i as int)).contains_key(key),
                },
            decreases rest@.len(),
        {
            let entry = rest.remove(0);
            proof {
                assert(entry == pre[i as int]);
                assert(pre.take(i + 1).drop_last() =~= pre.take(i as int));
                assert(pre.take(i + 1).last() == pre[i as int]);
            }
            if entry.0 == key {
                found = Some(entry.1);
            } else {
                kept.push(entry);
            }
            i += 1;
            proof {
                assert(rest@ =~= pre.subrange(i as int, n as int));
            }
        }
        proof {
            assert(pre.take(n as int) =~= pre);
        }
        self.slots = kept;
        proof {
            lemma_ext_without_key(pre, key);
        }
        found
    }

    /// Stores the match context of the route that was just matched,
    /// replacing the context of any outer dispatch.
    pub fn insert_match_context(&mut self, mc: MatchContext)
        ensures
            final(self)@ == old(self)@.insert(MATCH_CONTEXT_KEY, ExtModel::Params(mc@)),
    {
        self.insert(MATCH_CONTEXT_KEY, ExtValue::Params(mc));
    }

    /// The match context stored by routing, if dispatch has matched.
    pub fn match_context(&self) -> (r: Option<&MatchContext>)
        ensures
            match r {
                Some(mc) => self@.contains_key(MATCH_CONTEXT_KEY) && self@[MATCH_CONTEXT_KEY]
                    == ExtModel::Params(mc@),
                None => !(self@.contains_key(MATCH_CONTEXT_KEY) && self@[MATCH_CONTEXT_KEY]
                    is Params),
            },
    {
        match self.get(MATCH_CONTEXT_KEY) {
            Some(ExtValue::Params(mc)) => Some(mc),
            _ => None,
        }
    }

    /// Takes the parsed multipart form out of the store, leaving the store
    /// untouched when the form slot does not hold a form.
    pub fn take_form(&mut self) -> (r: Option<MultipartForm>)
        ensures
            match r {
                Some(f) => old(self)@.contains_key(MULTIPART_FORM_KEY) && old(
                    self,
                )@[MULTIPART_FORM_KEY] == ExtModel::Form(f.entries@) && final(self)@ == old(
                    self,
                )@.remove(MULTIPART_FORM_KEY),
                None => !(old(self)@.contains_key(MULTIPART_FORM_KEY) && old(
                    self,
                )@[MULTIPART_FORM_KEY] is Form) && final(self)@ == old(self)@,
            },
    {
        let is_form = match self.get(MULTIPART_FORM_KEY) {
            Some(ExtValue::Form(_)) => true,
            _ => false,
        };
        if is_form {
            match self.remove(MULTIPART_FORM_KEY) {
                Some(ExtValue::Form(f)) => Some(f),
                _ => {
                    proof {
                        assert(false);
                    }
                    None
                },
            }
        } else {
            None
        }
    }
}

} // verus!
