//! The denom registry: a state machine over three mappings — admin by denom,
//! metadata by denom, and created denoms by creator.
//!
//! The abstract state is a [`RegistryView`]; every operation is described by
//! a spec-level transition function over that view, and the executable
//! methods are proved to follow those transitions exactly. A failed
//! operation leaves the state unchanged.

use cosmwasm_std::Api;
use vstd::prelude::*;
use vstd::pervasive::VecAdditionalExecFns;

use crate::denom;
use crate::denom::{spec_bad_candidate_message, spec_candidate, spec_denom_parts_ok};
use crate::error::{ErrorView, TokenFactoryError};
use crate::msg::{TokenFactoryMsg, TokenMsg};
use crate::types::{Metadata, MetadataView};

verus! {

/// The abstract registry state: three mappings keyed by character strings.
#[verifier::ext_equal]
pub struct RegistryView {
    /// Denom name to the identity currently authorized to manage it.
    pub admins: Map<Seq<char>, Seq<char>>,
    /// Denom name to its descriptive record, where one was set.
    pub metadata: Map<Seq<char>, MetadataView>,
    /// Creator identity to the denoms it created, in creation order.
    pub denoms_by_creator: Map<Seq<char>, Seq<Seq<char>>>,
}

/// An instruction delegated to the external ledger. The registry only
/// authorizes these; it never touches balances itself.
#[derive(Debug)]
pub enum LedgerOp {
    /// Credit `amount` of `denom` to `to`.
    Credit { denom: String, amount: u128, to: String },
    /// Debit `amount` of `denom` from `from`.
    Debit { denom: String, amount: u128, from: String },
    /// Move `amount` of `denom` from `from` to `to`, bypassing the ledger's
    /// own transfer authorization.
    Move { denom: String, amount: u128, from: String, to: String },
}

/// Mathematical image of a [`LedgerOp`].
pub enum LedgerOpView {
    Credit { denom: Seq<char>, amount: u128, to: Seq<char> },
    Debit { denom: Seq<char>, amount: u128, from: Seq<char> },
    Move { denom: Seq<char>, amount: u128, from: Seq<char>, to: Seq<char> },
}

impl View for LedgerOp {
    type V = LedgerOpView;

    open spec fn view(&self) -> LedgerOpView {
        match self {
            LedgerOp::Credit { denom, amount, to } => LedgerOpView::Credit {
                denom: denom@,
                amount: *amount,
                to: to@,
            },
            LedgerOp::Debit { denom, amount, from } => LedgerOpView::Debit {
                denom: denom@,
                amount: *amount,
                from: from@,
            },
            LedgerOp::Move { denom, amount, from, to } => LedgerOpView::Move {
                denom: denom@,
                amount: *amount,
                from: from@,
                to: to@,
            },
        }
    }
}

/// The map read off an association list: later entries win, though the
/// registry keeps its keys unique.
pub open spec fn alist_map<V: DeepView>(s: Seq<(String, V)>) -> Map<Seq<char>, V::V>
    decreases s.len(),
{
    if s.len() == 0 {
        Map::empty()
    } else {
        alist_map(s.drop_last()).insert(s.last().0@, s.last().1.deep_view())
    }
}

/// No two entries share a key.
pub open spec fn keys_unique<V>(s: Seq<(String, V)>) -> bool {
    forall|p: int, q: int| 0 <= p < q < s.len() ==> s[p].0@ != s[q].0@
}

/// Every metadata entry belongs to a created denom.
spec fn metadata_covered(metadata: Seq<(String, Metadata)>, admins: Seq<(String, String)>) -> bool {
    forall|i: int| 0 <= i < metadata.len() ==> alist_map(admins).contains_key(
        #[trigger] metadata[i].0@,
    )
}

proof fn lemma_alist_contains<V: DeepView>(s: Seq<(String, V)>, k: Seq<char>)
    ensures
        alist_map(s).contains_key(k) <==> exists|i: int| 0 <= i < s.len() && #[trigger] s[i].0@
            == k,
    decreases s.len(),
{
    if s.len() > 0 {
        lemma_alist_contains(s.drop_last(), k);
        assert(forall|i: int| 0 <= i < s.len() - 1 ==> #[trigger] s.drop_last()[i] == s[i]);
        if alist_map(s).contains_key(k) {
            if s.last().0@ == k {
                assert(s[s.len() - 1].0@ == k);
            } else {
                let j = choose|j: int|
                    0 <= j < s.drop_last().len() && #[trigger] s.drop_last()[j].0@ == k;
                assert(s[j].0@ == k);
            }
        }
        if exists|i: int| 0 <= i < s.len() && #[trigger] s[i].0@ == k {
            let i = choose|i: int| 0 <= i < s.len() && #[trigger] s[i].0@ == k;
            if i < s.len() - 1 {
                assert(s.drop_last()[i].0@ == k);
            }
        }
    }
}

proof fn lemma_alist_value<V: DeepView>(s: Seq<(String, V)>, i: int)
    requires
        keys_unique(s),
        0 <= i < s.len(),
    ensures
        alist_map(s).contains_key(s[i].0@),
        alist_map(s)[s[i].0@] == s[i].1.deep_view(),
    decreases s.len(),
{
    if i < s.len() - 1 {
        assert(forall|p: int| 0 <= p < s.len() - 1 ==> #[trigger] s.drop_last()[p] == s[p]);
        lemma_alist_value(s.drop_last(), i);
        assert(s[i].0@ != s.last().0@);
    }
}

proof fn lemma_alist_push<V: DeepView>(s: Seq<(String, V)>, p: (String, V))
    ensures
        alist_map(s.push(p)) == alist_map(s).insert(p.0@, p.1.deep_view()),
{
    assert(s.push(p).drop_last() =~= s);
    assert(s.push(p).last() == p);
}

proof fn lemma_alist_update<V: DeepView>(s: Seq<(String, V)>, i: int, p: (String, V))
    requires
        keys_unique(s),
        0 <= i < s.len(),
        p.0@ == s[i].0@,
    ensures
        alist_map(s.update(i, p)) =~= alist_map(s).insert(p.0@, p.1.deep_view()),
        keys_unique(s.update(i, p)),
    decreases s.len(),
{
    let s2 = s.update(i, p);
    assert(forall|q: int| 0 <= q < s.len() && q != i ==> #[trigger] s2[q] == s[q]);
    if i == s.len() - 1 {
        assert(s2.drop_last() =~= s.drop_last());
        assert(s2.last() == p);
        assert(alist_map(s2) =~= alist_map(s).insert(p.0@, p.1.deep_view()));
    } else {
        assert(forall|q: int| 0 <= q < s.len() - 1 ==> #[trigger] s.drop_last()[q] == s[q]);
        assert(s2.drop_last() =~= s.drop_last().update(i, p));
        lemma_alist_update(s.drop_last(), i, p);
        assert(s2.last() == s.last());
        assert(s.last().0@ != p.0@);
        assert(alist_map(s2) =~= alist_map(s).insert(p.0@, p.1.deep_view()));
    }
}

/// String equality over the views.
fn str_eq(a: &str, b: &str) -> (r: bool)
    ensures
        r == (a@ == b@),
{
    a.to_owned() == b.to_owned()
}

/// Index of the entry with the given key, if one exists.
fn alist_find<V: DeepView>(list: &Vec<(String, V)>, key: &str) -> (r: Option<usize>)
    ensures
        (match r {
            Some(i) => i < list@.len() && list@[i as int].0@ == key@,
            None => forall|i: int| 0 <= i < list@.len() ==> (#[trigger] list@[i].0@) != key@,
        }),
{
    let mut i: usize = 0;
    while i < list.len()
        invariant
            i <= list@.len(),
            forall|m: int| 0 <= m < i ==> (#[trigger] list@[m].0@) != key@,
        decreases list@.len() - i,
    {
        if str_eq(list[i].0.as_str(), key) {
            return Some(i);
        }
        i = i + 1;
    }
    None
}

/// Relies on `cosmwasm_std::testing::MockApi::addr_validate`: for the
/// default mock API the verdict is a pure function of the address string,
/// and the call returns normally on every input.
#[verifier::external_body]
fn addr_is_valid(s: &str) -> (r: bool)
    ensures
        r == valid_addr(s@),
{
    cosmwasm_std::testing::MockApi::default().addr_validate(s).is_ok()
}

/// Whether a string parses as a valid identity, as the mock API's
/// `addr_validate` decides it.
pub uninterp spec fn valid_addr(s: Seq<char>) -> bool;

/// Transition of a create operation: the name must validate and be new;
/// the sender becomes admin, the denom joins the sender's creation list, and
/// metadata is installed when supplied. The created canonical name is
/// returned.
pub open spec fn spec_create(
    v: RegistryView,
    sender: Seq<char>,
    subdenom: Seq<char>,
    md: Option<MetadataView>,
) -> (RegistryView, Result<Seq<char>, ErrorView>) {
    let d = spec_candidate(sender, subdenom);
    if !spec_denom_parts_ok(sender, subdenom) {
        (
            v,
            Err(ErrorView::InvalidDenom { denom: d, message: spec_bad_candidate_message() }),
        )
    } else if v.admins.contains_key(d) {
        (v, Err(ErrorView::DenomAlreadyExists))
    } else {
        let prior = if v.denoms_by_creator.contains_key(sender) {
            v.denoms_by_creator[sender]
        } else {
            Seq::empty()
        };
        (
            RegistryView {
                admins: v.admins.insert(d, sender),
                metadata: match md {
                    Some(m) => v.metadata.insert(d, m),
                    None => v.metadata,
                },
                denoms_by_creator: v.denoms_by_creator.insert(sender, prior.push(d)),
            },
            Ok(d),
        )
    }
}

/// Transition of an admin change: only the current admin may perform it;
/// the empty string is accepted as a "no admin" sentinel, any other new
/// admin must parse as a valid identity.
pub open spec fn spec_change_admin(
    v: RegistryView,
    sender: Seq<char>,
    denom: Seq<char>,
    new_admin: Seq<char>,
) -> (RegistryView, Result<(), ErrorView>) {
    if !v.admins.contains_key(denom) {
        (v, Err(ErrorView::UnknownDenom))
    } else if v.admins[denom] != sender {
        (v, Err(ErrorView::NotAdmin))
    } else if new_admin.len() != 0 && !valid_addr(new_admin) {
        (v, Err(ErrorView::InvalidAddress))
    } else {
        (RegistryView { admins: v.admins.insert(denom, new_admin), ..v }, Ok(()))
    }
}

/// Outcome of a mint: a strictly positive amount, an existing denom and the
/// admin as sender yield a credit instruction for the external ledger. The
/// registry state never changes.
pub open spec fn spec_mint(
    v: RegistryView,
    sender: Seq<char>,
    denom: Seq<char>,
    amount: u128,
    to: Seq<char>,
) -> Result<LedgerOpView, ErrorView> {
    if amount == 0 {
        Err(ErrorView::ZeroAmount)
    } else if !v.admins.contains_key(denom) {
        Err(ErrorView::UnknownDenom)
    } else if v.admins[denom] != sender {
        Err(ErrorView::NotAdmin)
    } else {
        Ok(LedgerOpView::Credit { denom, amount, to })
    }
}

/// Outcome of a burn: as a mint, but the debited account is always the
/// admin itself — the caller-supplied burn-from identity is deliberately
/// ignored, the current restriction on burning.
pub open spec fn spec_burn(
    v: RegistryView,
    sender: Seq<char>,
    denom: Seq<char>,
    amount: u128,
) -> Result<LedgerOpView, ErrorView> {
    if amount == 0 {
        Err(ErrorView::ZeroAmount)
    } else if !v.admins.contains_key(denom) {
        Err(ErrorView::UnknownDenom)
    } else if v.admins[denom] != sender {
        Err(ErrorView::NotAdmin)
    } else {
        Ok(LedgerOpView::Debit { denom, amount, from: sender })
    }
}

/// Outcome of a forced transfer: only the admin may move balances between
/// two arbitrary identities.
pub open spec fn spec_force_transfer(
    v: RegistryView,
    sender: Seq<char>,
    denom: Seq<char>,
    amount: u128,
    from: Seq<char>,
    to: Seq<char>,
) -> Result<LedgerOpView, ErrorView> {
    if amount == 0 {
        Err(ErrorView::ZeroAmount)
    } else if !v.admins.contains_key(denom) {
        Err(ErrorView::UnknownDenom)
    } else if v.admins[denom] != sender {
        Err(ErrorView::NotAdmin)
    } else {
        Ok(LedgerOpView::Move { denom, amount, from, to })
    }
}

/// Transition of a metadata update: only the admin of an existing denom may
/// set it, and the record is fully replaced.
pub open spec fn spec_set_metadata(
    v: RegistryView,
    sender: Seq<char>,
    denom: Seq<char>,
    md: MetadataView,
) -> (RegistryView, Result<(), ErrorView>) {
    if !v.admins.contains_key(denom) {
        (v, Err(ErrorView::UnknownDenom))
    } else if v.admins[denom] != sender {
        (v, Err(ErrorView::NotAdmin))
    } else {
        (RegistryView { metadata: v.metadata.insert(denom, md), ..v }, Ok(()))
    }
}

/// The registry. It owns the three mappings; queries read them and
/// operations mutate them under the authorization rules.
pub struct TokenFactoryModule {
    admins: Vec<(String, String)>,
    metadata: Vec<(String, Metadata)>,
    denoms_by_creator: Vec<(String, Vec<String>)>,
}

impl View for TokenFactoryModule {
    type V = RegistryView;

    closed spec fn view(&self) -> RegistryView {
        RegistryView {
            admins: alist_map(self.admins@),
            metadata: alist_map(self.metadata@),
            denoms_by_creator: alist_map(self.denoms_by_creator@),
        }
    }
}

impl TokenFactoryModule {
    /// The registry's internal invariant: each mapping keys every denom or
    /// creator at most once, and metadata exists only for created denoms.
    pub closed spec fn wf(&self) -> bool {
        &&& keys_unique(self.admins@)
        &&& keys_unique(self.metadata@)
        &&& keys_unique(self.denoms_by_creator@)
        &&& metadata_covered(self.metadata@, self.admins@)
    }

    /// A fresh registry: nothing created, nothing stored.
    pub fn new() -> (r: TokenFactoryModule)
        ensures
            r.wf(),
            r@.admins == Map::<Seq<char>, Seq<char>>::empty(),
            r@.metadata == Map::<Seq<char>, MetadataView>::empty(),
            r@.denoms_by_creator == Map::<Seq<char>, Seq<Seq<char>>>::empty(),
    {
        TokenFactoryModule { admins: Vec::new(), metadata: Vec::new(), denoms_by_creator: Vec::new() }
    }

    /// The current admin of `denom`; fails when the denom was never created.
    pub fn admin(&self, denom: &str) -> (r: Result<String, TokenFactoryError>)
        requires
            self.wf(),
        ensures
            (match r {
                Ok(a) => self@.admins.contains_key(denom@) && a@ == self@.admins[denom@],
                Err(e) => !self@.admins.contains_key(denom@) && e@ == ErrorView::UnknownDenom,
            }),
    {
        proof {
            lemma_alist_contains(self.admins@, denom@);
        }
        match alist_find(&self.admins, denom) {
            Some(i) => {
                proof {
                    lemma_alist_value(self.admins@, i as int);
                }
                Ok(self.admins[i].1.clone())
            },
            None => Err(TokenFactoryError::UnknownDenom),
        }
    }

    /// The metadata stored for `denom`, or `None`; never fails.
    pub fn metadata(&self, denom: &str) -> (r: Option<&Metadata>)
        requires
            self.wf(),
        ensures
            (match r {
                Some(m) => self@.metadata.contains_key(denom@) && m@ == self@.metadata[denom@],
                None => !self@.metadata.contains_key(denom@),
            }),
    {
        proof {
            lemma_alist_contains(self.metadata@, denom@);
        }
        match alist_find(&self.metadata, denom) {
            Some(i) => {
                proof {
                    lemma_alist_value(self.metadata@, i as int);
                }
                Some(&self.metadata[i].1)
            },
            None => None,
        }
    }

    /// The denoms `creator` has created, in creation order; empty when it
    /// has created none. Never fails.
    pub fn denoms_by_creator(&self, creator: &str) -> (r: Vec<String>)
        requires
            self.wf(),
        ensures
            (if self@.denoms_by_creator.contains_key(creator@) {
                r.deep_view() == self@.denoms_by_creator[creator@]
            } else {
                r.deep_view() == Seq::<Seq<char>>::empty()
            }),
    {
        proof {
            lemma_alist_contains(self.denoms_by_creator@, creator@);
        }
        match alist_find(&self.denoms_by_creator, creator) {
            Some(i) => {
                proof {
                    lemma_alist_value(self.denoms_by_creator@, i as int);
                }
                crate::types::clone_string_vec(&self.denoms_by_creator[i].1)
            },
            None => {
                let r: Vec<String> = Vec::new();
                proof {
                    assert(r.deep_view() =~= Seq::<Seq<char>>::empty());
                }
                r
            },
        }
    }

    /// Creates the denom `factory/{sender}/{subdenom}`, installs `sender` as
    /// its admin, records it under the sender's creations, and stores the
    /// metadata when some is supplied. Returns the reply payload, which
    /// decodes back to the canonical denom string.
    pub fn create_denom(&mut self, sender: &str, subdenom: &str, metadata: Option<Metadata>) -> (r:
        Result<Vec<u8>, TokenFactoryError>)
        requires
            old(self).wf(),
        ensures
            final(self).wf(),
            ({
                let t = spec_create(old(self)@, sender@, subdenom@, metadata.deep_view());
                &&& final(self)@ == t.0
                &&& (match r {
                    Ok(data) => t.1 is Ok && data@ == crate::decode::spec_encode_string_field(
                        1,
                        vstd::utf8::encode_utf8(t.1->Ok_0),
                    ) && crate::decode::spec_decode_string_field(data@, 1) == Ok::<
                        _,
                        crate::error::DecodeError,
                    >(t.1->Ok_0),
                    Err(e) => t.1 == Err::<Seq<char>, ErrorView>(e@),
                })
            }),
    {
        let d = match denom::full_denom(sender, subdenom) {
            Err(e) => {
                return Err(e);
            },
            Ok(d) => d,
        };
        proof {
            lemma_alist_contains(self.admins@, d@);
        }
        if alist_find(&self.admins, d.as_str()).is_some() {
            return Err(TokenFactoryError::DenomAlreadyExists);
        }
        let ghost t = spec_create(self@, sender@, subdenom@, metadata.deep_view());
        let ghost admins0 = self.admins@;
        self.admins.push((d.clone(), sender.to_owned()));
        proof {
            lemma_alist_push(admins0, self.admins@.last());
            assert(alist_map(self.admins@) =~= alist_map(admins0).insert(d@, sender@));
            assert(keys_unique(self.admins@)) by {
                assert(forall|m: int| 0 <= m < admins0.len() ==> (#[trigger] admins0[m].0@)
                    != d@);
                assert(forall|m: int| 0 <= m < admins0.len() ==> self.admins@[m] == admins0[m]);
            }
        }
        let ghost metadata0 = self.metadata@;
        match metadata {
            Some(md) => {
                self.metadata.push((d.clone(), md));
                proof {
                    lemma_alist_push(metadata0, self.metadata@.last());
                    assert(alist_map(self.metadata@) =~= alist_map(metadata0).insert(
                        d@,
                        md.deep_view(),
                    ));
                    assert(forall|m: int| 0 <= m < metadata0.len() ==> self.metadata@[m]
                        == metadata0[m]);
                    assert(keys_unique(self.metadata@)) by {
                        lemma_alist_contains(admins0, d@);
                    }
                    assert(metadata_covered(self.metadata@, self.admins@));
                }
            },
            None => {
                proof {
                    assert(metadata_covered(self.metadata@, self.admins@));
                }
            },
        }
        let ghost denoms0 = self.denoms_by_creator@;
        proof {
            lemma_alist_contains(denoms0, sender@);
        }
        match alist_find(&self.denoms_by_creator, sender) {
            Some(i) => {
                proof {
                    lemma_alist_value(denoms0, i as int);
                }
                let mut list = crate::types::clone_string_vec(&self.denoms_by_creator[i].1);
                list.push(d.clone());
                let key = self.denoms_by_creator[i].0.clone();
                self.denoms_by_creator.set(i, (key, list));
                proof {
                    lemma_alist_update(denoms0, i as int, self.denoms_by_creator@[i as int]);
                    assert(self.denoms_by_creator@[i as int].1.deep_view() =~= denoms0[i as int]
                        .1.deep_view().push(d@));
                }
            },
            None => {
                let mut list: Vec<String> = Vec::new();
                list.push(d.clone());
                self.denoms_by_creator.push((sender.to_owned(), list));
                proof {
                    lemma_alist_push(denoms0, self.denoms_by_creator@.last());
                    assert(self.denoms_by_creator@.last().1.deep_view() =~= Seq::<
                        Seq<char>,
                    >::empty().push(d@));
                    assert(keys_unique(self.denoms_by_creator@)) by {
                        assert(forall|m: int| 0 <= m < denoms0.len() ==> (#[trigger] denoms0[m].0@)
                            != sender@);
                        assert(forall|m: int| 0 <= m < denoms0.len() ==> self.denoms_by_creator@[m]
                            == denoms0[m]);
                    }
                }
            },
        }
        proof {
            assert(self@ =~= t.0);
            crate::decode::lemma_string_field_round_trip(1, d@);
        }
        let data = crate::decode::encode_string_field(1, d.as_str());
        Ok(data)
    }

    /// Replaces the admin of `denom` with `new_admin`; only the current
    /// admin may do so. The empty string is accepted and clears future
    /// authority; any other string must parse as a valid identity.
    pub fn change_admin(&mut self, sender: &str, denom: &str, new_admin: &str) -> (r: Result<
        (),
        TokenFactoryError,
    >)
        requires
            old(self).wf(),
        ensures
            final(self).wf(),
            ({
                let t = spec_change_admin(old(self)@, sender@, denom@, new_admin@);
                &&& final(self)@ == t.0
                &&& (match r {
                    Ok(()) => t.1 is Ok,
                    Err(e) => t.1 == Err::<(), ErrorView>(e@),
                })
            }),
    {
        proof {
            lemma_alist_contains(self.admins@, denom@);
        }
        let i = match alist_find(&self.admins, denom) {
            None => {
                return Err(TokenFactoryError::UnknownDenom);
            },
            Some(i) => i,
        };
        proof {
            lemma_alist_value(self.admins@, i as int);
        }
        if !str_eq(self.admins[i].1.as_str(), sender) {
            return Err(TokenFactoryError::NotAdmin);
        }
        if !new_admin.is_empty() && !addr_is_valid(new_admin) {
            return Err(TokenFactoryError::InvalidAddress);
        }
        let ghost admins0 = self.admins@;
        let key = self.admins[i].0.clone();
        self.admins.set(i, (key, new_admin.to_owned()));
        proof {
            lemma_alist_update(admins0, i as int, self.admins@[i as int]);
            assert(self@ =~= spec_change_admin(old(self)@, sender@, denom@, new_admin@).0);
            assert(forall|m: int| 0 <= m < self.metadata@.len() ==> alist_map(
                self.admins@,
            ).contains_key(#[trigger] self.metadata@[m].0@)) by {
                assert(alist_map(self.admins@) =~= alist_map(admins0).insert(
                    denom@,
                    new_admin@,
                ));
            }
        }
        Ok(())
    }

    /// Authorizes a mint: a credit instruction for the external ledger. The
    /// registry itself is left untouched.
    pub fn mint_tokens(&self, sender: &str, denom: &str, amount: u128, mint_to: &str) -> (r: Result<
        LedgerOp,
        TokenFactoryError,
    >)
        requires
            self.wf(),
        ensures
            (match r {
                Ok(op) => spec_mint(self@, sender@, denom@, amount, mint_to@) == Ok::<
                    _,
                    ErrorView,
                >(op@),
                Err(e) => spec_mint(self@, sender@, denom@, amount, mint_to@) == Err::<
                    LedgerOpView,
                    ErrorView,
                >(e@),
            }),
    {
        if amount == 0 {
            return Err(TokenFactoryError::ZeroAmount);
        }
        proof {
            lemma_alist_contains(self.admins@, denom@);
        }
        match alist_find(&self.admins, denom) {
            None => Err(TokenFactoryError::UnknownDenom),
            Some(i) => {
                proof {
                    lemma_alist_value(self.admins@, i as int);
                }
                if !str_eq(self.admins[i].1.as_str(), sender) {
                    Err(TokenFactoryError::NotAdmin)
                } else {
                    Ok(LedgerOp::Credit {
                        denom: denom.to_owned(),
                        amount,
                        to: mint_to.to_owned(),
                    })
                }
            },
        }
    }

    /// Authorizes a burn: a debit instruction for the external ledger. The
    /// caller-supplied burn-from identity is deliberately ignored — balances
    /// are debited from the admin itself, the current restriction on
    /// burning. The registry is left untouched.
    pub fn burn_tokens(&self, sender: &str, denom: &str, amount: u128, _burn_from: &str) -> (r:
        Result<LedgerOp, TokenFactoryError>)
        requires
            self.wf(),
        ensures
            (match r {
                Ok(op) => spec_burn(self@, sender@, denom@, amount) == Ok::<_, ErrorView>(op@),
                Err(e) => spec_burn(self@, sender@, denom@, amount) == Err::<
                    LedgerOpView,
                    ErrorView,
                >(e@),
            }),
    {
        if amount == 0 {
            return Err(TokenFactoryError::ZeroAmount);
        }
        proof {
            lemma_alist_contains(self.admins@, denom@);
        }
        match alist_find(&self.admins, denom) {
            None => Err(TokenFactoryError::UnknownDenom),
            Some(i) => {
                proof {
                    lemma_alist_value(self.admins@, i as int);
                }
                if !str_eq(self.admins[i].1.as_str(), sender) {
                    Err(TokenFactoryError::NotAdmin)
                } else {
                    Ok(LedgerOp::Debit { denom: denom.to_owned(), amount, from: sender.to_owned() })
                }
            },
        }
    }

    /// Authorizes a non-consensual balance move between two identities: a
    /// move instruction for the external ledger, reachable only by the
    /// admin. The registry is left untouched.
    pub fn force_transfer(
        &self,
        sender: &str,
        denom: &str,
        amount: u128,
        from: &str,
        to: &str,
    ) -> (r: Result<LedgerOp, TokenFactoryError>)
        requires
            self.wf(),
        ensures
            (match r {
                Ok(op) => spec_force_transfer(self@, sender@, denom@, amount, from@, to@) == Ok::<
                    _,
                    ErrorView,
                >(op@),
                Err(e) => spec_force_transfer(self@, sender@, denom@, amount, from@, to@) == Err::<
                    LedgerOpView,
                    ErrorView,
                >(e@),
            }),
    {
        if amount == 0 {
            return Err(TokenFactoryError::ZeroAmount);
        }
        proof {
            lemma_alist_contains(self.admins@, denom@);
        }
        match alist_find(&self.admins, denom) {
            None => Err(TokenFactoryError::UnknownDenom),
            Some(i) => {
                proof {
                    lemma_alist_value(self.admins@, i as int);
                }
                if !str_eq(self.admins[i].1.as_str(), sender) {
                    Err(TokenFactoryError::NotAdmin)
                } else {
                    Ok(LedgerOp::Move {
                        denom: denom.to_owned(),
                        amount,
                        from: from.to_owned(),
                        to: to.to_owned(),
                    })
                }
            },
        }
    }

    /// Fully replaces the metadata record of `denom`; only its admin may do
    /// so.
    pub fn set_metadata(&mut self, sender: &str, denom: &str, metadata: Metadata) -> (r: Result<
        (),
        TokenFactoryError,
    >)
        requires
            old(self).wf(),
        ensures
            final(self).wf(),
            ({
                let t = spec_set_metadata(old(self)@, sender@, denom@, metadata@);
                &&& final(self)@ == t.0
                &&& (match r {
                    Ok(()) => t.1 is Ok,
                    Err(e) => t.1 == Err::<(), ErrorView>(e@),
                })
            }),
    {
        proof {
            lemma_alist_contains(self.admins@, denom@);
        }
        let i = match alist_find(&self.admins, denom) {
            None => {
                return Err(TokenFactoryError::UnknownDenom);
            },
            Some(i) => i,
        };
        proof {
            lemma_alist_value(self.admins@, i as int);
        }
        if !str_eq(self.admins[i].1.as_str(), sender) {
            return Err(TokenFactoryError::NotAdmin);
        }
        let ghost metadata0 = self.metadata@;
        proof {
            lemma_alist_contains(self.metadata@, denom@);
        }
        match alist_find(&self.metadata, denom) {
            Some(j) => {
                let key = self.metadata[j].0.clone();
                self.metadata.set(j, (key, metadata));
                proof {
                    lemma_alist_update(metadata0, j as int, self.metadata@[j as int]);
                    assert(self@ =~= spec_set_metadata(old(self)@, sender@, denom@, metadata@).0);
                    assert(forall|m: int| 0 <= m < self.metadata@.len() ==> alist_map(
                        self.admins@,
                    ).contains_key(#[trigger] self.metadata@[m].0@)) by {
                        assert(forall|m: int|
                            0 <= m < metadata0.len() && m != j ==> self.metadata@[m]
                                == metadata0[m]);
                        assert(self.metadata@[j as int].0@ == denom@);
                        lemma_alist_contains(self.admins@, denom@);
                    }
                }
                Ok(())
            },
            None => {
                self.metadata.push((denom.to_owned(), metadata));
                proof {
                    lemma_alist_push(metadata0, self.metadata@.last());
                    assert(self@ =~= spec_set_metadata(old(self)@, sender@, denom@, metadata@).0);
                    assert(keys_unique(self.metadata@)) by {
                        assert(forall|m: int| 0 <= m < metadata0.len() ==> (#[trigger] metadata0[m]
                            .0@) != denom@);
                        assert(forall|m: int| 0 <= m < metadata0.len() ==> self.metadata@[m]
                            == metadata0[m]);
                    }
                    assert(forall|m: int| 0 <= m < self.metadata@.len() ==> alist_map(
                        self.admins@,
                    ).contains_key(#[trigger] self.metadata@[m].0@)) by {
                        assert(forall|m: int| 0 <= m < metadata0.len() ==> self.metadata@[m]
                            == metadata0[m]);
                        assert(self.metadata@.last().0@ == denom@);
                        lemma_alist_contains(self.admins@, denom@);
                    }
                }
                Ok(())
            },
        }
    }
}

/// What a successful command hands back: the reply payload of a creation,
/// and the instruction delegated to the external ledger, where the command
/// produces one.
#[derive(Debug)]
pub struct ExecResponse {
    pub data: Option<Vec<u8>>,
    pub ledger: Option<LedgerOp>,
}

impl TokenFactoryModule {
    /// Executes one command from `sender` against the registry. Each
    /// command follows its spec-level transition exactly; a failed command
    /// leaves the state unchanged and delegates nothing to the ledger.
    pub fn execute(&mut self, sender: &str, msg: TokenFactoryMsg) -> (r: Result<
        ExecResponse,
        TokenFactoryError,
    >)
        requires
            old(self).wf(),
        ensures
            final(self).wf(),
            (match msg {
                TokenFactoryMsg::Token(TokenMsg::CreateDenom { ref subdenom, ref metadata }) => {
                    let t = spec_create(old(self)@, sender@, subdenom@, metadata.deep_view());
                    &&& final(self)@ == t.0
                    &&& (match r {
                        Ok(resp) => t.1 is Ok && resp.ledger is None && (resp.data matches Some(
                            data,
                        ) && data@ == crate::decode::spec_encode_string_field(
                            1,
                            vstd::utf8::encode_utf8(t.1->Ok_0),
                        )),
                        Err(e) => t.1 == Err::<Seq<char>, ErrorView>(e@),
                    })
                },
                TokenFactoryMsg::Token(
                    TokenMsg::ChangeAdmin { ref denom, ref new_admin_address },
                ) => {
                    let t = spec_change_admin(old(self)@, sender@, denom@, new_admin_address@);
                    &&& final(self)@ == t.0
                    &&& (match r {
                        Ok(resp) => t.1 is Ok && resp.data is None && resp.ledger is None,
                        Err(e) => t.1 == Err::<(), ErrorView>(e@),
                    })
                },
                TokenFactoryMsg::Token(
                    TokenMsg::MintTokens { ref denom, amount, ref mint_to_address },
                ) => {
                    &&& final(self)@ == old(self)@
                    &&& (match r {
                        Ok(resp) => resp.data is None && (resp.ledger matches Some(op) && spec_mint(
                            old(self)@,
                            sender@,
                            denom@,
                            amount,
                            mint_to_address@,
                        ) == Ok::<_, ErrorView>(op@)),
                        Err(e) => spec_mint(old(self)@, sender@, denom@, amount, mint_to_address@)
                            == Err::<LedgerOpView, ErrorView>(e@),
                    })
                },
                TokenFactoryMsg::Token(TokenMsg::BurnTokens { ref denom, amount, .. }) => {
                    &&& final(self)@ == old(self)@
                    &&& (match r {
                        Ok(resp) => resp.data is None && (resp.ledger matches Some(op) && spec_burn(
                            old(self)@,
                            sender@,
                            denom@,
                            amount,
                        ) == Ok::<_, ErrorView>(op@)),
                        Err(e) => spec_burn(old(self)@, sender@, denom@, amount) == Err::<
                            LedgerOpView,
                            ErrorView,
                        >(e@),
                    })
                },
                TokenFactoryMsg::Token(
                    TokenMsg::ForceTransfer { ref denom, amount, ref from_address, ref to_address },
                ) => {
                    &&& final(self)@ == old(self)@
                    &&& (match r {
                        Ok(resp) => resp.data is None && (resp.ledger matches Some(op)
                            && spec_force_transfer(
                            old(self)@,
                            sender@,
                            denom@,
                            amount,
                            from_address@,
                            to_address@,
                        ) == Ok::<_, ErrorView>(op@)),
                        Err(e) => spec_force_transfer(
                            old(self)@,
                            sender@,
                            denom@,
                            amount,
                            from_address@,
                            to_address@,
                        ) == Err::<LedgerOpView, ErrorView>(e@),
                    })
                },
                TokenFactoryMsg::Token(TokenMsg::SetMetadata { ref denom, ref metadata }) => {
                    let t = spec_set_metadata(old(self)@, sender@, denom@, metadata@);
                    &&& final(self)@ == t.0
                    &&& (match r {
                        Ok(resp) => t.1 is Ok && resp.data is None && resp.ledger is None,
                        Err(e) => t.1 == Err::<(), ErrorView>(e@),
                    })
                },
            }),
    {
        let TokenFactoryMsg::Token(m) = msg;
        match m {
            TokenMsg::CreateDenom { subdenom, metadata } => {
                match self.create_denom(sender, subdenom.as_str(), metadata) {
                    Ok(data) => Ok(ExecResponse { data: Some(data), ledger: None }),
                    Err(e) => Err(e),
                }
            },
            TokenMsg::ChangeAdmin { denom, new_admin_address } => {
                match self.change_admin(sender, denom.as_str(), new_admin_address.as_str()) {
                    Ok(()) => Ok(ExecResponse { data: None, ledger: None }),
                    Err(e) => Err(e),
                }
            },
            TokenMsg::MintTokens { denom, amount, mint_to_address } => {
                match self.mint_tokens(sender, denom.as_str(), amount, mint_to_address.as_str()) {
                    Ok(op) => Ok(ExecResponse { data: None, ledger: Some(op) }),
                    Err(e) => Err(e),
                }
            },
            TokenMsg::BurnTokens { denom, amount, burn_from_address } => {
                match self.burn_tokens(sender, denom.as_str(), amount, burn_from_address.as_str()) {
                    Ok(op) => Ok(ExecResponse { data: None, ledger: Some(op) }),
                    Err(e) => Err(e),
                }
            },
            TokenMsg::ForceTransfer { denom, amount, from_address, to_address } => {
                match self.force_transfer(
                    sender,
                    denom.as_str(),
                    amount,
                    from_address.as_str(),
                    to_address.as_str(),
                ) {
                    Ok(op) => Ok(ExecResponse { data: None, ledger: Some(op) }),
                    Err(e) => Err(e),
                }
            },
            TokenMsg::SetMetadata { denom, metadata } => {
                match self.set_metadata(sender, denom.as_str(), metadata) {
                    Ok(()) => Ok(ExecResponse { data: None, ledger: None }),
                    Err(e) => Err(e),
                }
            },
        }
    }
}

/// Law: creating the same (creator, subdenom) pair a second time fails with
/// `DenomAlreadyExists`, whatever metadata either call carries.
pub proof fn lemma_create_twice_fails(
    v: RegistryView,
    sender: Seq<char>,
    subdenom: Seq<char>,
    md1: Option<MetadataView>,
    md2: Option<MetadataView>,
)
    requires
        spec_create(v, sender, subdenom, md1).1 is Ok,
    ensures
        spec_create(spec_create(v, sender, subdenom, md1).0, sender, subdenom, md2).1 == Err::<
            Seq<char>,
            ErrorView,
        >(ErrorView::DenomAlreadyExists),
{
}

/// Law: a mint of amount zero fails with `ZeroAmount` whatever the state,
/// the sender or the denom — in particular regardless of admin status — and
/// yields no ledger instruction.
pub proof fn lemma_mint_zero_amount(
    v: RegistryView,
    sender: Seq<char>,
    denom: Seq<char>,
    to: Seq<char>,
)
    ensures
        spec_mint(v, sender, denom, 0, to) == Err::<LedgerOpView, ErrorView>(
            ErrorView::ZeroAmount,
        ),
{
}

/// Law: on an existing denom, a sender other than the current admin cannot
/// change the admin, mint, burn, force-transfer or set metadata: each
/// operation fails with `NotAdmin`, leaves the state unchanged, and yields
/// no ledger instruction.
pub proof fn lemma_only_admin_mutates(
    v: RegistryView,
    sender: Seq<char>,
    denom: Seq<char>,
    amount: u128,
    new_admin: Seq<char>,
    from: Seq<char>,
    to: Seq<char>,
    md: MetadataView,
)
    requires
        v.admins.contains_key(denom),
        sender != v.admins[denom],
        amount != 0,
    ensures
        spec_change_admin(v, sender, denom, new_admin) == (
            v,
            Err::<(), ErrorView>(ErrorView::NotAdmin),
        ),
        spec_mint(v, sender, denom, amount, to) == Err::<LedgerOpView, ErrorView>(
            ErrorView::NotAdmin,
        ),
        spec_burn(v, sender, denom, amount) == Err::<LedgerOpView, ErrorView>(ErrorView::NotAdmin),
        spec_force_transfer(v, sender, denom, amount, from, to) == Err::<LedgerOpView, ErrorView>(
            ErrorView::NotAdmin,
        ),
        spec_set_metadata(v, sender, denom, md) == (v, Err::<(), ErrorView>(ErrorView::NotAdmin)),
{
}

} // verus!
