//! Descriptive metadata attached to a denom.

use vstd::prelude::*;

verus! {

/// One named unit of a denom: a unit name, the power-of-ten exponent that
/// relates it to the base unit, and its aliases.
#[derive(Debug)]
pub struct DenomUnit {
    pub denom: String,
    pub exponent: u32,
    pub aliases: Vec<String>,
}

/// Descriptive record of a denom: absent until set, fully replaced on each
/// update.
#[derive(Debug)]
pub struct Metadata {
    pub description: Option<String>,
    pub denom_units: Vec<DenomUnit>,
    pub base: Option<String>,
    pub display: Option<String>,
    pub name: Option<String>,
    pub symbol: Option<String>,
}

/// Mathematical image of a `DenomUnit`.
pub struct DenomUnitView {
    pub denom: Seq<char>,
    pub exponent: u32,
    pub aliases: Seq<Seq<char>>,
}

/// Mathematical image of a `Metadata` record.
pub struct MetadataView {
    pub description: Option<Seq<char>>,
    pub denom_units: Seq<DenomUnitView>,
    pub base: Option<Seq<char>>,
    pub display: Option<Seq<char>>,
    pub name: Option<Seq<char>>,
    pub symbol: Option<Seq<char>>,
}

/// The view of an optional string: the characters, if present.
pub open spec fn opt_str_view(s: Option<String>) -> Option<Seq<char>> {
    match s {
        Some(v) => Some(v@),
        None => None,
    }
}

impl View for DenomUnit {
    type V = DenomUnitView;

    open spec fn view(&self) -> DenomUnitView {
        DenomUnitView {
            denom: self.denom@,
            exponent: self.exponent,
            aliases: self.aliases.deep_view(),
        }
    }
}

impl DeepView for DenomUnit {
    type V = DenomUnitView;

    open spec fn deep_view(&self) -> DenomUnitView {
        self.view()
    }
}

impl View for Metadata {
    type V = MetadataView;

    open spec fn view(&self) -> MetadataView {
        MetadataView {
            description: opt_str_view(self.description),
            denom_units: self.denom_units.deep_view(),
            base: opt_str_view(self.base),
            display: opt_str_view(self.display),
            name: opt_str_view(self.name),
            symbol: opt_str_view(self.symbol),
        }
    }
}

impl DeepView for Metadata {
    type V = MetadataView;

    open spec fn deep_view(&self) -> MetadataView {
        self.view()
    }
}

/// Copies a vector of strings; the copy holds the same strings.
pub fn clone_string_vec(v: &Vec<String>) -> (r: Vec<String>)
    ensures
        r@ == v@,
{
    let mut r: Vec<String> = Vec::new();
    let mut i: usize = 0;
    while i < v.len()
        invariant
            i <= v@.len(),
            r@ == v@.subrange(0, i as int),
        decreases v@.len() - i,
    {
        r.push(v[i].clone());
        proof {
            assert(r@ =~= v@.subrange(0, i + 1));
        }
        i = i + 1;
    }
    proof {
        assert(v@.subrange(0, v@.len() as int) =~= v@);
    }
    r
}

fn clone_opt_string(s: &Option<String>) -> (r: Option<String>)
    ensures
        opt_str_view(r) == opt_str_view(*s),
{
    match s {
        Some(v) => Some(v.clone()),
        None => None,
    }
}

impl Clone for DenomUnit {
    /// The copy has the same view as the original.
    fn clone(&self) -> (r: Self)
        ensures
            r@ == self@,
    {
        DenomUnit {
            denom: self.denom.clone(),
            exponent: self.exponent,
            aliases: clone_string_vec(&self.aliases),
        }
    }
}

impl Clone for Metadata {
    /// The copy has the same view as the original.
    fn clone(&self) -> (r: Self)
        ensures
            r@ == self@,
    {
        let mut units: Vec<DenomUnit> = Vec::new();
        let mut i: usize = 0;
        while i < self.denom_units.len()
            invariant
                i <= self.denom_units@.len(),
                units@.len() == i,
                forall|j: int| 0 <= j < i ==> units@[j]@ == self.denom_units@[j]@,
            decreases self.denom_units@.len() - i,
        {
            units.push(self.denom_units[i].clone());
            i = i + 1;
        }
        proof {
            assert(units.deep_view() =~= self.denom_units.deep_view());
        }
        Metadata {
            description: clone_opt_string(&self.description),
            denom_units: units,
            base: clone_opt_string(&self.base),
            display: clone_opt_string(&self.display),
            name: clone_opt_string(&self.name),
            symbol: clone_opt_string(&self.symbol),
        }
    }
}

} // verus!
