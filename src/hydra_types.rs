use vstd::prelude::*;

use crate::keyed::KeyedCollection;

verus! {

/// One named build input of a jobset.
#[derive(Clone, Debug)]
pub struct HydraJobsetInput {
    pub input_type: String,
    pub value: String,
    pub emailresponsible: bool,
}

impl HydraJobsetInput {
    /// A copy that holds the same text.
    pub fn duplicate(&self) -> (r: HydraJobsetInput)
        ensures
            r == *self,
    {
        HydraJobsetInput {
            input_type: self.input_type.clone(),
            value: self.value.clone(),
            emailresponsible: self.emailresponsible,
        }
    }
}

/// Build inputs under their names.
pub type JobInputCollection = KeyedCollection<HydraJobsetInput>;

/// A copy of a collection of build inputs with the same entries.
pub fn duplicate_inputs(c: &JobInputCollection) -> (r: JobInputCollection)
    requires
        c.wf(),
    ensures
        r.wf(),
        r@ == c@,
{
    let entries = c.entries();
    let n = entries.len();
    let mut r = KeyedCollection::new();
    let mut i: usize = 0;
    while i < n
        invariant
            n == c@.len(),
            entries@.len() == n,
            forall|j: int|
                0 <= j < n ==> (#[trigger] entries@[j]).0@ == c@[j].0 && entries@[j].1
                    == c@[j].1,
            c.wf(),
            r.wf(),
            i <= n,
            r@ == c@.subrange(0, i as int),
        decreases n - i,
    {
        proof {
            if i > 0 {
                assert(r@.last() == c@[i - 1]);
            }
        }
        r.push_last(entries[i].0.clone(), entries[i].1.duplicate());
        proof {
            assert(r@ =~= c@.subrange(0, i + 1));
        }
        i = i + 1;
    }
    proof {
        assert(c@.subrange(0, n as int) =~= c@);
    }
    r
}

/// A jobset that evaluates an expression file among named inputs.
#[derive(Clone, Debug)]
pub struct HydraJobsetLegacy {
    pub nixexprinput: String,
    pub nixexprpath: String,
    pub inputs: JobInputCollection,
}

/// A jobset that evaluates a flake at a URI.
#[derive(Clone, Debug)]
pub struct HydraJobsetFlake {
    pub flake_uri: String,
}

#[derive(Clone, Debug)]
pub enum HydraInputDefinition {
    Legacy(HydraJobsetLegacy),
    Flake(HydraJobsetFlake),
}

/// A jobset as held in memory, with its definition as one of two variants.
#[derive(Clone, Debug)]
pub struct HydraJobset {
    pub enabled: bool,
    pub hidden: bool,
    pub description: String,
    pub checkinterval: u64,
    pub schedulingshares: u64,
    pub enableemail: bool,
    pub emailoverride: String,
    pub keepnr: u64,
    pub definition: HydraInputDefinition,
}

/// A jobset in the shape of the scheduler's storage: the variant's fields
/// stand at the top level, and those of the other variant are left empty.
#[derive(Clone, Debug)]
pub struct FlattenedHydraJobset {
    pub enabled: bool,
    pub hidden: bool,
    pub description: String,
    pub checkinterval: u64,
    pub schedulingshares: u64,
    pub enableemail: bool,
    pub emailoverride: String,
    pub keepnr: u64,
    pub flake: String,
    pub nixexprinput: Option<String>,
    pub nixexprpath: Option<String>,
    pub inputs: JobInputCollection,
}

/// Flattened jobsets under their keys.
pub type HydraJobsets = KeyedCollection<FlattenedHydraJobset>;

/// Whether `f` is the flat form of `j`.
pub open spec fn flattened_from(j: HydraJobset, f: FlattenedHydraJobset) -> bool {
    &&& f.enabled == j.enabled
    &&& f.hidden == j.hidden
    &&& f.description == j.description
    &&& f.checkinterval == j.checkinterval
    &&& f.schedulingshares == j.schedulingshares
    &&& f.enableemail == j.enableemail
    &&& f.emailoverride == j.emailoverride
    &&& f.keepnr == j.keepnr
    &&& match j.definition {
        HydraInputDefinition::Flake(fl) => {
            &&& f.flake == fl.flake_uri
            &&& f.nixexprinput is None
            &&& f.nixexprpath is None
            &&& f.inputs.wf()
            &&& f.inputs@ == Seq::<(Seq<char>, HydraJobsetInput)>::empty()
        },
        HydraInputDefinition::Legacy(l) => {
            &&& f.flake@ == Seq::<char>::empty()
            &&& f.nixexprinput == Some(l.nixexprinput)
            &&& f.nixexprpath == Some(l.nixexprpath)
            &&& f.inputs == l.inputs
        },
    }
}

impl FlattenedHydraJobset {
    /// The flake field is set and the fields of a legacy definition are left out.
    pub open spec fn has_flake_shape(&self) -> bool {
        &&& self.flake@.len() > 0
        &&& self.nixexprinput is None
        &&& self.nixexprpath is None
        &&& self.inputs@.len() == 0
    }

    /// The fields of a legacy definition are set, with at least one input, and
    /// the flake field is empty.
    pub open spec fn has_legacy_shape(&self) -> bool {
        &&& self.flake@.len() == 0
        &&& self.nixexprinput is Some
        &&& self.nixexprpath is Some
        &&& self.inputs@.len() > 0
    }
}

impl HydraJobset {
    pub fn flatten(self) -> (r: FlattenedHydraJobset)
        ensures
            flattened_from(self, r),
    {
        let mut job = FlattenedHydraJobset {
            enabled: self.enabled,
            hidden: self.hidden,
            description: self.description,
            checkinterval: self.checkinterval,
            schedulingshares: self.schedulingshares,
            enableemail: self.enableemail,
            emailoverride: self.emailoverride,
            keepnr: self.keepnr,
            flake: String::new(),
            inputs: KeyedCollection::new(),
            nixexprinput: None,
            nixexprpath: None,
        };
        match self.definition {
            HydraInputDefinition::Flake(flake) => {
                job.flake = flake.flake_uri;
            },
            HydraInputDefinition::Legacy(legacy) => {
                job.inputs = legacy.inputs;
                job.nixexprinput = Some(legacy.nixexprinput);
                job.nixexprpath = Some(legacy.nixexprpath);
            },
        }
        job
    }
}

} // verus!
