//! The descriptor of a generation: what it boots from and with.

use vstd::prelude::*;
use vstd::string::*;
use crate::text::{owned, same_text};

verus! {

/// The schema version of the current descriptor.
pub const SCHEMA_VERSION: u32 = 1;

/// The file name under which a generation keeps its descriptor.
pub open spec fn json_filename_spec() -> Seq<char> {
    "boot.v1.json"@
}

/// The file name under which a generation keeps its descriptor.
pub fn json_filename() -> (r: String)
    ensures
        r@ == json_filename_spec(),
{
    owned("boot.v1.json")
}

/// The name of a specialisation.
#[derive(Debug, Default, PartialEq, Eq, Hash)]
pub struct SpecialisationName(pub String);

impl View for SpecialisationName {
    type V = Seq<char>;

    open spec fn view(&self) -> Seq<char> {
        self.0@
    }
}

impl DeepView for SpecialisationName {
    type V = Seq<char>;

    open spec fn deep_view(&self) -> Seq<char> {
        self.0@
    }
}

impl Clone for SpecialisationName {
    fn clone(&self) -> (r: Self)
        ensures
            r@ == self@,
    {
        SpecialisationName(self.0.clone())
    }
}

/// The root directory of a system configuration.
#[derive(Debug, Default, PartialEq, Eq)]
pub struct SystemConfigurationRoot(pub String);

impl View for SystemConfigurationRoot {
    type V = Seq<char>;

    open spec fn view(&self) -> Seq<char> {
        self.0@
    }
}

impl DeepView for SystemConfigurationRoot {
    type V = Seq<char>;

    open spec fn deep_view(&self) -> Seq<char> {
        self.0@
    }
}

impl Clone for SystemConfigurationRoot {
    fn clone(&self) -> (r: Self)
        ensures
            r@ == self@,
    {
        SystemConfigurationRoot(self.0.clone())
    }
}

/// The path to a descriptor file.
#[derive(Debug, Default, PartialEq, Eq)]
pub struct BootSpecPath(pub String);

impl View for BootSpecPath {
    type V = Seq<char>;

    open spec fn view(&self) -> Seq<char> {
        self.0@
    }
}

impl DeepView for BootSpecPath {
    type V = Seq<char>;

    open spec fn deep_view(&self) -> Seq<char> {
        self.0@
    }
}

impl Clone for BootSpecPath {
    fn clone(&self) -> (r: Self)
        ensures
            r@ == self@,
    {
        BootSpecPath(self.0.clone())
    }
}

/// What is needed to consume a specialisation: where its descriptor lies.
#[derive(Debug, Default, PartialEq, Eq)]
pub struct SpecialisationDescription {
    /// The path to the specialisation's descriptor.
    pub bootspec: BootSpecPath,
}

impl View for SpecialisationDescription {
    type V = Seq<char>;

    open spec fn view(&self) -> Seq<char> {
        self.bootspec@
    }
}

impl DeepView for SpecialisationDescription {
    type V = Seq<char>;

    open spec fn deep_view(&self) -> Seq<char> {
        self.bootspec@
    }
}

impl Clone for SpecialisationDescription {
    fn clone(&self) -> (r: Self)
        ensures
            r@ == self@,
    {
        SpecialisationDescription { bootspec: self.bootspec.clone() }
    }
}

/// The specialisations of a generation: each name with where its
/// descriptor lies. No name occurs twice.
#[derive(Debug, Default, PartialEq, Eq)]
pub struct Specialisations {
    entries: Vec<(SpecialisationName, SpecialisationDescription)>,
}

impl View for Specialisations {
    type V = Seq<(Seq<char>, Seq<char>)>;

    closed spec fn view(&self) -> Seq<(Seq<char>, Seq<char>)> {
        self.entries.deep_view()
    }
}

impl DeepView for Specialisations {
    type V = Seq<(Seq<char>, Seq<char>)>;

    open spec fn deep_view(&self) -> Seq<(Seq<char>, Seq<char>)> {
        self@
    }
}

/// Whether no name occurs twice among `entries`.
pub open spec fn distinct_names(entries: Seq<(Seq<char>, Seq<char>)>) -> bool {
    forall|i: int, j: int|
        0 <= i < j < entries.len() ==> (#[trigger] entries[i]).0 != (#[trigger] entries[j]).0
}

/// The position of `name` among `entries`.
pub open spec fn position_of(entries: Seq<(Seq<char>, Seq<char>)>, name: Seq<char>) -> Option<int>
    decreases entries.len(),
{
    if entries.len() == 0 {
        None
    } else if entries.last().0 == name {
        Some(entries.len() - 1)
    } else {
        position_of(entries.drop_last(), name)
    }
}

/// What `entries` hold once `name` stands for `path`: the entry of that
/// name is replaced where there is one, else a new one is added at the end.
pub open spec fn with_entry(
    entries: Seq<(Seq<char>, Seq<char>)>,
    name: Seq<char>,
    path: Seq<char>,
) -> Seq<(Seq<char>, Seq<char>)> {
    match position_of(entries, name) {
        Some(i) => entries.update(i, (name, path)),
        None => entries.push((name, path)),
    }
}

proof fn lemma_position_of(entries: Seq<(Seq<char>, Seq<char>)>, name: Seq<char>)
    ensures
        match position_of(entries, name) {
            Some(i) => 0 <= i < entries.len() && entries[i].0 == name,
            None => forall|i: int| 0 <= i < entries.len() ==> (#[trigger] entries[i]).0 != name,
        },
    decreases entries.len(),
{
    if entries.len() > 0 && entries.last().0 != name {
        lemma_position_of(entries.drop_last(), name);
        if position_of(entries, name) is None {
            assert forall|i: int| 0 <= i < entries.len() implies (#[trigger] entries[i]).0
                != name by {
                if i < entries.len() - 1 {
                    assert(entries.drop_last()[i] == entries[i]);
                }
            }
        }
    }
}

impl Specialisations {
    #[verifier::type_invariant]
    spec fn names_are_distinct(&self) -> bool {
        distinct_names(self.entries.deep_view())
    }

    /// No specialisations.
    pub fn new() -> (r: Self)
        ensures
            r@ == Seq::<(Seq<char>, Seq<char>)>::empty(),
    {
        let r = Specialisations { entries: Vec::new() };
        assert(r@ =~= Seq::<(Seq<char>, Seq<char>)>::empty());
        r
    }

    /// The number of specialisations. No name occurs twice among them.
    pub fn len(&self) -> (n: usize)
        ensures
            n == self@.len(),
            distinct_names(self@),
    {
        proof {
            use_type_invariant(self);
        }
        self.entries.len()
    }

    /// The name of the specialisation at position `i`.
    pub fn name_at(&self, i: usize) -> (r: &SpecialisationName)
        requires
            i < self@.len(),
        ensures
            r@ == self@[i as int].0,
    {
        &self.entries[i].0
    }

    /// The description of the specialisation at position `i`.
    pub fn description_at(&self, i: usize) -> (r: &SpecialisationDescription)
        requires
            i < self@.len(),
        ensures
            r@ == self@[i as int].1,
    {
        &self.entries[i].1
    }

    /// Lets `name` stand for `description`, whatever it stood for before.
    pub fn insert(&mut self, name: SpecialisationName, description: SpecialisationDescription)
        ensures
            final(self)@ == with_entry(old(self)@, name@, description@),
    {
        let ghost before = self@;
        let ghost pair = (name@, description@);
        proof {
            use_type_invariant(&*self);
            lemma_position_of(before, name@);
        }
        let mut entries: Vec<(SpecialisationName, SpecialisationDescription)> = Vec::new();
        let mut found = false;
        let mut i: usize = 0;
        assert(before.take(0) =~= Seq::<(Seq<char>, Seq<char>)>::empty());
        while i < self.entries.len()
            invariant
                i <= self.entries.len(),
                self@ == before,
                pair == (name@, description@),
                distinct_names(before),
                entries.deep_view().len() == i,
                !found ==> position_of(before.take(i as int), pair.0) is None
                    && entries.deep_view() == before.take(i as int),
                found ==> position_of(before, pair.0) is Some && 0 <= position_of(
                    before,
                    pair.0,
                )->0 < i && entries.deep_view() == before.take(i as int).update(
                    position_of(before, pair.0)->0,
                    pair,
                ),
            decreases self.entries.len() - i,
        {
            let ghost sofar = entries.deep_view();
            let ghost upto = before.take(i as int + 1);
            proof {
                assert(upto.last() == before[i as int]);
                assert(upto.drop_last() =~= before.take(i as int));
            }
            if same_text(self.entries[i].0.0.as_str(), name.0.as_str()) {
                proof {
                    assert(position_of(upto, pair.0) == Some(i as int));
                    lemma_position_is_unique(before, pair.0, i as int);
                }
                entries.push((name.clone(), description.clone()));
                found = true;
                assert(entries.deep_view() =~= upto.update(i as int, pair));
            } else {
                let kept = (self.entries[i].0.clone(), self.entries[i].1.clone());
                entries.push(kept);
                assert(entries.deep_view() =~= sofar.push(before[i as int]));
                proof {
                    if found {
                        assert(entries.deep_view() =~= upto.update(
                            position_of(before, pair.0)->0,
                            pair,
                        ));
                    } else {
                        assert(entries.deep_view() =~= upto);
                    }
                }
            }
            i += 1;
        }
        assert(before.take(self.entries.len() as int) =~= before);
        if !found {
            entries.push((name, description));
            assert(entries.deep_view() =~= before.push(pair));
        }
        proof {
            lemma_with_entry_is_distinct(before, pair.0, pair.1);
        }
        self.entries = entries;
    }
}

proof fn lemma_position_is_unique(entries: Seq<(Seq<char>, Seq<char>)>, name: Seq<char>, i: int)
    requires
        distinct_names(entries),
        0 <= i < entries.len(),
        entries[i].0 == name,
    ensures
        position_of(entries, name) == Some(i),
{
    lemma_position_of(entries, name);
    let p = position_of(entries, name)->0;
    if p < i {
        assert(entries[p].0 != entries[i].0);
    } else if i < p {
        assert(entries[i].0 != entries[p].0);
    }
}

proof fn lemma_with_entry_is_distinct(
    entries: Seq<(Seq<char>, Seq<char>)>,
    name: Seq<char>,
    path: Seq<char>,
)
    requires
        distinct_names(entries),
    ensures
        distinct_names(with_entry(entries, name, path)),
{
    lemma_position_of(entries, name);
    let out = with_entry(entries, name, path);
    assert forall|a: int, b: int| 0 <= a < b < out.len() implies (#[trigger] out[a]).0 != (
    #[trigger] out[b]).0 by {
        match position_of(entries, name) {
            Some(i) => {
                assert(entries[a].0 != entries[b].0);
            },
            None => {
                if b < entries.len() {
                    assert(entries[a].0 != entries[b].0);
                } else {
                    assert(entries[a].0 != name);
                }
            },
        }
    }
}

/// The descriptor of a generation, in its first schema.
#[derive(Debug, Default, PartialEq, Eq)]
pub struct BootJsonV1 {
    /// The version of the schema.
    pub schema_version: u32,
    /// The label of the system closure.
    pub label: String,
    /// The path to the kernel.
    pub kernel: String,
    /// The kernel parameters, in order.
    pub kernel_params: Vec<String>,
    /// The path to the init script.
    pub init: String,
    /// The path to the initrd.
    pub initrd: String,
    /// The path to the script that appends secrets to the initrd.
    pub initrd_secrets: Option<String>,
    /// The specialisations, each with where its descriptor lies.
    pub specialisation: Specialisations,
    /// The toplevel of the system.
    pub toplevel: SystemConfigurationRoot,
}

/// The current descriptor.
pub type BootJson = BootJsonV1;

/// The mathematical value of a [`BootJsonV1`].
pub struct BootJsonView {
    pub schema_version: u32,
    pub label: Seq<char>,
    pub kernel: Seq<char>,
    pub kernel_params: Seq<Seq<char>>,
    pub init: Seq<char>,
    pub initrd: Seq<char>,
    pub initrd_secrets: Option<Seq<char>>,
    pub specialisation: Seq<(Seq<char>, Seq<char>)>,
    pub toplevel: Seq<char>,
}

impl View for BootJsonV1 {
    type V = BootJsonView;

    open spec fn view(&self) -> BootJsonView {
        BootJsonView {
            schema_version: self.schema_version,
            label: self.label@,
            kernel: self.kernel@,
            kernel_params: self.kernel_params.deep_view(),
            init: self.init@,
            initrd: self.initrd@,
            initrd_secrets: self.initrd_secrets.deep_view(),
            specialisation: self.specialisation@,
            toplevel: self.toplevel@,
        }
    }
}

impl DeepView for BootJsonV1 {
    type V = BootJsonView;

    open spec fn deep_view(&self) -> BootJsonView {
        self@
    }
}

/// One phase of a measured boot, with the keys that sign its policy.
#[derive(Debug, PartialEq, Eq)]
pub struct PcrPhase {
    pub phase_path: String,
    pub banks: Vec<String>,
    pub private_key_file: String,
    pub public_key_file: String,
}

} // verus!
