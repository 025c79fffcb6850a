use vstd::prelude::*;

verus! {

/// One supertype of the target grammar and its concrete subtype names,
/// already flattened and deduplicated at construction.
pub struct Supertype {
    pub name: String,
    pub subtypes: Vec<String>,
}

pub struct SupertypeV {
    pub name: Seq<char>,
    pub subtypes: Seq<Seq<char>>,
}

impl View for Supertype {
    type V = SupertypeV;

    open spec fn view(&self) -> SupertypeV {
        SupertypeV { name: self.name@, subtypes: self.subtypes@.map_values(|s: String| s@) }
    }
}

/// Per-target-language grammar metadata: the node kinds the grammar can
/// produce, the field names usable in node patterns, and the supertype
/// relation. Immutable after construction; rebuilt wholesale when the
/// underlying grammar changes.
pub struct GrammarEntry {
    pub node_kinds: Vec<String>,
    pub field_names: Vec<String>,
    pub supertypes: Vec<Supertype>,
}

pub struct GrammarEntryV {
    pub node_kinds: Seq<Seq<char>>,
    pub field_names: Seq<Seq<char>>,
    pub supertypes: Seq<SupertypeV>,
}

impl View for GrammarEntry {
    type V = GrammarEntryV;

    open spec fn view(&self) -> GrammarEntryV {
        GrammarEntryV {
            node_kinds: self.node_kinds@.map_values(|s: String| s@),
            field_names: self.field_names@.map_values(|s: String| s@),
            supertypes: self.supertypes@.map_values(|s: Supertype| s@),
        }
    }
}

/// The supertype entry under `name`: the first entry with that name, if any.
pub open spec fn spec_lookup_supertype(
    supertypes: Seq<SupertypeV>,
    name: Seq<char>,
) -> Option<SupertypeV>
    decreases supertypes.len(),
{
    if supertypes.len() == 0 {
        None
    } else if supertypes[0].name == name {
        Some(supertypes[0])
    } else {
        spec_lookup_supertype(supertypes.skip(1), name)
    }
}

pub proof fn lemma_lookup_supertype_prefix(supertypes: Seq<SupertypeV>, name: Seq<char>, i: int)
    requires
        0 <= i <= supertypes.len(),
        forall|j: int| 0 <= j < i ==> #[trigger] supertypes[j].name != name,
    ensures
        spec_lookup_supertype(supertypes, name) == spec_lookup_supertype(
            supertypes.skip(i),
            name,
        ),
    decreases i,
{
    if i == 0 {
        assert(supertypes.skip(0) =~= supertypes);
    } else {
        assert forall|j: int| 0 <= j < i - 1 implies #[trigger] supertypes.skip(1)[j].name
            != name by {
            assert(supertypes.skip(1)[j] == supertypes[j + 1]);
        }
        lemma_lookup_supertype_prefix(supertypes.skip(1), name, i - 1);
        assert(supertypes.skip(1).skip(i - 1) =~= supertypes.skip(i));
    }
}

/// The flattened subtype set of `name`, or the empty set where `name` is
/// not a registered supertype.
pub open spec fn spec_subtypes_of(g: GrammarEntryV, name: Seq<char>) -> Seq<Seq<char>> {
    match spec_lookup_supertype(g.supertypes, name) {
        None => Seq::empty(),
        Some(s) => s.subtypes,
    }
}

/// Whether `name` names a registered supertype of `g`.
pub open spec fn spec_is_supertype(g: GrammarEntryV, name: Seq<char>) -> bool {
    spec_lookup_supertype(g.supertypes, name) is Some
}

/// Membership of `name` in a name list.
pub fn contains_name(names: &Vec<String>, name: &String) -> (r: bool)
    ensures
        r == names@.map_values(|s: String| s@).contains(name@),
{
    let ghost nv = names@.map_values(|s: String| s@);
    let mut i: usize = 0;
    while i < names.len()
        invariant
            0 <= i <= names.len(),
            nv == names@.map_values(|s: String| s@),
            forall|j: int| 0 <= j < i ==> nv[j] != name@,
        decreases names.len() - i,
    {
        if names[i] == *name {
            assert(nv[i as int] == name@);
            return true;
        }
        assert(nv[i as int] != name@);
        i = i + 1;
    }
    assert(forall|j: int| 0 <= j < nv.len() ==> nv[j] != name@);
    false
}

impl GrammarEntry {
    /// Whether `name` is a node kind the target grammar can produce.
    pub fn has_node_kind(&self, name: &String) -> (r: bool)
        ensures
            r == self@.node_kinds.contains(name@),
    {
        contains_name(&self.node_kinds, name)
    }

    /// Whether `name` is a field name of the target grammar.
    pub fn has_field(&self, name: &String) -> (r: bool)
        ensures
            r == self@.field_names.contains(name@),
    {
        contains_name(&self.field_names, name)
    }

    /// The supertype entry under `name`, if any.
    pub fn lookup_supertype<'a>(&'a self, name: &String) -> (r: Option<&'a Supertype>)
        ensures
            match r {
                Some(s) => spec_lookup_supertype(self@.supertypes, name@) == Some(s@),
                None => spec_lookup_supertype(self@.supertypes, name@) is None,
            },
    {
        let ghost sv = self@.supertypes;
        let mut i: usize = 0;
        while i < self.supertypes.len()
            invariant
                0 <= i <= self.supertypes.len(),
                sv == self.supertypes@.map_values(|s: Supertype| s@),
                forall|j: int| 0 <= j < i ==> #[trigger] sv[j].name != name@,
            decreases self.supertypes.len() - i,
        {
            if self.supertypes[i].name == *name {
                proof {
                    lemma_lookup_supertype_prefix(sv, name@, i as int);
                    assert(sv.skip(i as int)[0] == sv[i as int]);
                }
                return Some(&self.supertypes[i]);
            }
            assert(sv[i as int].name != name@);
            i = i + 1;
        }
        proof {
            lemma_lookup_supertype_prefix(sv, name@, sv.len() as int);
            assert(sv.skip(sv.len() as int).len() == 0);
        }
        None
    }

    /// Whether `name` names a registered supertype.
    pub fn is_supertype(&self, name: &String) -> (r: bool)
        ensures
            r == spec_is_supertype(self@, name@),
    {
        match self.lookup_supertype(name) {
            Some(_) => true,
            None => false,
        }
    }

    /// The subtype names of supertype `name`; `None` where `name` is not
    /// a registered supertype (its subtype set is empty).
    pub fn subtypes_of<'a>(&'a self, name: &String) -> (r: Option<&'a Vec<String>>)
        ensures
            match r {
                Some(v) => spec_subtypes_of(self@, name@) == v@.map_values(|s: String| s@)
                    && spec_is_supertype(self@, name@),
                None => spec_subtypes_of(self@, name@) == Seq::<Seq<char>>::empty()
                    && !spec_is_supertype(self@, name@),
            },
    {
        match self.lookup_supertype(name) {
            Some(s) => Some(&s.subtypes),
            None => None,
        }
    }
}

} // verus!
