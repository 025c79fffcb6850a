use vstd::prelude::*;

verus! {

/// Type tag of one predicate or directive parameter.
#[derive(Clone, Copy, Debug, PartialEq, Eq, Structural)]
pub enum TypeTag {
    Capture,
    Str,
    Num,
}

/// How many arguments one parameter position consumes.
#[derive(Clone, Copy, Debug, PartialEq, Eq, Structural)]
pub enum Arity {
    One,
    ZeroOrMore,
}

/// One parameter of a predicate or directive signature.
pub struct ParamSpec {
    pub type_tag: TypeTag,
    pub arity: Arity,
    pub description: Option<String>,
}

pub struct ParamSpecV {
    pub type_tag: TypeTag,
    pub arity: Arity,
    pub description: Option<Seq<char>>,
}

impl View for ParamSpec {
    type V = ParamSpecV;

    open spec fn view(&self) -> ParamSpecV {
        ParamSpecV {
            type_tag: self.type_tag,
            arity: self.arity,
            description: match self.description {
                Some(d) => Some(d@),
                None => None,
            },
        }
    }
}

/// A predicate or directive definition: its name, a human-readable
/// description, and the ordered parameter signature.
pub struct Definition {
    pub name: String,
    pub description: String,
    pub parameters: Vec<ParamSpec>,
}

pub struct DefinitionV {
    pub name: Seq<char>,
    pub description: Seq<char>,
    pub parameters: Seq<ParamSpecV>,
}

impl View for Definition {
    type V = DefinitionV;

    open spec fn view(&self) -> DefinitionV {
        DefinitionV {
            name: self.name@,
            description: self.description@,
            parameters: self.parameters@.map_values(|p: ParamSpec| p@),
        }
    }
}

/// Description of one capture name within a context group.
pub struct CaptureDesc {
    pub name: String,
    pub description: String,
}

pub struct CaptureDescV {
    pub name: Seq<char>,
    pub description: Seq<char>,
}

impl View for CaptureDesc {
    type V = CaptureDescV;

    open spec fn view(&self) -> CaptureDescV {
        CaptureDescV { name: self.name@, description: self.description@ }
    }
}

/// Capture descriptions grouped under one context key (typically the
/// query file's basename).
pub struct CaptureGroup {
    pub context: String,
    pub captures: Vec<CaptureDesc>,
}

pub struct CaptureGroupV {
    pub context: Seq<char>,
    pub captures: Seq<CaptureDescV>,
}

impl View for CaptureGroup {
    type V = CaptureGroupV;

    open spec fn view(&self) -> CaptureGroupV {
        CaptureGroupV {
            context: self.context@,
            captures: self.captures@.map_values(|c: CaptureDesc| c@),
        }
    }
}

/// The hot-reloadable registry of valid predicate names, directive names
/// and capture descriptions. An immutable value: a reload builds a new
/// registry and installs it wholesale.
pub struct ValidatorRegistry {
    pub predicates: Vec<Definition>,
    pub directives: Vec<Definition>,
    pub captures: Vec<CaptureGroup>,
}

pub struct ValidatorRegistryV {
    pub predicates: Seq<DefinitionV>,
    pub directives: Seq<DefinitionV>,
    pub captures: Seq<CaptureGroupV>,
}

impl View for ValidatorRegistry {
    type V = ValidatorRegistryV;

    open spec fn view(&self) -> ValidatorRegistryV {
        ValidatorRegistryV {
            predicates: self.predicates@.map_values(|d: Definition| d@),
            directives: self.directives@.map_values(|d: Definition| d@),
            captures: self.captures@.map_values(|g: CaptureGroup| g@),
        }
    }
}

/// The definition under `name`: the first entry with that name, if any.
pub open spec fn spec_lookup_def(defs: Seq<DefinitionV>, name: Seq<char>) -> Option<DefinitionV>
    decreases defs.len(),
{
    if defs.len() == 0 {
        None
    } else if defs[0].name == name {
        Some(defs[0])
    } else {
        spec_lookup_def(defs.skip(1), name)
    }
}

/// Skipping a prefix of definitions whose names all differ from `name`
/// leaves the lookup result unchanged.
pub proof fn lemma_lookup_def_prefix(defs: Seq<DefinitionV>, name: Seq<char>, i: int)
    requires
        0 <= i <= defs.len(),
        forall|j: int| 0 <= j < i ==> #[trigger] defs[j].name != name,
    ensures
        spec_lookup_def(defs, name) == spec_lookup_def(defs.skip(i), name),
    decreases i,
{
    if i == 0 {
        assert(defs.skip(0) =~= defs);
    } else {
        assert(defs[0].name != name);
        assert(spec_lookup_def(defs, name) == spec_lookup_def(defs.skip(1), name));
        assert forall|j: int| 0 <= j < i - 1 implies #[trigger] defs.skip(1)[j].name != name by {
            assert(defs.skip(1)[j] == defs[j + 1]);
        }
        lemma_lookup_def_prefix(defs.skip(1), name, i - 1);
        assert(defs.skip(1).skip(i - 1) =~= defs.skip(i));
        assert(spec_lookup_def(defs.skip(1).skip(i - 1), name) == spec_lookup_def(
            defs.skip(i),
            name,
        ));
    }
}

/// The capture group under `context`: the first entry with that key, if any.
pub open spec fn spec_lookup_group(
    groups: Seq<CaptureGroupV>,
    context: Seq<char>,
) -> Option<CaptureGroupV>
    decreases groups.len(),
{
    if groups.len() == 0 {
        None
    } else if groups[0].context == context {
        Some(groups[0])
    } else {
        spec_lookup_group(groups.skip(1), context)
    }
}

pub proof fn lemma_lookup_group_prefix(groups: Seq<CaptureGroupV>, context: Seq<char>, i: int)
    requires
        0 <= i <= groups.len(),
        forall|j: int| 0 <= j < i ==> #[trigger] groups[j].context != context,
    ensures
        spec_lookup_group(groups, context) == spec_lookup_group(groups.skip(i), context),
    decreases i,
{
    if i == 0 {
        assert(groups.skip(0) =~= groups);
    } else {
        assert forall|j: int| 0 <= j < i - 1 implies #[trigger] groups.skip(1)[j].context
            != context by {
            assert(groups.skip(1)[j] == groups[j + 1]);
        }
        lemma_lookup_group_prefix(groups.skip(1), context, i - 1);
        assert(groups.skip(1).skip(i - 1) =~= groups.skip(i));
    }
}

/// The first capture description with the given name, if any.
pub open spec fn spec_lookup_capture(
    captures: Seq<CaptureDescV>,
    name: Seq<char>,
) -> Option<CaptureDescV>
    decreases captures.len(),
{
    if captures.len() == 0 {
        None
    } else if captures[0].name == name {
        Some(captures[0])
    } else {
        spec_lookup_capture(captures.skip(1), name)
    }
}

pub proof fn lemma_lookup_capture_prefix(captures: Seq<CaptureDescV>, name: Seq<char>, i: int)
    requires
        0 <= i <= captures.len(),
        forall|j: int| 0 <= j < i ==> #[trigger] captures[j].name != name,
    ensures
        spec_lookup_capture(captures, name) == spec_lookup_capture(captures.skip(i), name),
    decreases i,
{
    if i == 0 {
        assert(captures.skip(0) =~= captures);
    } else {
        assert forall|j: int| 0 <= j < i - 1 implies #[trigger] captures.skip(1)[j].name
            != name by {
            assert(captures.skip(1)[j] == captures[j + 1]);
        }
        lemma_lookup_capture_prefix(captures.skip(1), name, i - 1);
        assert(captures.skip(1).skip(i - 1) =~= captures.skip(i));
    }
}

/// The description of capture `name` in group `context`, if any.
pub open spec fn spec_capture_description(
    groups: Seq<CaptureGroupV>,
    context: Seq<char>,
    name: Seq<char>,
) -> Option<Seq<char>> {
    match spec_lookup_group(groups, context) {
        None => None,
        Some(g) => match spec_lookup_capture(g.captures, name) {
            None => None,
            Some(c) => Some(c.description),
        },
    }
}

/// Linear search for the first definition whose name equals `name`.
pub fn lookup_def<'a>(defs: &'a Vec<Definition>, name: &String) -> (r: Option<&'a Definition>)
    ensures
        match r {
            Some(d) => spec_lookup_def(defs@.map_values(|x: Definition| x@), name@) == Some(d@),
            None => spec_lookup_def(defs@.map_values(|x: Definition| x@), name@) is None,
        },
{
    let ghost dv = defs@.map_values(|x: Definition| x@);
    let mut i: usize = 0;
    while i < defs.len()
        invariant
            0 <= i <= defs.len(),
            dv == defs@.map_values(|x: Definition| x@),
            forall|j: int| 0 <= j < i ==> #[trigger] dv[j].name != name@,
        decreases defs.len() - i,
    {
        if defs[i].name == *name {
            proof {
                lemma_lookup_def_prefix(dv, name@, i as int);
                assert(dv.skip(i as int)[0] == dv[i as int]);
            }
            return Some(&defs[i]);
        }
        assert(dv[i as int].name != name@);
        i = i + 1;
    }
    proof {
        lemma_lookup_def_prefix(dv, name@, dv.len() as int);
        assert(dv.skip(dv.len() as int).len() == 0);
    }
    None
}

impl ValidatorRegistry {
    /// An empty registry: nothing is known, every predicate or directive
    /// invocation will be reported as unknown.
    pub fn new() -> (r: ValidatorRegistry)
        ensures
            r@.predicates.len() == 0,
            r@.directives.len() == 0,
            r@.captures.len() == 0,
    {
        ValidatorRegistry { predicates: Vec::new(), directives: Vec::new(), captures: Vec::new() }
    }

    /// The predicate definition registered under `name`, if any.
    pub fn predicate<'a>(&'a self, name: &String) -> (r: Option<&'a Definition>)
        ensures
            match r {
                Some(d) => spec_lookup_def(self@.predicates, name@) == Some(d@),
                None => spec_lookup_def(self@.predicates, name@) is None,
            },
    {
        lookup_def(&self.predicates, name)
    }

    /// The directive definition registered under `name`, if any.
    pub fn directive<'a>(&'a self, name: &String) -> (r: Option<&'a Definition>)
        ensures
            match r {
                Some(d) => spec_lookup_def(self@.directives, name@) == Some(d@),
                None => spec_lookup_def(self@.directives, name@) is None,
            },
    {
        lookup_def(&self.directives, name)
    }

    /// The capture group registered under `context`, if any.
    pub fn captures_for<'a>(&'a self, context: &String) -> (r: Option<&'a CaptureGroup>)
        ensures
            match r {
                Some(g) => spec_lookup_group(self@.captures, context@) == Some(g@),
                None => spec_lookup_group(self@.captures, context@) is None,
            },
    {
        let ghost gv = self@.captures;
        let mut i: usize = 0;
        while i < self.captures.len()
            invariant
                0 <= i <= self.captures.len(),
                gv == self.captures@.map_values(|g: CaptureGroup| g@),
                forall|j: int| 0 <= j < i ==> #[trigger] gv[j].context != context@,
            decreases self.captures.len() - i,
        {
            if self.captures[i].context == *context {
                proof {
                    lemma_lookup_group_prefix(gv, context@, i as int);
                    assert(gv.skip(i as int)[0] == gv[i as int]);
                }
                return Some(&self.captures[i]);
            }
            assert(gv[i as int].context != context@);
            i = i + 1;
        }
        proof {
            lemma_lookup_group_prefix(gv, context@, gv.len() as int);
            assert(gv.skip(gv.len() as int).len() == 0);
        }
        None
    }

    /// The description of capture `name` (without its `@` sigil) in the
    /// group keyed by `context`, if any.
    pub fn capture_description<'a>(&'a self, context: &String, name: &String) -> (r: Option<
        &'a String,
    >)
        ensures
            match r {
                Some(d) => spec_capture_description(self@.captures, context@, name@) == Some(d@),
                None => spec_capture_description(self@.captures, context@, name@) is None,
            },
    {
        let group = match self.captures_for(context) {
            Some(g) => g,
            None => {
                return None;
            },
        };
        let ghost cv = group@.captures;
        let mut i: usize = 0;
        while i < group.captures.len()
            invariant
                0 <= i <= group.captures.len(),
                cv == group.captures@.map_values(|c: CaptureDesc| c@),
                spec_lookup_group(self@.captures, context@) == Some(group@),
                forall|j: int| 0 <= j < i ==> #[trigger] cv[j].name != name@,
            decreases group.captures.len() - i,
        {
            if group.captures[i].name == *name {
                proof {
                    lemma_lookup_capture_prefix(cv, name@, i as int);
                    assert(cv.skip(i as int)[0] == cv[i as int]);
                }
                return Some(&group.captures[i].description);
            }
            assert(cv[i as int].name != name@);
            i = i + 1;
        }
        proof {
            lemma_lookup_capture_prefix(cv, name@, cv.len() as int);
            assert(cv.skip(cv.len() as int).len() == 0);
        }
        None
    }
}

/// A field-for-field copy of one parameter.
pub fn clone_param(p: &ParamSpec) -> (r: ParamSpec)
    ensures
        r@ == p@,
{
    ParamSpec {
        type_tag: p.type_tag,
        arity: p.arity,
        description: match &p.description {
            Some(d) => Some(d.clone()),
            None => None,
        },
    }
}

/// A field-for-field copy of a parameter list.
pub fn clone_params(v: &Vec<ParamSpec>) -> (out: Vec<ParamSpec>)
    ensures
        out@.map_values(|x: ParamSpec| x@) == v@.map_values(|x: ParamSpec| x@),
{
    let mut out: Vec<ParamSpec> = Vec::new();
    let mut i: usize = 0;
    while i < v.len()
        invariant
            0 <= i <= v.len(),
            out@.len() == i,
            forall|j: int| 0 <= j < i ==> #[trigger] out@[j]@ == v@[j]@,
        decreases v.len() - i,
    {
        out.push(clone_param(&v[i]));
        i = i + 1;
    }
    proof {
        assert(out@.map_values(|x: ParamSpec| x@) =~= v@.map_values(|x: ParamSpec| x@));
    }
    out
}

/// A field-for-field copy of a definition.
pub fn clone_definition(d: &Definition) -> (r: Definition)
    ensures
        r@ == d@,
{
    Definition {
        name: d.name.clone(),
        description: d.description.clone(),
        parameters: clone_params(&d.parameters),
    }
}

} // verus!
