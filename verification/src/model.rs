use vstd::prelude::*;

verus! {

/// The language runtime a declaration speaks of.
#[derive(Debug, Clone, Copy, PartialEq, Eq, Structural)]
pub enum Runtime {
    Node,
    Python,
}

/// What a declaration says about the runtime: the range a project supports,
/// the version used to develop, test, build, or the one shipped.
#[derive(Debug, Clone, Copy, PartialEq, Eq, Structural)]
pub enum Role {
    Support,
    Development,
    Test,
    Build,
    Shipped,
}

/// The name of a runtime, as its `Debug` form writes it.
pub open spec fn runtime_name(r: Runtime) -> Seq<char> {
    match r {
        Runtime::Node => "Node"@,
        Runtime::Python => "Python"@,
    }
}

/// The name of a role, as its `Debug` form writes it.
pub open spec fn role_name(r: Role) -> Seq<char> {
    match r {
        Role::Support => "Support"@,
        Role::Development => "Development"@,
        Role::Test => "Test"@,
        Role::Build => "Build"@,
        Role::Shipped => "Shipped"@,
    }
}

impl Runtime {
    /// The runtime's name.
    pub fn name(&self) -> (s: &'static str)
        ensures
            s@ == runtime_name(*self),
    {
        match self {
            Runtime::Node => "Node",
            Runtime::Python => "Python",
        }
    }
}

impl Role {
    /// The role's name.
    pub fn name(&self) -> (s: &'static str)
        ensures
            s@ == role_name(*self),
    {
        match self {
            Role::Support => "Support",
            Role::Development => "Development",
            Role::Test => "Test",
            Role::Build => "Build",
            Role::Shipped => "Shipped",
        }
    }
}

/// One runtime constraint found in one file.
#[derive(Debug, Clone, PartialEq, Eq)]
pub struct Declaration {
    pub runtime: Runtime,
    pub constraint: String,
    pub role: Role,
    pub source: String,
}

impl Declaration {
    /// The declaration holds exactly these values.
    pub open spec fn describes(
        self,
        runtime: Runtime,
        constraint: Seq<char>,
        role: Role,
        source: Seq<char>,
    ) -> bool {
        &&& self.runtime == runtime
        &&& self.constraint@ == constraint
        &&& self.role == role
        &&& self.source@ == source
    }
}

/// `ds` are, in order, the declarations that `entries` describe, each with
/// its runtime, constraint and role, all found in `source`.
pub open spec fn all_describe(
    ds: Seq<Declaration>,
    entries: Seq<(Runtime, Seq<char>, Role)>,
    source: Seq<char>,
) -> bool {
    &&& ds.len() == entries.len()
    &&& forall|i: int|
        0 <= i < ds.len() ==> (#[trigger] ds[i]).describes(
            entries[i].0,
            entries[i].1,
            entries[i].2,
            source,
        )
}

/// The first declaration of `ds` with the given runtime and role.
pub open spec fn first_with(ds: Seq<Declaration>, runtime: Runtime, role: Role) -> Option<
    Declaration,
>
    decreases ds.len(),
{
    if ds.len() == 0 {
        None
    } else if ds[0].runtime == runtime && ds[0].role == role {
        Some(ds[0])
    } else {
        first_with(ds.drop_first(), runtime, role)
    }
}

/// Declarations after the first one of a runtime and role do not change
/// which is first.
pub proof fn lemma_first_with_append(
    ds: Seq<Declaration>,
    extra: Seq<Declaration>,
    runtime: Runtime,
    role: Role,
)
    requires
        first_with(ds, runtime, role) is Some,
    ensures
        first_with(ds + extra, runtime, role) == first_with(ds, runtime, role),
    decreases ds.len(),
{
    assert((ds + extra)[0] == ds[0]);
    if !(ds[0].runtime == runtime && ds[0].role == role) {
        lemma_first_with_append(ds.drop_first(), extra, runtime, role);
        assert((ds + extra).drop_first() =~= ds.drop_first() + extra);
    }
}

/// A declaration of another runtime or role does not change which one of a
/// runtime and role is first.
pub proof fn lemma_first_with_other(
    before: Seq<Declaration>,
    d: Declaration,
    after: Seq<Declaration>,
    runtime: Runtime,
    role: Role,
)
    requires
        d.runtime != runtime || d.role != role,
    ensures
        first_with(before + seq![d] + after, runtime, role) == first_with(before + after, runtime, role),
    decreases before.len(),
{
    let all = before + seq![d] + after;
    if before.len() == 0 {
        assert(all[0] == d);
        assert(all.drop_first() =~= before + after);
    } else {
        assert(all[0] == before[0]);
        assert((before + after)[0] == before[0]);
        if !(before[0].runtime == runtime && before[0].role == role) {
            lemma_first_with_other(before.drop_first(), d, after, runtime, role);
            assert(all.drop_first() =~= before.drop_first() + seq![d] + after);
            assert((before + after).drop_first() =~= before.drop_first() + after);
        }
    }
}

/// The first declaration of `ds` with the given runtime and role.
pub fn find_declaration(ds: &[Declaration], runtime: Runtime, role: Role) -> (r: Option<
    &Declaration,
>)
    ensures
        match r {
            Some(d) => first_with(ds@, runtime, role) == Some(*d),
            None => first_with(ds@, runtime, role) is None,
        },
{
    let mut i: usize = 0;
    assert(ds@.skip(0) =~= ds@);
    while i < ds.len()
        invariant
            i <= ds@.len(),
            first_with(ds@, runtime, role) == first_with(ds@.skip(i as int), runtime, role),
        decreases ds.len() - i,
    {
        assert(ds@.skip(i as int)[0] == ds@[i as int]);
        if ds[i].runtime == runtime && ds[i].role == role {
            return Some(&ds[i]);
        }
        assert(ds@.skip(i as int).drop_first() =~= ds@.skip(i + 1));
        i = i + 1;
    }
    None
}

} // verus!
