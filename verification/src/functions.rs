//! The functions of the styling library that are in scope, by the
//! bindings through which the source reaches them.
use vstd::prelude::*;
use crate::ast::Id;
use crate::text::str_eq;
use crate::value::{Function, FunctionView};

verus! {

/// A function under the name by which it is a member of the library.
#[derive(Debug)]
pub struct NamedFunction {
    pub name: String,
    pub function: Function,
}

pub ghost struct NamedFunctionView {
    pub name: Seq<char>,
    pub function: FunctionView,
}

impl View for NamedFunction {
    type V = NamedFunctionView;

    open spec fn view(&self) -> NamedFunctionView {
        NamedFunctionView { name: self.name@, function: self.function@ }
    }
}

/// What a binding stands for: one function, or the library with its
/// functions as members.
#[derive(Debug)]
pub enum FunctionConfig {
    Regular(Function),
    Members(Vec<NamedFunction>),
}

pub ghost enum FunctionConfigView {
    Regular(FunctionView),
    Members(Seq<NamedFunctionView>),
}

impl View for FunctionConfig {
    type V = FunctionConfigView;

    open spec fn view(&self) -> FunctionConfigView {
        match self {
            FunctionConfig::Regular(f) => FunctionConfigView::Regular(f@),
            FunctionConfig::Members(ms) => FunctionConfigView::Members(
                Seq::new(ms.len() as nat, |i: int| ms[i]@),
            ),
        }
    }
}

/// A binding and what it stands for.
#[derive(Debug)]
pub struct FunctionBinding {
    pub id: Id,
    pub config: FunctionConfig,
}

pub ghost struct FunctionBindingView {
    pub id: (Seq<char>, u32),
    pub config: FunctionConfigView,
}

impl View for FunctionBinding {
    type V = FunctionBindingView;

    open spec fn view(&self) -> FunctionBindingView {
        FunctionBindingView { id: self.id@, config: self.config@ }
    }
}

/// The bindings in scope. Where a binding occurs twice, the first counts.
#[derive(Debug)]
pub struct FunctionMap {
    pub identifiers: Vec<FunctionBinding>,
}

impl View for FunctionMap {
    type V = Seq<FunctionBindingView>;

    open spec fn view(&self) -> Seq<FunctionBindingView> {
        Seq::new(self.identifiers.len() as nat, |i: int| self.identifiers[i]@)
    }
}

/// The views of a list of bindings.
pub open spec fn bindings_view(bindings: Seq<FunctionBinding>) -> Seq<FunctionBindingView> {
    Seq::new(bindings.len(), |i: int| bindings[i]@)
}

/// The position of the first binding of `id`; the length where there is
/// none.
pub open spec fn find_binding(bindings: Seq<FunctionBindingView>, id: (Seq<char>, u32)) -> int
    decreases bindings.len(),
{
    if bindings.len() == 0 {
        0
    } else if bindings[0].id == id {
        0
    } else {
        1 + find_binding(bindings.drop_first(), id)
    }
}

/// The position of the first member called `name`; the length where there
/// is none.
pub open spec fn find_member(members: Seq<NamedFunctionView>, name: Seq<char>) -> int
    decreases members.len(),
{
    if members.len() == 0 {
        0
    } else if members[0].name == name {
        0
    } else {
        1 + find_member(members.drop_first(), name)
    }
}

/// The function that the identifier `id` stands for, if it stands for one.
pub open spec fn function_of(bindings: Seq<FunctionBindingView>, id: (Seq<char>, u32)) -> Option<
    FunctionView,
> {
    let i = find_binding(bindings, id);
    if 0 <= i < bindings.len() {
        match bindings[i].config {
            FunctionConfigView::Regular(f) => Some(f),
            FunctionConfigView::Members(_) => None,
        }
    } else {
        None
    }
}

/// The position of the first binding of the symbol that stands for the
/// library, whatever the syntactic context; the length where there is
/// none.
pub open spec fn find_library(bindings: Seq<FunctionBindingView>, sym: Seq<char>) -> int
    decreases bindings.len(),
{
    if bindings.len() == 0 {
        0
    } else if bindings[0].id.0 == sym && bindings[0].config is Members {
        0
    } else {
        1 + find_library(bindings.drop_first(), sym)
    }
}

/// The function that the member `name` of the identifier `id` stands for,
/// if a binding of the identifier's symbol stands for the library and the
/// library has that member.
pub open spec fn member_function_of(
    bindings: Seq<FunctionBindingView>,
    id: (Seq<char>, u32),
    name: Seq<char>,
) -> Option<FunctionView> {
    let i = find_library(bindings, id.0);
    if 0 <= i < bindings.len() {
        match bindings[i].config {
            FunctionConfigView::Regular(_) => None,
            FunctionConfigView::Members(ms) => {
                let j = find_member(ms, name);
                if 0 <= j < ms.len() {
                    Some(ms[j].function)
                } else {
                    None
                }
            },
        }
    } else {
        None
    }
}

impl FunctionMap {
    /// A map without bindings.
    pub fn new() -> (m: FunctionMap)
        ensures
            m@ == Seq::<FunctionBindingView>::empty(),
    {
        let m = FunctionMap { identifiers: Vec::new() };
        assert(m@ =~= Seq::<FunctionBindingView>::empty());
        m
    }

    /// The first binding of `id`, if there is one.
    pub fn binding(&self, id: &Id) -> (found: Option<&FunctionBinding>)
        ensures
            0 <= find_binding(self@, id@),
            match found {
                Some(b) => find_binding(self@, id@) < self@.len() && b@ == self@[find_binding(
                    self@,
                    id@,
                )],
                None => find_binding(self@, id@) == self@.len(),
            },
    {
        let mut i: usize = 0;
        assert(self@.skip(0) =~= self@);
        while i < self.identifiers.len()
            invariant
                i <= self.identifiers.len(),
                find_binding(self@, id@) == i + find_binding(self@.skip(i as int), id@),
            decreases self.identifiers.len() - i,
        {
            let b = &self.identifiers[i];
            assert(self@.skip(i as int)[0] == b@);
            if b.id.sym == id.sym && b.id.ctxt == id.ctxt {
                return Some(b);
            }
            assert(self@.skip(i as int).drop_first() =~= self@.skip(i + 1));
            i += 1;
        }
        None
    }

    /// The function that `id` stands for, if it stands for one.
    pub fn function(&self, id: &Id) -> (found: Option<&Function>)
        ensures
            match found {
                Some(f) => function_of(self@, id@) == Some(f@),
                None => function_of(self@, id@) is None,
            },
    {
        match self.binding(id) {
            Some(b) => match &b.config {
                FunctionConfig::Regular(f) => Some(f),
                FunctionConfig::Members(_) => None,
            },
            None => None,
        }
    }

    /// The first binding of the symbol that stands for the library.
    pub fn library(&self, sym: &str) -> (found: Option<&FunctionBinding>)
        ensures
            0 <= find_library(self@, sym@),
            match found {
                Some(b) => find_library(self@, sym@) < self@.len() && b@ == self@[find_library(
                    self@,
                    sym@,
                )] && b@.config is Members,
                None => find_library(self@, sym@) == self@.len(),
            },
    {
        let mut i: usize = 0;
        assert(self@.skip(0) =~= self@);
        while i < self.identifiers.len()
            invariant
                i <= self.identifiers.len(),
                find_library(self@, sym@) == i + find_library(self@.skip(i as int), sym@),
            decreases self.identifiers.len() - i,
        {
            let b = &self.identifiers[i];
            assert(self@.skip(i as int)[0] == b@);
            let members = match &b.config {
                FunctionConfig::Members(_) => true,
                FunctionConfig::Regular(_) => false,
            };
            if members && str_eq(b.id.sym.as_str(), sym) {
                return Some(b);
            }
            assert(self@.skip(i as int).drop_first() =~= self@.skip(i + 1));
            i += 1;
        }
        None
    }

    /// The function that the member `name` of `id` stands for, if there is
    /// one.
    #[verifier::loop_isolation(false)]
    pub fn member_function(&self, id: &Id, name: &str) -> (found: Option<&Function>)
        ensures
            match found {
                Some(f) => member_function_of(self@, id@, name@) == Some(f@),
                None => member_function_of(self@, id@, name@) is None,
            },
    {
        match self.library(id.sym.as_str()) {
            Some(b) => match &b.config {
                FunctionConfig::Regular(_) => None,
                FunctionConfig::Members(ms) => {
                    let ghost members = b@.config->Members_0;
                    let mut j: usize = 0;
                    assert(members.skip(0) =~= members);
                    while j < ms.len()
                        invariant
                            j <= ms.len(),
                            members == Seq::new(ms.len() as nat, |i: int| ms[i]@),
                            find_member(members, name@) == j + find_member(
                                members.skip(j as int),
                                name@,
                            ),
                        decreases ms.len() - j,
                    {
                        let m = &ms[j];
                        assert(members.skip(j as int)[0] == m@);
                        if str_eq(m.name.as_str(), name) {
                            return Some(&m.function);
                        }
                        assert(members.skip(j as int).drop_first() =~= members.skip(j + 1));
                        j += 1;
                    }
                    None
                },
            },
            None => None,
        }
    }
}

} // verus!
