//! The scoped symbol table: a stack of frames, each mapping a name to
//! the symbol it denotes.

use vstd::prelude::*;
use vstd::string::StringExecFns;
use crate::ast::TypeSpecifier;

verus! {

broadcast use vstd::std_specs::vec::group_vec_axioms;

/// What a name denotes: a function with its parameter types, or a
/// variable.
#[derive(Debug)]
pub enum SymbolKind {
    Function { param_types: Vec<TypeSpecifier> },
    Variable,
}

/// The analyzer's record for a named entity. For a function symbol,
/// `ty` is the return type.
#[derive(Debug)]
pub struct Symbol {
    pub ty: TypeSpecifier,
    pub kind: SymbolKind,
}

/// Mathematical image of a [`SymbolKind`].
pub enum SymbolKindModel {
    Function(Seq<TypeSpecifier>),
    Variable,
}

/// Mathematical image of a [`Symbol`].
pub struct SymbolModel {
    pub ty: TypeSpecifier,
    pub kind: SymbolKindModel,
}

impl View for SymbolKind {
    type V = SymbolKindModel;

    open spec fn view(&self) -> SymbolKindModel {
        match self {
            SymbolKind::Function { param_types } => SymbolKindModel::Function(param_types@),
            SymbolKind::Variable => SymbolKindModel::Variable,
        }
    }
}

impl View for Symbol {
    type V = SymbolModel;

    open spec fn view(&self) -> SymbolModel {
        SymbolModel { ty: self.ty, kind: self.kind@ }
    }
}

/// The one error a declaration can produce.
#[derive(Debug)]
pub enum SymbolError {
    DuplicateDeclaration { name: String },
}

/// A stack of scope frames. The innermost frame is the last element.
/// Each frame keeps its entries in insertion order with distinct
/// names.
#[derive(Debug)]
pub struct SymbolTable {
    pub scopes: Vec<Vec<(String, Symbol)>>,
}

/// The mapping described by one scope frame.
pub open spec fn scope_map(s: Seq<(String, Symbol)>) -> Map<Seq<char>, SymbolModel>
    decreases s.len(),
{
    if s.len() == 0 {
        Map::empty()
    } else {
        scope_map(s.drop_last()).insert(s.last().0@, s.last().1@)
    }
}

/// The names of one frame are pairwise distinct.
pub open spec fn scope_unique(s: Seq<(String, Symbol)>) -> bool {
    forall|j: int, k: int| 0 <= j < k < s.len() ==> (#[trigger] s[j]).0@ != (#[trigger] s[k]).0@
}

/// Innermost-first search through a stack of scope mappings.
pub open spec fn lookup_scopes(
    scopes: Seq<Map<Seq<char>, SymbolModel>>,
    name: Seq<char>,
) -> Option<SymbolModel>
    decreases scopes.len(),
{
    if scopes.len() == 0 {
        None
    } else if scopes.last().contains_key(name) {
        Some(scopes.last()[name])
    } else {
        lookup_scopes(scopes.drop_last(), name)
    }
}

pub proof fn lemma_scope_map_contains(s: Seq<(String, Symbol)>, name: Seq<char>)
    ensures
        scope_map(s).contains_key(name) <==> exists|j: int|
            0 <= j < s.len() && (#[trigger] s[j]).0@ == name,
    decreases s.len(),
{
    if s.len() > 0 {
        lemma_scope_map_contains(s.drop_last(), name);
        if s.last().0@ == name {
            assert(s[s.len() - 1].0@ == name);
        } else {
            assert forall|j: int| 0 <= j < s.len() && (#[trigger] s[j]).0@ == name implies 0 <= j
                < s.len() - 1 && s.drop_last()[j].0@ == name by {
                assert(j != s.len() - 1);
            }
        }
    }
}

pub proof fn lemma_scope_map_value(s: Seq<(String, Symbol)>, j: int)
    requires
        scope_unique(s),
        0 <= j < s.len(),
    ensures
        scope_map(s)[s[j].0@] == s[j].1@,
    decreases s.len(),
{
    if j == s.len() - 1 {
    } else {
        lemma_scope_map_value(s.drop_last(), j);
        assert(s.drop_last()[j] == s[j]);
        assert(s.last().0@ != s[j].0@);
    }
}

impl SymbolTable {
    /// The stack of mappings this table holds, innermost last.
    pub open spec fn view(&self) -> Seq<Map<Seq<char>, SymbolModel>> {
        self.scopes@.map_values(|sc: Vec<(String, Symbol)>| scope_map(sc@))
    }

    /// The table always holds at least the global frame, and no frame
    /// declares a name twice.
    pub open spec fn wf(&self) -> bool {
        &&& self.scopes@.len() >= 1
        &&& forall|i: int| 0 <= i < self.scopes@.len() ==> scope_unique(
            (#[trigger] self.scopes@[i])@,
        )
    }

    /// Creates a table holding one empty global frame.
    pub fn new() -> (r: SymbolTable)
        ensures
            r.wf(),
            r@ =~= seq![Map::<Seq<char>, SymbolModel>::empty()],
    {
        let mut scopes: Vec<Vec<(String, Symbol)>> = Vec::new();
        scopes.push(Vec::new());
        SymbolTable { scopes }
    }

    /// Opens a new innermost scope.
    pub fn push_scope(&mut self)
        requires
            old(self).wf(),
        ensures
            final(self).wf(),
            final(self)@ =~= old(self)@.push(Map::<Seq<char>, SymbolModel>::empty()),
    {
        self.scopes.push(Vec::new());
    }

    /// Closes the innermost scope. The global frame is never dropped.
    pub fn pop_scope(&mut self)
        requires
            old(self).wf(),
            old(self)@.len() >= 2,
        ensures
            final(self).wf(),
            final(self)@ =~= old(self)@.drop_last(),
    {
        let _ = self.scopes.pop();
    }

    /// Declares `name` in the innermost scope; rejects a name already
    /// declared there.
    #[verifier::loop_isolation(false)]
    pub fn declare(&mut self, name: String, symbol: Symbol) -> (r: Result<(), SymbolError>)
        requires
            old(self).wf(),
        ensures
            final(self).wf(),
            match r {
                Ok(()) => {
                    &&& !old(self)@.last().contains_key(name@)
                    &&& final(self)@ =~= old(self)@.update(
                        old(self)@.len() - 1,
                        old(self)@.last().insert(name@, symbol@),
                    )
                },
                Err(e) => {
                    &&& old(self)@.last().contains_key(name@)
                    &&& *final(self) == *old(self)
                    &&& e matches SymbolError::DuplicateDeclaration { name: n } && n@ == name@
                },
            },
    {
        let depth = self.scopes.len();
        let scope = &self.scopes[depth - 1];
        let n = scope.len();
        let mut i: usize = 0;
        while i < n
            invariant
                n == scope.len(),
                0 <= i <= n,
                forall|j: int| 0 <= j < i ==> (#[trigger] scope@[j]).0@ != name@,
            decreases n - i,
        {
            if self.scopes[depth - 1][i].0.eq(&name) {
                proof {
                    lemma_scope_map_contains(scope@, name@);
                    assert(self@.last() == scope_map(scope@));
                }
                return Err(SymbolError::DuplicateDeclaration { name });
            }
            i += 1;
        }
        proof {
            lemma_scope_map_contains(scope@, name@);
            assert(!self@.last().contains_key(name@));
        }
        let ghost old_table = *self;
        let last = &mut self.scopes[depth - 1];
        last.push((name, symbol));
        proof {
            let ghost li = old_table.scopes@.len() - 1;
            assert(self.scopes@[li]@ =~= old_table.scopes@[li]@.push((name, symbol)));
            assert(scope_map(self.scopes@[li]@) == scope_map(old_table.scopes@[li]@).insert(
                name@,
                symbol@,
            )) by {
                assert(self.scopes@[li]@.drop_last() =~= old_table.scopes@[li]@);
            }
            assert forall|j: int, k: int|
                0 <= j < k < self.scopes@[li]@.len() implies (#[trigger] self.scopes@[li]@[j]).0@
                != (#[trigger] self.scopes@[li]@[k]).0@ by {
                if k == self.scopes@[li]@.len() - 1 {
                    lemma_scope_map_contains(old_table.scopes@[li]@, name@);
                }
            }
        }
        Ok(())
    }

    /// Finds the innermost declaration of `name`, if any.
    #[verifier::loop_isolation(false)]
    pub fn lookup(&self, name: &str) -> (r: Option<&Symbol>)
        requires
            self.wf(),
        ensures
            match r {
                Some(sym) => lookup_scopes(self@, name@) == Some(sym@),
                None => lookup_scopes(self@, name@) is None,
            },
    {
        let key = String::from_str(name);
        let depth = self.scopes.len();
        proof {
            assert(self@.subrange(0, depth as int) =~= self@);
        }
        let mut i: usize = depth;
        while i > 0
            invariant
                0 <= i <= depth,
                lookup_scopes(self@, name@) == lookup_scopes(self@.subrange(0, i as int), name@),
            decreases i,
        {
            i -= 1;
            let scope = &self.scopes[i];
            let n = scope.len();
            let mut j: usize = 0;
            while j < n
                invariant
                    n == scope.len(),
                    0 <= j <= n,
                    forall|k: int| 0 <= k < j ==> (#[trigger] scope@[k]).0@ != name@,
                decreases n - j,
            {
                if scope[j].0.eq(&key) {
                    proof {
                        lemma_scope_map_value(scope@, j as int);
                        lemma_scope_map_contains(scope@, name@);
                        assert(self@.subrange(0, i + 1).last() == scope_map(scope@));
                        assert(self@.subrange(0, i + 1).last().contains_key(name@));
                    }
                    return Some(&scope[j].1);
                }
                j += 1;
            }
            proof {
                lemma_scope_map_contains(scope@, name@);
                assert(self@.subrange(0, i + 1).last() == scope_map(scope@));
                assert(!self@.subrange(0, i + 1).last().contains_key(name@));
                assert(self@.subrange(0, i + 1).drop_last() =~= self@.subrange(0, i as int));
            }
        }
        proof {
            assert(self@.subrange(0, 0) =~= Seq::<Map<Seq<char>, SymbolModel>>::empty());
        }
        None
    }
}

} // verus!
