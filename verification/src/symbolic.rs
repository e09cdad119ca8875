//! Symbolic field access for contract verification: each field name
//! becomes an uninterpreted function from an object to an integer,
//! declared once per name.
use vstd::prelude::*;
use crate::z3_shim::{Context, FuncDecl, Sort, SortKind, Symbol, no_nul};
use crate::text::str_eq;

verus! {

/// The cache of field functions of one solver context.
pub struct SymbolicContext<'c> {
    pub z3_ctx: &'c Context,
    field_decls: Vec<(String, FuncDecl<'c>)>,
}

/// Contract verification at calls and returns (`verify` and
/// `verify_postcondition`, in the `contracts` module).
pub struct VerificationEngine;

/// Whether a declaration is the field function for `name`: `Int -> Int`.
pub open spec fn is_field_func(f: FuncDecl, name: Seq<char>) -> bool {
    f.name() == name && f.domain() == seq![SortKind::Int] && f.range() == SortKind::Int
}

impl<'c> SymbolicContext<'c> {
    /// The field names declared so far, in order.
    pub closed spec fn fields(&self) -> Seq<Seq<char>> {
        self.field_decls@.map_values(|e: (String, FuncDecl<'c>)| e.0@)
    }

    /// The solver context the functions are declared in.
    pub closed spec fn context(&self) -> &'c Context {
        self.z3_ctx
    }

    /// Every cached declaration is the field function of its name, in the
    /// cache's context.
    pub closed spec fn wf(&self) -> bool {
        forall|i: int| 0 <= i < self.field_decls@.len() ==> is_field_func(
            #[trigger] self.field_decls@[i].1,
            self.field_decls@[i].0@,
        ) && self.field_decls@[i].1.context() == *self.z3_ctx
    }

    /// An empty cache over `z3_ctx`.
    pub fn new(z3_ctx: &'c Context) -> (r: SymbolicContext<'c>)
        ensures
            r.wf(),
            r.fields() == Seq::<Seq<char>>::empty(),
            r.context() == z3_ctx,
    {
        let r = SymbolicContext { z3_ctx, field_decls: Vec::new() };
        assert(r.fields() =~= Seq::<Seq<char>>::empty());
        r
    }

    /// The field function for `name`, declared on first use and reused
    /// after that.
    pub fn get_field_func(&mut self, name: &str) -> (r: &FuncDecl<'c>)
        requires
            old(self).wf(),
            no_nul(name@),
        ensures
            is_field_func(*r, name@),
            r.context() == *old(self).context(),
            final(self).wf(),
            final(self).context() == old(self).context(),
            old(self).fields().contains(name@) ==> final(self).fields() == old(self).fields(),
            !old(self).fields().contains(name@) ==> final(self).fields() == old(self).fields().push(name@),
    {
        let mut i: usize = 0;
        while i < self.field_decls.len()
            invariant
                0 <= i <= self.field_decls@.len(),
                self.wf(),
                *self == *old(self),
                forall|j: int| 0 <= j < i ==> (#[trigger] self.field_decls@[j]).0@ != name@,
            decreases self.field_decls@.len() - i,
        {
            if str_eq(self.field_decls[i].0.as_str(), name) {
                proof {
                    assert(self.fields()[i as int] == name@);
                }
                return &self.field_decls[i].1;
            }
            i += 1;
        }
        proof {
            assert forall|j: int| 0 <= j < self.fields().len() implies self.fields()[j] != name@ by {
                assert(self.field_decls@[j].0@ == self.fields()[j]);
            }
        }
        let int_sort = Sort::int_sort(self.z3_ctx);
        let domain = [&int_sort];
        let decl = FuncDecl::new(self.z3_ctx, Symbol::String(name.to_string()), &domain, &int_sort);
        proof {
            assert(crate::z3_shim::sort_kinds(domain@) =~= seq![SortKind::Int]);
        }
        let ghost before = self.fields();
        self.field_decls.push((name.to_string(), decl));
        proof {
            assert(self.fields() =~= before.push(name@));
        }
        let last = self.field_decls.len() - 1;
        &self.field_decls[last].1
    }
}

} // verus!
