//! The binding oracle: tracks which names user code has bound so far,
//! in document order, and collects resolution diagnostics.
//!
//! The serializer queries it per identifier and registers each item with
//! it after the item has been rendered, so a definition is visible to
//! every later item but not to its own rendering.

use vstd::prelude::*;

use crate::ast::{item_view, Binding, Diagnostic, DiagnosticKind, Item, ItemV};

verus! {

/// The mathematical model of an oracle: the bound names, in the order
/// they were bound, and the diagnostics raised so far.
#[verifier::ext_equal]
pub struct OracleView {
    pub bound: Seq<Seq<char>>,
    pub diags: Seq<Diagnostic>,
}

/// Whether a name is among the bound names.
pub open spec fn bound_contains(bound: Seq<Seq<char>>, n: Seq<char>) -> bool {
    exists|i: int| 0 <= i < bound.len() && bound[i] == n
}

/// What registering an item does to the oracle: a binding whose name is
/// free binds it; one whose name is already bound raises a duplicate
/// diagnostic; every other item leaves the oracle unchanged.
pub open spec fn spec_register(m: OracleView, item: Item) -> OracleView {
    match item {
        Item::Binding(b) => {
            if bound_contains(m.bound, b.name@) {
                OracleView {
                    bound: m.bound,
                    diags: m.diags.push(
                        Diagnostic { kind: DiagnosticKind::DuplicateBinding, span: b.span },
                    ),
                }
            } else {
                OracleView { bound: m.bound.push(b.name@), diags: m.diags }
            }
        },
        _ => m,
    }
}

/// What registering an item model does to the oracle: the same rule as
/// [`spec_register`], over the mathematical tree.
pub open spec fn spec_register_v(m: OracleView, iv: ItemV) -> OracleView {
    match iv {
        ItemV::Binding(bv) => {
            if bound_contains(m.bound, bv.name) {
                OracleView {
                    bound: m.bound,
                    diags: m.diags.push(
                        Diagnostic { kind: DiagnosticKind::DuplicateBinding, span: bv.span },
                    ),
                }
            } else {
                OracleView { bound: m.bound.push(bv.name), diags: m.diags }
            }
        },
        _ => m,
    }
}

/// Registering an item equals registering its model.
pub proof fn lemma_register_view(m: OracleView, item: Item)
    ensures
        spec_register(m, item) == spec_register_v(m, item_view(item)),
{
}

/// The binding oracle.
pub struct Oracle {
    pub bound: Vec<String>,
    pub diags: Vec<Diagnostic>,
}

impl Oracle {
    /// The oracle's model.
    pub open spec fn model(self) -> OracleView {
        OracleView { bound: self.bound.deep_view(), diags: self.diags@ }
    }

    /// A fresh oracle: nothing bound, no diagnostics.
    pub fn new() -> (o: Oracle)
        ensures
            o.model() == (OracleView { bound: Seq::<Seq<char>>::empty(), diags: Seq::<
                Diagnostic,
            >::empty() }),
    {
        let o = Oracle { bound: Vec::new(), diags: Vec::new() };
        proof {
            assert(o.model() =~= OracleView {
                bound: Seq::<Seq<char>>::empty(),
                diags: Seq::<Diagnostic>::empty(),
            });
        }
        o
    }

    /// Whether user code has bound this name.
    pub fn is_bound(&self, name: &String) -> (r: bool)
        ensures
            r == bound_contains(self.model().bound, name@),
    {
        let n = self.bound.len();
        let mut i: usize = 0;
        while i < n
            invariant
                i <= n,
                n == self.bound.len(),
                forall|j: int| 0 <= j < i ==> self.bound.deep_view()[j] != name@,
            decreases n - i,
        {
            proof {
                assert(self.bound.deep_view()[i as int] == self.bound@[i as int]@);
            }
            if self.bound[i].eq(name) {
                proof {
                    assert(self.model().bound[i as int] == name@);
                }
                return true;
            }
            i = i + 1;
        }
        false
    }

    /// Registers one item, as [`spec_register`] says.
    pub fn register(&mut self, item: &Item)
        ensures
            final(self).model() == spec_register(old(self).model(), *item),
    {
        match item {
            Item::Binding(b) => {
                if self.is_bound(&b.name) {
                    self.diags.push(
                        Diagnostic { kind: DiagnosticKind::DuplicateBinding, span: b.span },
                    );
                    proof {
                        assert(self.model() =~= spec_register(old(self).model(), *item));
                    }
                } else {
                    let name = b.name.clone();
                    self.bound.push(name);
                    proof {
                        assert(self.bound.deep_view() =~= old(self).bound.deep_view().push(
                            b.name@,
                        ));
                        assert(self.model() =~= spec_register(old(self).model(), *item));
                    }
                }
            },
            _ => {
                proof {
                    assert(self.model() =~= spec_register(old(self).model(), *item));
                }
            },
        }
    }
}

} // verus!
