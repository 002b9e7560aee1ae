//! The stack of the scopes that are open during a walk.
use vstd::prelude::*;
use crate::error::{CFGError, CFGErrorKind, CFGStep};
use crate::structs::NId;

verus! {

/// The open scopes, innermost last.
pub struct CtxStack {
    pub inner: Vec<NId>,
}

impl View for CtxStack {
    type V = Seq<NId>;

    open spec fn view(&self) -> Seq<NId> {
        self.inner@
    }
}

impl CtxStack {
    pub fn new() -> (r: CtxStack)
        ensures
            r@ == Seq::<NId>::empty(),
    {
        CtxStack { inner: Vec::new() }
    }

    /// Closes the innermost scope; fails when none is open.
    pub fn close(&mut self) -> (r: CFGStep<NId>)
        ensures
            old(self)@.len() == 0 <==> r is Err,
            r is Err ==> r->Err_0.kind == CFGErrorKind::NoOpenContext && final(self)@ == old(self)@,
            r is Ok ==> r->Ok_0 == old(self)@.last() && final(self)@ == old(self)@.drop_last(),
    {
        match self.inner.pop() {
            Some(id) => Ok(id),
            None => Err(CFGError::cause(CFGErrorKind::NoOpenContext, "no context to close")),
        }
    }

    pub fn empty(&self) -> (r: CFGStep<bool>)
        ensures
            r == Ok::<bool, CFGError>(self@.len() == 0),
    {
        Ok(self.inner.len() == 0)
    }

    pub fn push(&mut self, ctx_id: NId) -> (r: CFGStep)
        ensures
            r is Ok,
            final(self)@ == old(self)@.push(ctx_id),
    {
        self.inner.push(ctx_id);
        Ok(())
    }

    /// Removes the innermost scope, if any.
    pub fn pop(&mut self) -> (r: CFGStep<Option<NId>>)
        ensures
            r is Ok,
            old(self)@.len() == 0 ==> r->Ok_0 is None && final(self)@ == old(self)@,
            old(self)@.len() > 0 ==> r->Ok_0 == Some(old(self)@.last()) && final(self)@ == old(
                self,
            )@.drop_last(),
    {
        Ok(self.inner.pop())
    }

    /// The innermost scope; fails when none is open.
    pub fn peek(&self) -> (r: CFGStep<NId>)
        ensures
            self@.len() == 0 <==> r is Err,
            r is Err ==> r->Err_0.kind == CFGErrorKind::NoOpenContext,
            r is Ok ==> r->Ok_0 == self@.last(),
    {
        let n = self.inner.len();
        if n == 0 {
            Err(CFGError::cause(CFGErrorKind::NoOpenContext, "no contexts"))
        } else {
            Ok(self.inner[n - 1])
        }
    }

    /// The scope that encloses the innermost one; fails when fewer than two are open.
    pub fn peek_parent(&self) -> (r: CFGStep<NId>)
        ensures
            self@.len() < 2 <==> r is Err,
            r is Err ==> r->Err_0.kind == CFGErrorKind::NoOpenContext,
            r is Ok ==> r->Ok_0 == self@[self@.len() - 2],
    {
        let n = self.inner.len();
        if n < 2 {
            Err(CFGError::cause(CFGErrorKind::NoOpenContext, "no contexts"))
        } else {
            Ok(self.inner[n - 2])
        }
    }
}

} // verus!
