//! The global table builder and the scope resolver.
//!
//! A `GlobalTable` consumes each linked package's declarations once, in link
//! order, and records per namespace what each simple name defines. It is then
//! converted into a `Resolver`, which walks the local package depth-first,
//! keeping a stack of lexical scopes and the opens in force, and resolves
//! every path occurrence — or records an error and goes on, so one pass
//! surfaces every broken name.
//!
//! Each walk method's contract states its exact effect on the resolver's
//! state through the `m_*` model functions, which mirror the traversal over
//! sequences and maps. The scope stack after any walk equals the stack
//! before it: no scope leaks.

use vstd::prelude::*;
use crate::ast::{
    Block, CallableDecl, Expr, ExprKind, Ident, Item, ItemKind, Namespace, NodeId, Package, Pat,
    PatKind, Path, QubitInit, QubitInitKind, SpecBody, SpecDecl, Stmt, StmtKind, Ty, TyKind,
    VisibilityKind,
};
use crate::names::{DefId, Error, ErrorV, PackageId, PackageSrc};
use crate::resolve::{resolve, resolve_model, scopes_v};
use crate::tables::{opens_v, Globals, OpenTable, OpenV, Resolutions};

verus! {

/// The identity of a declaration of the package being compiled.
pub open spec fn local_def(node: NodeId) -> DefId {
    DefId { package: PackageSrc::Local, node }
}

/// The recorded errors taken to their mathematical shape, order kept.
pub open spec fn errs_v(errors: Seq<Error>) -> Seq<ErrorV> {
    errors.map_values(|e: Error| e@)
}

/// What the walk reads and never changes below namespace level: the two
/// global tables, the opens in force, and the enclosing namespace's name.
pub ghost struct WalkCtx {
    pub tys: Seq<(String, String, DefId)>,
    pub terms: Seq<(String, String, DefId)>,
    pub opens: Seq<OpenV>,
    pub ns: Seq<char>,
}

/// What the walk changes: the resolution map, the error list, and the
/// lexical scope stack (innermost scope last).
pub ghost struct WalkState {
    pub res: Map<NodeId, DefId>,
    pub errs: Seq<ErrorV>,
    pub locals: Seq<Seq<(String, DefId)>>,
}

/// A fresh innermost scope.
pub open spec fn push_scope_st(st: WalkState) -> WalkState {
    WalkState { res: st.res, errs: st.errs, locals: st.locals.push(Seq::empty()) }
}

/// The innermost scope closed.
pub open spec fn pop_scope_st(st: WalkState) -> WalkState {
    WalkState { res: st.res, errs: st.errs, locals: st.locals.drop_last() }
}

/// Resolving one term-position occurrence: on success the occurrence is
/// recorded in the resolution map, on failure the error is appended.
pub open spec fn m_term(c: WalkCtx, st: WalkState, path: Path) -> WalkState {
    match resolve_model(c.terms, c.opens, c.ns, st.locals, path) {
        Ok(id) => WalkState { res: st.res.insert(path.id, id), errs: st.errs, locals: st.locals },
        Err(e) => WalkState { res: st.res, errs: st.errs.push(e), locals: st.locals },
    }
}

/// Resolving one type-position occurrence: as `m_term`, but against the type
/// table and never against locals.
pub open spec fn m_typath(c: WalkCtx, st: WalkState, path: Path) -> WalkState {
    match resolve_model(c.tys, c.opens, c.ns, Seq::empty(), path) {
        Ok(id) => WalkState { res: st.res.insert(path.id, id), errs: st.errs, locals: st.locals },
        Err(e) => WalkState { res: st.res, errs: st.errs.push(e), locals: st.locals },
    }
}

/// Binding a pattern's names into the innermost scope. Only `Bind` leaves
/// bind; each binding occurrence resolves to itself.
pub open spec fn m_bind(st: WalkState, pat: Pat) -> WalkState
    decreases pat,
{
    match pat.kind {
        PatKind::Bind(name, _) => WalkState {
            res: st.res.insert(name.id, local_def(name.id)),
            errs: st.errs,
            locals: st.locals.update(
                st.locals.len() - 1,
                st.locals.last().push((name.name, local_def(name.id))),
            ),
        },
        PatKind::Discard(_) => st,
        PatKind::Elided => st,
        PatKind::Paren(inner) => m_bind(st, *inner),
        PatKind::Tuple(pats) => m_bind_all(st, pats@),
    }
}

pub open spec fn m_bind_all(st: WalkState, pats: Seq<Pat>) -> WalkState
    decreases pats,
{
    if pats.len() == 0 {
        st
    } else {
        m_bind(m_bind_all(st, pats.drop_last()), pats.last())
    }
}

/// Walking a type expression: every path in it is resolved in type position.
pub open spec fn m_ty(c: WalkCtx, st: WalkState, ty: Ty) -> WalkState
    decreases ty,
{
    match ty.kind {
        TyKind::Path(path) => m_typath(c, st, path),
        TyKind::Tuple(tys) => m_ty_all(c, st, tys@),
        TyKind::Hole => st,
    }
}

pub open spec fn m_ty_all(c: WalkCtx, st: WalkState, tys: Seq<Ty>) -> WalkState
    decreases tys,
{
    if tys.len() == 0 {
        st
    } else {
        m_ty(c, m_ty_all(c, st, tys.drop_last()), tys.last())
    }
}

/// Walking a pattern for its type annotations, which are resolved in type
/// position; the pattern's names are bound separately by `m_bind`.
pub open spec fn m_pat(c: WalkCtx, st: WalkState, pat: Pat) -> WalkState
    decreases pat,
{
    match pat.kind {
        PatKind::Bind(_, Some(ty)) => m_ty(c, st, ty),
        PatKind::Bind(_, None) => st,
        PatKind::Discard(Some(ty)) => m_ty(c, st, ty),
        PatKind::Discard(None) => st,
        PatKind::Elided => st,
        PatKind::Paren(inner) => m_pat(c, st, *inner),
        PatKind::Tuple(pats) => m_pat_all(c, st, pats@),
    }
}

pub open spec fn m_pat_all(c: WalkCtx, st: WalkState, pats: Seq<Pat>) -> WalkState
    decreases pats,
{
    if pats.len() == 0 {
        st
    } else {
        m_pat(c, m_pat_all(c, st, pats.drop_last()), pats.last())
    }
}

/// Walking a qubit initializer: its expressions are resolved in the
/// enclosing scope, before the allocation's names are bound.
pub open spec fn m_qinit(c: WalkCtx, st: WalkState, init: QubitInit) -> WalkState
    decreases init,
{
    match init.kind {
        QubitInitKind::Single => st,
        QubitInitKind::Paren(inner) => m_qinit(c, st, *inner),
        QubitInitKind::Tuple(inits) => m_qinit_all(c, st, inits@),
        QubitInitKind::Array(len) => m_expr(c, st, *len),
    }
}

pub open spec fn m_qinit_all(c: WalkCtx, st: WalkState, inits: Seq<QubitInit>) -> WalkState
    decreases inits,
{
    if inits.len() == 0 {
        st
    } else {
        m_qinit(c, m_qinit_all(c, st, inits.drop_last()), inits.last())
    }
}

/// Walking an expression. `for` loops, lambdas and `repeat` groups open
/// their own scopes; a block expression opens the block's scope.
pub open spec fn m_expr(c: WalkCtx, st: WalkState, expr: Expr) -> WalkState
    decreases expr,
{
    match expr.kind {
        ExprKind::Path(path) => m_term(c, st, path),
        ExprKind::For(pat, iter, body) => {
            // The iterated expression sees only the enclosing scope.
            let st1 = m_expr(c, st, *iter);
            pop_scope_st(m_block(c, m_bind(push_scope_st(st1), pat), body))
        },
        ExprKind::Repeat(body, cond, fixup) => {
            // One scope is shared by the repeat body, the condition, and the
            // fixup body.
            let st1 = m_stmt_all(c, push_scope_st(st), body.stmts@);
            let st2 = m_expr(c, st1, *cond);
            match fixup {
                Some(fix) => pop_scope_st(m_stmt_all(c, st2, fix.stmts@)),
                None => pop_scope_st(st2),
            }
        },
        ExprKind::Lambda(pat, body) => pop_scope_st(
            m_expr(c, m_bind(push_scope_st(st), pat), *body),
        ),
        ExprKind::Block(block) => m_block(c, st, block),
        ExprKind::Call(callee, arg) => m_expr(c, m_expr(c, st, *callee), *arg),
        ExprKind::Tuple(exprs) => m_expr_all(c, st, exprs@),
        ExprKind::If(cond, then_block, alt) => {
            let st1 = m_block(c, m_expr(c, st, *cond), then_block);
            match alt {
                Some(els) => m_expr(c, st1, *els),
                None => st1,
            }
        },
        ExprKind::Lit => st,
    }
}

pub open spec fn m_expr_all(c: WalkCtx, st: WalkState, exprs: Seq<Expr>) -> WalkState
    decreases exprs,
{
    if exprs.len() == 0 {
        st
    } else {
        m_expr(c, m_expr_all(c, st, exprs.drop_last()), exprs.last())
    }
}

/// Walking a statement. A `let` binds after its annotations and initializer
/// are resolved; a qubit allocation binds after its initializer, so the
/// bound names cover the rest of the block but not the initializer.
pub open spec fn m_stmt(c: WalkCtx, st: WalkState, stmt: Stmt) -> WalkState
    decreases stmt,
{
    match stmt.kind {
        StmtKind::Local(pat, init) => m_bind(m_expr(c, m_pat(c, st, pat), init), pat),
        StmtKind::Qubit(pat, init, block) => {
            let st1 = m_bind(m_qinit(c, st, init), pat);
            match block {
                Some(b) => m_block(c, st1, b),
                None => st1,
            }
        },
        StmtKind::Empty => st,
        StmtKind::Expr(expr) => m_expr(c, st, expr),
        StmtKind::Semi(expr) => m_expr(c, st, expr),
    }
}

pub open spec fn m_stmt_all(c: WalkCtx, st: WalkState, stmts: Seq<Stmt>) -> WalkState
    decreases stmts,
{
    if stmts.len() == 0 {
        st
    } else {
        m_stmt(c, m_stmt_all(c, st, stmts.drop_last()), stmts.last())
    }
}

/// Walking a block: it opens and closes its own scope.
pub open spec fn m_block(c: WalkCtx, st: WalkState, block: Block) -> WalkState
    decreases block,
{
    pop_scope_st(m_stmt_all(c, push_scope_st(st), block.stmts@))
}

/// Walking one specialization: a provided (external) body has no tree; an
/// implementation opens a scope for its input pattern over its block.
pub open spec fn m_spec_decl(c: WalkCtx, st: WalkState, decl: SpecDecl) -> WalkState
    decreases decl,
{
    match decl.body {
        SpecBody::Extern => st,
        SpecBody::Impl(pat, block) => pop_scope_st(
            m_block(c, m_bind(push_scope_st(st), pat), block),
        ),
    }
}

pub open spec fn m_spec_all(c: WalkCtx, st: WalkState, decls: Seq<SpecDecl>) -> WalkState
    decreases decls,
{
    if decls.len() == 0 {
        st
    } else {
        m_spec_decl(c, m_spec_all(c, st, decls.drop_last()), decls.last())
    }
}

/// Walking a callable declaration: one scope binds the input pattern and
/// covers the whole declaration, all specializations included.
pub open spec fn m_callable(c: WalkCtx, st: WalkState, decl: CallableDecl) -> WalkState
    decreases decl,
{
    pop_scope_st(
        m_spec_all(c, m_pat(c, m_bind(push_scope_st(st), decl.input), decl.input), decl.specs@),
    )
}

/// Walking one item of a namespace. Opens were already collected on entry
/// to the namespace; malformed items contribute nothing.
pub open spec fn m_item(c: WalkCtx, st: WalkState, item: Item) -> WalkState
    decreases item,
{
    match item.kind {
        ItemKind::Callable(decl) => m_callable(c, st, decl),
        ItemKind::Ty(_, ty) => m_ty(c, st, ty),
        ItemKind::Open(_, _) => st,
        ItemKind::Broken => st,
    }
}

pub open spec fn m_item_all(c: WalkCtx, st: WalkState, items: Seq<Item>) -> WalkState
    decreases items,
{
    if items.len() == 0 {
        st
    } else {
        m_item(c, m_item_all(c, st, items.drop_last()), items.last())
    }
}

/// The alias an open directive registers under: the alias ident's name, or
/// empty for a direct open.
pub open spec fn alias_of(alias: Option<Ident>) -> Seq<char> {
    match alias {
        Some(ident) => ident.name@,
        None => Seq::empty(),
    }
}

/// The open table a namespace's items put in force, in source order.
pub open spec fn opens_of(items: Seq<Item>) -> Seq<OpenV>
    decreases items,
{
    if items.len() == 0 {
        Seq::empty()
    } else {
        let prev = opens_of(items.drop_last());
        match items.last().kind {
            ItemKind::Open(name, alias) => prev.push(
                OpenV { alias: alias_of(alias), ns: name.name@, span: name.span },
            ),
            _ => prev,
        }
    }
}

/// Walking one namespace: the open table is rebuilt from its items, the
/// enclosing namespace is set to its name, and every item is walked.
pub open spec fn m_namespace(
    tys: Seq<(String, String, DefId)>,
    terms: Seq<(String, String, DefId)>,
    st: WalkState,
    ns: Namespace,
) -> WalkState {
    let c = WalkCtx { tys, terms, opens: opens_of(ns.items@), ns: ns.name.name@ };
    m_item_all(c, st, ns.items@)
}

pub open spec fn m_namespace_all(
    tys: Seq<(String, String, DefId)>,
    terms: Seq<(String, String, DefId)>,
    st: WalkState,
    nss: Seq<Namespace>,
) -> WalkState
    decreases nss,
{
    if nss.len() == 0 {
        st
    } else {
        m_namespace(tys, terms, m_namespace_all(tys, terms, st, nss.drop_last()), nss.last())
    }
}

/// The scope resolver: owns the finished global tables and walks the local
/// package, filling the resolution map and the error list.
pub struct Resolver {
    pub resolutions: Resolutions,
    pub tys: Globals,
    pub terms: Globals,
    pub opens: OpenTable,
    pub namespace: String,
    pub locals: Vec<Vec<(String, DefId)>>,
    pub errors: Vec<Error>,
}

/// The resolver's walked state, in its mathematical shape.
pub open spec fn st_of(r: Resolver) -> WalkState {
    WalkState { res: r.resolutions@, errs: errs_v(r.errors@), locals: scopes_v(r.locals@) }
}

/// The resolver's fixed context, in its mathematical shape.
pub open spec fn ctx_of(r: Resolver) -> WalkCtx {
    WalkCtx { tys: r.tys@, terms: r.terms@, opens: opens_v(r.opens@), ns: r.namespace@ }
}

/// The tables and the namespace context agree between two resolver states.
pub open spec fn same_ctx(a: Resolver, b: Resolver) -> bool {
    a.tys@ == b.tys@ && a.terms@ == b.terms@ && opens_v(a.opens@) == opens_v(b.opens@)
        && a.namespace@ == b.namespace@
}

impl Resolver {
    /// The resolution map filled so far.
    pub fn resolutions(&self) -> (r: &Resolutions)
        ensures
            r@ == self.resolutions@,
    {
        &self.resolutions
    }

    /// The errors recorded so far, in the order they were found.
    pub fn errors(&self) -> (r: &Vec<Error>)
        ensures
            r@ == self.errors@,
    {
        &self.errors
    }

    /// Clears the error list, so the same resolver state can be driven over
    /// a re-walked tree.
    pub fn reset_errors(&mut self)
        ensures
            final(self).errors@ == Seq::<Error>::empty(),
            final(self).resolutions@ == old(self).resolutions@,
            final(self).locals@ == old(self).locals@,
            same_ctx(*old(self), *final(self)),
    {
        self.errors.clear();
    }

    /// Gives up the resolver for its outputs: the resolution map and the
    /// error list.
    pub fn into_resolutions(self) -> (r: (Resolutions, Vec<Error>))
        ensures
            r.0@ == self.resolutions@,
            r.1@ == self.errors@,
    {
        (self.resolutions, self.errors)
    }

    /// Binds a late-added callable of the package being compiled into the
    /// term table of the current namespace; the declaration resolves to
    /// itself.
    pub fn add_global_callable(&mut self, decl: &CallableDecl)
        ensures
            final(self).terms@ == old(self).terms@.push(
                (old(self).namespace, decl.name.name, local_def(decl.name.id)),
            ),
            final(self).resolutions@ == old(self).resolutions@.insert(
                decl.name.id,
                local_def(decl.name.id),
            ),
            final(self).tys@ == old(self).tys@,
            opens_v(final(self).opens@) == opens_v(old(self).opens@),
            final(self).namespace@ == old(self).namespace@,
            final(self).locals@ == old(self).locals@,
            final(self).errors@ == old(self).errors@,
    {
        let id = DefId { package: PackageSrc::Local, node: decl.name.id };
        self.resolutions.insert(decl.name.id, id);
        self.terms.bind(self.namespace.clone(), decl.name.name.clone(), id);
    }

    /// Resolves one term-position occurrence and records the outcome.
    pub fn resolve_term(&mut self, path: &Path)
        ensures
            st_of(*final(self)) == m_term(ctx_of(*old(self)), st_of(*old(self)), *path),
            same_ctx(*old(self), *final(self)),
            final(self).locals@.len() == old(self).locals@.len(),
            scopes_v(final(self).locals@) == scopes_v(old(self).locals@),
    {
        match resolve(&self.terms, &self.opens, &self.namespace, &self.locals, path) {
            Ok(id) => {
                self.resolutions.insert(path.id, id);
            },
            Err(e) => {
                self.errors.push(e);
                proof {
                    assert(errs_v(self.errors@) =~= errs_v(old(self).errors@).push(e@));
                }
            },
        }
    }

    /// Resolves one type-position occurrence — against the type table only,
    /// never against locals — and records the outcome.
    pub fn resolve_ty(&mut self, path: &Path)
        ensures
            st_of(*final(self)) == m_typath(ctx_of(*old(self)), st_of(*old(self)), *path),
            same_ctx(*old(self), *final(self)),
            final(self).locals@.len() == old(self).locals@.len(),
            scopes_v(final(self).locals@) == scopes_v(old(self).locals@),
    {
        let no_locals: Vec<Vec<(String, DefId)>> = Vec::new();
        proof {
            assert(scopes_v(no_locals@) =~= Seq::<Seq<(String, DefId)>>::empty());
        }
        match resolve(&self.tys, &self.opens, &self.namespace, &no_locals, path) {
            Ok(id) => {
                self.resolutions.insert(path.id, id);
            },
            Err(e) => {
                self.errors.push(e);
                proof {
                    assert(errs_v(self.errors@) =~= errs_v(old(self).errors@).push(e@));
                }
            },
        }
    }

    /// Binds a pattern's names into the innermost scope. Binding occurrences
    /// resolve to themselves; destructuring shapes recurse, and only `Bind`
    /// leaves produce entries.
    #[verifier::loop_isolation(false)]
    pub fn bind(&mut self, pat: &Pat)
        requires
            old(self).locals@.len() > 0,
        ensures
            st_of(*final(self)) == m_bind(st_of(*old(self)), *pat),
            same_ctx(*old(self), *final(self)),
            final(self).locals@.len() == old(self).locals@.len(),
            scopes_v(final(self).locals@).drop_last() == scopes_v(old(self).locals@).drop_last(),
            final(self).errors@ == old(self).errors@,
        decreases *pat,
    {
        match &pat.kind {
            PatKind::Bind(name, _) => {
                let id = DefId { package: PackageSrc::Local, node: name.id };
                self.resolutions.insert(name.id, id);
                let last = self.locals.len() - 1;
                match self.locals.pop() {
                    Some(mut scope) => {
                        scope.push((name.name.clone(), id));
                        self.locals.push(scope);
                        proof {
                            assert(scopes_v(self.locals@) =~= scopes_v(old(self).locals@).update(
                                last as int,
                                scopes_v(old(self).locals@).last().push((name.name, id)),
                            ));
                            assert(scopes_v(self.locals@).drop_last() =~= scopes_v(
                                old(self).locals@,
                            ).drop_last());
                        }
                    },
                    None => {
                        proof {
                            assert(false);
                        }
                    },
                }
            },
            PatKind::Discard(_) => {},
            PatKind::Elided => {},
            PatKind::Paren(inner) => self.bind(inner),
            PatKind::Tuple(pats) => {
                let mut i: usize = 0;
                while i < pats.len()
                    invariant
                        i <= pats@.len(),
                        self.locals@.len() == old(self).locals@.len(),
                        scopes_v(self.locals@).drop_last() == scopes_v(
                            old(self).locals@,
                        ).drop_last(),
                        st_of(*self) == m_bind_all(st_of(*old(self)), pats@.take(i as int)),
                        same_ctx(*old(self), *self),
                        self.errors@ == old(self).errors@,
                    decreases pats@.len() - i,
                {
                    proof {
                        assert(pats@.take(i + 1).last() == pats@[i as int]);
                        assert(pats@.take(i + 1).drop_last() =~= pats@.take(i as int));
                    }
                    self.bind(&pats[i]);
                    i += 1;
                }
                proof {
                    assert(pats@.take(pats@.len() as int) =~= pats@);
                }
            },
        }
    }

    /// Walks a type expression, resolving every path in it in type position.
    #[verifier::loop_isolation(false)]
    pub fn visit_ty(&mut self, ty: &Ty)
        ensures
            st_of(*final(self)) == m_ty(ctx_of(*old(self)), st_of(*old(self)), *ty),
            same_ctx(*old(self), *final(self)),
            final(self).locals@.len() == old(self).locals@.len(),
            scopes_v(final(self).locals@) == scopes_v(old(self).locals@),
        decreases *ty,
    {
        match &ty.kind {
            TyKind::Path(path) => self.resolve_ty(path),
            TyKind::Tuple(tys) => {
                let mut i: usize = 0;
                while i < tys.len()
                    invariant
                        i <= tys@.len(),
                        st_of(*self) == m_ty_all(
                            ctx_of(*old(self)),
                            st_of(*old(self)),
                            tys@.take(i as int),
                        ),
                        same_ctx(*old(self), *self),
                        self.locals@.len() == old(self).locals@.len(),
                        scopes_v(self.locals@) == scopes_v(old(self).locals@),
                    decreases tys@.len() - i,
                {
                    proof {
                        assert(tys@.take(i + 1).last() == tys@[i as int]);
                        assert(tys@.take(i + 1).drop_last() =~= tys@.take(i as int));
                    }
                    self.visit_ty(&tys[i]);
                    i += 1;
                }
                proof {
                    assert(tys@.take(tys@.len() as int) =~= tys@);
                }
            },
            TyKind::Hole => {},
        }
    }

    /// Walks a pattern for its type annotations; its names are bound
    /// separately by `bind`.
    #[verifier::loop_isolation(false)]
    pub fn visit_pat(&mut self, pat: &Pat)
        ensures
            st_of(*final(self)) == m_pat(ctx_of(*old(self)), st_of(*old(self)), *pat),
            same_ctx(*old(self), *final(self)),
            final(self).locals@.len() == old(self).locals@.len(),
            scopes_v(final(self).locals@) == scopes_v(old(self).locals@),
        decreases *pat,
    {
        match &pat.kind {
            PatKind::Bind(_, Some(ty)) => self.visit_ty(ty),
            PatKind::Bind(_, None) => {},
            PatKind::Discard(Some(ty)) => self.visit_ty(ty),
            PatKind::Discard(None) => {},
            PatKind::Elided => {},
            PatKind::Paren(inner) => self.visit_pat(inner),
            PatKind::Tuple(pats) => {
                let mut i: usize = 0;
                while i < pats.len()
                    invariant
                        i <= pats@.len(),
                        st_of(*self) == m_pat_all(
                            ctx_of(*old(self)),
                            st_of(*old(self)),
                            pats@.take(i as int),
                        ),
                        same_ctx(*old(self), *self),
                        self.locals@.len() == old(self).locals@.len(),
                        scopes_v(self.locals@) == scopes_v(old(self).locals@),
                    decreases pats@.len() - i,
                {
                    proof {
                        assert(pats@.take(i + 1).last() == pats@[i as int]);
                        assert(pats@.take(i + 1).drop_last() =~= pats@.take(i as int));
                    }
                    self.visit_pat(&pats[i]);
                    i += 1;
                }
                proof {
                    assert(pats@.take(pats@.len() as int) =~= pats@);
                }
            },
        }
    }

    /// Walks a qubit initializer's expressions in the enclosing scope.
    #[verifier::loop_isolation(false)]
    pub fn visit_qubit_init(&mut self, init: &QubitInit)
        ensures
            st_of(*final(self)) == m_qinit(ctx_of(*old(self)), st_of(*old(self)), *init),
            same_ctx(*old(self), *final(self)),
            final(self).locals@.len() == old(self).locals@.len(),
            scopes_v(final(self).locals@) == scopes_v(old(self).locals@),
        decreases *init,
    {
        match &init.kind {
            QubitInitKind::Single => {},
            QubitInitKind::Paren(inner) => self.visit_qubit_init(inner),
            QubitInitKind::Tuple(inits) => {
                let mut i: usize = 0;
                while i < inits.len()
                    invariant
                        i <= inits@.len(),
                        st_of(*self) == m_qinit_all(
                            ctx_of(*old(self)),
                            st_of(*old(self)),
                            inits@.take(i as int),
                        ),
                        same_ctx(*old(self), *self),
                        self.locals@.len() == old(self).locals@.len(),
                        scopes_v(self.locals@) == scopes_v(old(self).locals@),
                    decreases inits@.len() - i,
                {
                    proof {
                        assert(inits@.take(i + 1).last() == inits@[i as int]);
                        assert(inits@.take(i + 1).drop_last() =~= inits@.take(i as int));
                    }
                    self.visit_qubit_init(&inits[i]);
                    i += 1;
                }
                proof {
                    assert(inits@.take(inits@.len() as int) =~= inits@);
                }
            },
            QubitInitKind::Array(len) => self.visit_expr(&**len),
        }
    }

    /// Walks an expression, resolving every term-position path in it.
    /// `for` loops, lambdas and `repeat` groups open their own scopes; the
    /// stack afterwards is exactly the stack before.
    #[verifier::loop_isolation(false)]
    pub fn visit_expr(&mut self, expr: &Expr)
        ensures
            st_of(*final(self)) == m_expr(ctx_of(*old(self)), st_of(*old(self)), *expr),
            same_ctx(*old(self), *final(self)),
            final(self).locals@.len() == old(self).locals@.len(),
            scopes_v(final(self).locals@) == scopes_v(old(self).locals@),
        decreases *expr,
    {
        match &expr.kind {
            ExprKind::Path(path) => self.resolve_term(path),
            ExprKind::For(pat, iter, body) => {
                // The iterated expression sees only the enclosing scope.
                self.visit_expr(&**iter);
                let ghost before_push = self.locals@;
                self.locals.push(Vec::new());
                proof {
                    assert(scopes_v(self.locals@) =~= scopes_v(before_push).push(Seq::empty()));
                }
                self.bind(pat);
                self.visit_block(body);
                let ghost before_pop = self.locals@;
                self.locals.pop();
                proof {
                    assert(scopes_v(self.locals@) =~= scopes_v(before_pop).drop_last());
                    assert(scopes_v(self.locals@) =~= scopes_v(old(self).locals@));
                }
            },
            ExprKind::Repeat(body, cond, fixup) => {
                // One scope is shared by the repeat body, the condition and
                // the fixup body.
                let ghost before_push = self.locals@;
                self.locals.push(Vec::new());
                proof {
                    assert(scopes_v(self.locals@) =~= scopes_v(before_push).push(Seq::empty()));
                }
                let ghost pushed = st_of(*self);
                let mut i: usize = 0;
                while i < body.stmts.len()
                    invariant
                        i <= body.stmts@.len(),
                        st_of(*self) == m_stmt_all(ctx_of(*old(self)), pushed, body.stmts@.take(
                            i as int,
                        )),
                        same_ctx(*old(self), *self),
                        self.locals@.len() == old(self).locals@.len() + 1,
                        scopes_v(self.locals@).drop_last() == scopes_v(old(self).locals@),
                    decreases body.stmts@.len() - i,
                {
                    proof {
                        assert(body.stmts@.take(i + 1).last() == body.stmts@[i as int]);
                        assert(body.stmts@.take(i + 1).drop_last() =~= body.stmts@.take(i as int));
                    }
                    self.visit_stmt(&body.stmts[i]);
                    i += 1;
                }
                proof {
                    assert(body.stmts@.take(body.stmts@.len() as int) =~= body.stmts@);
                }
                self.visit_expr(&**cond);
                match fixup {
                    Some(fix) => {
                        let ghost mid = st_of(*self);
                        let mut j: usize = 0;
                        while j < fix.stmts.len()
                            invariant
                                j <= fix.stmts@.len(),
                                st_of(*self) == m_stmt_all(ctx_of(*old(self)), mid, fix.stmts@.take(
                                    j as int,
                                )),
                                same_ctx(*old(self), *self),
                                self.locals@.len() == old(self).locals@.len() + 1,
                                scopes_v(self.locals@).drop_last() == scopes_v(old(self).locals@),
                            decreases fix.stmts@.len() - j,
                        {
                            proof {
                                assert(fix.stmts@.take(j + 1).last() == fix.stmts@[j as int]);
                                assert(fix.stmts@.take(j + 1).drop_last() =~= fix.stmts@.take(
                                    j as int,
                                ));
                            }
                            self.visit_stmt(&fix.stmts[j]);
                            j += 1;
                        }
                        proof {
                            assert(fix.stmts@.take(fix.stmts@.len() as int) =~= fix.stmts@);
                        }
                    },
                    None => {},
                }
                let ghost before_pop = self.locals@;
                self.locals.pop();
                proof {
                    assert(scopes_v(self.locals@) =~= scopes_v(before_pop).drop_last());
                    assert(scopes_v(self.locals@) =~= scopes_v(old(self).locals@));
                }
            },
            ExprKind::Lambda(pat, body) => {
                let ghost before_push = self.locals@;
                self.locals.push(Vec::new());
                proof {
                    assert(scopes_v(self.locals@) =~= scopes_v(before_push).push(Seq::empty()));
                }
                self.bind(pat);
                self.visit_expr(&**body);
                let ghost before_pop = self.locals@;
                self.locals.pop();
                proof {
                    assert(scopes_v(self.locals@) =~= scopes_v(before_pop).drop_last());
                    assert(scopes_v(self.locals@) =~= scopes_v(old(self).locals@));
                }
            },
            ExprKind::Block(block) => self.visit_block(block),
            ExprKind::Call(callee, arg) => {
                self.visit_expr(&**callee);
                self.visit_expr(&**arg);
            },
            ExprKind::Tuple(exprs) => {
                let mut i: usize = 0;
                while i < exprs.len()
                    invariant
                        i <= exprs@.len(),
                        st_of(*self) == m_expr_all(
                            ctx_of(*old(self)),
                            st_of(*old(self)),
                            exprs@.take(i as int),
                        ),
                        same_ctx(*old(self), *self),
                        self.locals@.len() == old(self).locals@.len(),
                        scopes_v(self.locals@) == scopes_v(old(self).locals@),
                    decreases exprs@.len() - i,
                {
                    proof {
                        assert(exprs@.take(i + 1).last() == exprs@[i as int]);
                        assert(exprs@.take(i + 1).drop_last() =~= exprs@.take(i as int));
                    }
                    self.visit_expr(&exprs[i]);
                    i += 1;
                }
                proof {
                    assert(exprs@.take(exprs@.len() as int) =~= exprs@);
                }
            },
            ExprKind::If(cond, then_block, alt) => {
                self.visit_expr(&**cond);
                self.visit_block(then_block);
                match alt {
                    Some(els) => self.visit_expr(&**els),
                    None => {},
                }
            },
            ExprKind::Lit => {},
        }
    }

    /// Walks one statement. A binding's names are registered after its
    /// initializer is walked, so they cover the rest of the block but not
    /// the initializer.
    pub fn visit_stmt(&mut self, stmt: &Stmt)
        requires
            old(self).locals@.len() > 0,
        ensures
            st_of(*final(self)) == m_stmt(ctx_of(*old(self)), st_of(*old(self)), *stmt),
            same_ctx(*old(self), *final(self)),
            final(self).locals@.len() == old(self).locals@.len(),
            scopes_v(final(self).locals@).drop_last() == scopes_v(old(self).locals@).drop_last(),
        decreases *stmt,
    {
        match &stmt.kind {
            StmtKind::Local(pat, init) => {
                self.visit_pat(pat);
                self.visit_expr(init);
                self.bind(pat);
            },
            StmtKind::Qubit(pat, init, block) => {
                self.visit_qubit_init(init);
                self.bind(pat);
                match block {
                    Some(b) => self.visit_block(b),
                    None => {},
                }
            },
            StmtKind::Empty => {},
            StmtKind::Expr(e) => self.visit_expr(e),
            StmtKind::Semi(e) => self.visit_expr(e),
        }
    }

    /// Walks a block in a scope of its own.
    #[verifier::loop_isolation(false)]
    pub fn visit_block(&mut self, block: &Block)
        ensures
            st_of(*final(self)) == m_block(ctx_of(*old(self)), st_of(*old(self)), *block),
            same_ctx(*old(self), *final(self)),
            final(self).locals@.len() == old(self).locals@.len(),
            scopes_v(final(self).locals@) == scopes_v(old(self).locals@),
        decreases *block,
    {
        let ghost before_push = self.locals@;
        self.locals.push(Vec::new());
        proof {
            assert(scopes_v(self.locals@) =~= scopes_v(before_push).push(Seq::empty()));
        }
        let ghost pushed = st_of(*self);
        let mut i: usize = 0;
        while i < block.stmts.len()
            invariant
                i <= block.stmts@.len(),
                st_of(*self) == m_stmt_all(ctx_of(*old(self)), pushed, block.stmts@.take(i as int)),
                same_ctx(*old(self), *self),
                self.locals@.len() == old(self).locals@.len() + 1,
                scopes_v(self.locals@).drop_last() == scopes_v(old(self).locals@),
            decreases block.stmts@.len() - i,
        {
            proof {
                assert(block.stmts@.take(i + 1).last() == block.stmts@[i as int]);
                assert(block.stmts@.take(i + 1).drop_last() =~= block.stmts@.take(i as int));
            }
            self.visit_stmt(&block.stmts[i]);
            i += 1;
        }
        proof {
            assert(block.stmts@.take(block.stmts@.len() as int) =~= block.stmts@);
        }
        let ghost before_pop = self.locals@;
        self.locals.pop();
        proof {
            assert(scopes_v(self.locals@) =~= scopes_v(before_pop).drop_last());
            assert(scopes_v(self.locals@) =~= scopes_v(old(self).locals@));
        }
    }

    /// Walks one specialization: an implementation opens a scope binding its
    /// input pattern over its block; a provided body has no tree to walk.
    pub fn visit_spec_decl(&mut self, decl: &SpecDecl)
        ensures
            st_of(*final(self)) == m_spec_decl(ctx_of(*old(self)), st_of(*old(self)), *decl),
            same_ctx(*old(self), *final(self)),
            final(self).locals@.len() == old(self).locals@.len(),
            scopes_v(final(self).locals@) == scopes_v(old(self).locals@),
        decreases *decl,
    {
        match &decl.body {
            SpecBody::Extern => {},
            SpecBody::Impl(pat, block) => {
                let ghost before_push = self.locals@;
                self.locals.push(Vec::new());
                proof {
                    assert(scopes_v(self.locals@) =~= scopes_v(before_push).push(Seq::empty()));
                }
                self.bind(pat);
                self.visit_block(block);
                let ghost before_pop = self.locals@;
                self.locals.pop();
                proof {
                    assert(scopes_v(self.locals@) =~= scopes_v(before_pop).drop_last());
                    assert(scopes_v(self.locals@) =~= scopes_v(old(self).locals@));
                }
            },
        }
    }

    /// Walks a callable declaration: one scope binds its input pattern and
    /// covers the whole declaration, all specializations included.
    #[verifier::loop_isolation(false)]
    pub fn visit_callable_decl(&mut self, decl: &CallableDecl)
        ensures
            st_of(*final(self)) == m_callable(ctx_of(*old(self)), st_of(*old(self)), *decl),
            same_ctx(*old(self), *final(self)),
            final(self).locals@.len() == old(self).locals@.len(),
            scopes_v(final(self).locals@) == scopes_v(old(self).locals@),
        decreases *decl,
    {
        let ghost before_push = self.locals@;
        self.locals.push(Vec::new());
        proof {
            assert(scopes_v(self.locals@) =~= scopes_v(before_push).push(Seq::empty()));
        }
        self.bind(&decl.input);
        self.visit_pat(&decl.input);
        let ghost entered = st_of(*self);
        let mut i: usize = 0;
        while i < decl.specs.len()
            invariant
                i <= decl.specs@.len(),
                st_of(*self) == m_spec_all(ctx_of(*old(self)), entered, decl.specs@.take(i as int)),
                same_ctx(*old(self), *self),
                self.locals@.len() == old(self).locals@.len() + 1,
                scopes_v(self.locals@).drop_last() == scopes_v(old(self).locals@),
            decreases decl.specs@.len() - i,
        {
            proof {
                assert(decl.specs@.take(i + 1).last() == decl.specs@[i as int]);
                assert(decl.specs@.take(i + 1).drop_last() =~= decl.specs@.take(i as int));
            }
            self.visit_spec_decl(&decl.specs[i]);
            i += 1;
        }
        proof {
            assert(decl.specs@.take(decl.specs@.len() as int) =~= decl.specs@);
        }
        let ghost before_pop = self.locals@;
        self.locals.pop();
        proof {
            assert(scopes_v(self.locals@) =~= scopes_v(before_pop).drop_last());
            assert(scopes_v(self.locals@) =~= scopes_v(old(self).locals@));
        }
    }

    /// Walks one item of the namespace being visited. Opens were collected
    /// on entry to the namespace; malformed items are skipped.
    pub fn visit_item(&mut self, item: &Item)
        ensures
            st_of(*final(self)) == m_item(ctx_of(*old(self)), st_of(*old(self)), *item),
            same_ctx(*old(self), *final(self)),
            final(self).locals@.len() == old(self).locals@.len(),
            scopes_v(final(self).locals@) == scopes_v(old(self).locals@),
        decreases *item,
    {
        match &item.kind {
            ItemKind::Callable(decl) => self.visit_callable_decl(decl),
            ItemKind::Ty(_, ty) => self.visit_ty(ty),
            ItemKind::Open(_, _) => {},
            ItemKind::Broken => {},
        }
    }

    /// Walks one namespace: rebuilds the open table from its items, sets the
    /// enclosing namespace to its name, walks every item, then leaves the
    /// namespace.
    #[verifier::loop_isolation(false)]
    pub fn visit_namespace(&mut self, ns: &Namespace)
        ensures
            st_of(*final(self)) == m_namespace(
                old(self).tys@,
                old(self).terms@,
                st_of(*old(self)),
                *ns,
            ),
            final(self).tys@ == old(self).tys@,
            final(self).terms@ == old(self).terms@,
            opens_v(final(self).opens@) == opens_of(ns.items@),
            final(self).namespace@ == Seq::<char>::empty(),
            final(self).locals@.len() == old(self).locals@.len(),
            scopes_v(final(self).locals@) == scopes_v(old(self).locals@),
        decreases *ns,
    {
        self.opens = OpenTable::new();
        proof {
            assert(opens_v(self.opens@) =~= opens_of(ns.items@.take(0)));
        }
        let mut i: usize = 0;
        while i < ns.items.len()
            invariant
                i <= ns.items@.len(),
                opens_v(self.opens@) == opens_of(ns.items@.take(i as int)),
                self.tys@ == old(self).tys@,
                self.terms@ == old(self).terms@,
                self.namespace@ == old(self).namespace@,
                self.locals@.len() == old(self).locals@.len(),
                scopes_v(self.locals@) == scopes_v(old(self).locals@),
                st_of(*self) == st_of(*old(self)),
            decreases ns.items@.len() - i,
        {
            proof {
                assert(ns.items@.take(i + 1).last() == ns.items@[i as int]);
                assert(ns.items@.take(i + 1).drop_last() =~= ns.items@.take(i as int));
            }
            match &ns.items[i].kind {
                ItemKind::Open(name, alias) => {
                    let a = match alias {
                        Some(ident) => ident.name.clone(),
                        None => String::new(),
                    };
                    let ghost before = opens_v(self.opens@);
                    self.opens.add(a, name.name.clone(), name.span);
                    proof {
                        assert(opens_v(self.opens@) =~= before.push(
                            OpenV {
                                alias: alias_of(*alias),
                                ns: name.name@,
                                span: name.span,
                            },
                        ));
                    }
                },
                _ => {},
            }
            i += 1;
        }
        proof {
            assert(ns.items@.take(ns.items@.len() as int) =~= ns.items@);
        }
        self.namespace = ns.name.name.clone();
        let ghost entered = st_of(*self);
        let ghost c = WalkCtx {
            tys: old(self).tys@,
            terms: old(self).terms@,
            opens: opens_of(ns.items@),
            ns: ns.name.name@,
        };
        let mut j: usize = 0;
        while j < ns.items.len()
            invariant
                j <= ns.items@.len(),
                st_of(*self) == m_item_all(c, entered, ns.items@.take(j as int)),
                ctx_of(*self) == c,
                self.tys@ == old(self).tys@,
                self.terms@ == old(self).terms@,
                self.locals@.len() == old(self).locals@.len(),
                scopes_v(self.locals@) == scopes_v(old(self).locals@),
            decreases ns.items@.len() - j,
        {
            proof {
                assert(ns.items@.take(j + 1).last() == ns.items@[j as int]);
                assert(ns.items@.take(j + 1).drop_last() =~= ns.items@.take(j as int));
            }
            self.visit_item(&ns.items[j]);
            j += 1;
        }
        proof {
            assert(ns.items@.take(ns.items@.len() as int) =~= ns.items@);
        }
        self.namespace = String::new();
    }

    /// Walks the local package, namespace by namespace. Afterwards the
    /// lexical scope stack is exactly what it was before the walk: no scope
    /// leaks, however the tree nests.
    #[verifier::loop_isolation(false)]
    pub fn visit_package(&mut self, package: &Package)
        ensures
            st_of(*final(self)) == m_namespace_all(
                old(self).tys@,
                old(self).terms@,
                st_of(*old(self)),
                package.namespaces@,
            ),
            final(self).tys@ == old(self).tys@,
            final(self).terms@ == old(self).terms@,
            final(self).locals@.len() == old(self).locals@.len(),
            scopes_v(final(self).locals@) == scopes_v(old(self).locals@),
            package.namespaces@.len() == 0 ==> opens_v(final(self).opens@) == opens_v(
                old(self).opens@,
            ) && final(self).namespace@ == old(self).namespace@,
            package.namespaces@.len() > 0 ==> final(self).namespace@ == Seq::<char>::empty(),
    {
        let mut i: usize = 0;
        while i < package.namespaces.len()
            invariant
                i <= package.namespaces@.len(),
                st_of(*self) == m_namespace_all(
                    old(self).tys@,
                    old(self).terms@,
                    st_of(*old(self)),
                    package.namespaces@.take(i as int),
                ),
                self.tys@ == old(self).tys@,
                self.terms@ == old(self).terms@,
                self.locals@.len() == old(self).locals@.len(),
                scopes_v(self.locals@) == scopes_v(old(self).locals@),
                i == 0 ==> opens_v(self.opens@) == opens_v(old(self).opens@)
                    && self.namespace@ == old(self).namespace@,
                i > 0 ==> self.namespace@ == Seq::<char>::empty(),
            decreases package.namespaces@.len() - i,
        {
            proof {
                assert(package.namespaces@.take(i + 1).last() == package.namespaces@[i as int]);
                assert(package.namespaces@.take(i + 1).drop_last() =~= package.namespaces@.take(
                    i as int,
                ));
            }
            self.visit_namespace(&package.namespaces[i]);
            i += 1;
        }
        proof {
            assert(package.namespaces@.take(package.namespaces@.len() as int)
                =~= package.namespaces@);
        }
    }
}

/// The global table builder: consumes each linked package once, in link
/// order, the local package marked `Local` and every dependency by its
/// link-order index.
pub struct GlobalTable {
    pub resolutions: Resolutions,
    pub tys: Globals,
    pub terms: Globals,
    pub package: PackageSrc,
    pub namespace: String,
}

/// The builder's tables, in their mathematical shape.
pub ghost struct GState {
    pub res: Map<NodeId, DefId>,
    pub tys: Seq<(String, String, DefId)>,
    pub terms: Seq<(String, String, DefId)>,
}

pub open spec fn g_of(t: GlobalTable) -> GState {
    GState { res: t.resolutions@, tys: t.tys@, terms: t.terms@ }
}

/// Whether a non-local item is hidden from the importing package.
pub open spec fn g_skipped(pkg: PackageSrc, item: Item) -> bool {
    pkg != PackageSrc::Local && item.visibility == Some(VisibilityKind::Internal)
}

/// Recording one item. A callable binds its name in the term table; a type
/// declaration binds its name in both tables (a type and its constructor
/// share the namespace slot). Local declarations resolve to themselves at
/// once; internal items of other packages are invisible here. Open
/// directives and malformed items contribute nothing.
pub open spec fn g_item(g: GState, pkg: PackageSrc, ns: String, item: Item) -> GState {
    if g_skipped(pkg, item) {
        g
    } else {
        match item.kind {
            ItemKind::Callable(decl) => {
                let id = DefId { package: pkg, node: decl.name.id };
                GState {
                    res: if pkg == PackageSrc::Local {
                        g.res.insert(decl.name.id, id)
                    } else {
                        g.res
                    },
                    tys: g.tys,
                    terms: g.terms.push((ns, decl.name.name, id)),
                }
            },
            ItemKind::Ty(name, _) => {
                let id = DefId { package: pkg, node: name.id };
                GState {
                    res: if pkg == PackageSrc::Local {
                        g.res.insert(name.id, id)
                    } else {
                        g.res
                    },
                    tys: g.tys.push((ns, name.name, id)),
                    terms: g.terms.push((ns, name.name, id)),
                }
            },
            ItemKind::Open(_, _) => g,
            ItemKind::Broken => g,
        }
    }
}

pub open spec fn g_item_all(g: GState, pkg: PackageSrc, ns: String, items: Seq<Item>) -> GState
    decreases items,
{
    if items.len() == 0 {
        g
    } else {
        g_item(g_item_all(g, pkg, ns, items.drop_last()), pkg, ns, items.last())
    }
}

pub open spec fn g_namespace(g: GState, pkg: PackageSrc, ns: Namespace) -> GState {
    g_item_all(g, pkg, ns.name.name, ns.items@)
}

pub open spec fn g_namespace_all(g: GState, pkg: PackageSrc, nss: Seq<Namespace>) -> GState
    decreases nss,
{
    if nss.len() == 0 {
        g
    } else {
        g_namespace(g_namespace_all(g, pkg, nss.drop_last()), pkg, nss.last())
    }
}

impl GlobalTable {
    /// A fresh builder, set up for the local package.
    pub fn new() -> (r: GlobalTable)
        ensures
            r.resolutions@ == Map::<NodeId, DefId>::empty(),
            r.tys@ == Seq::<(String, String, DefId)>::empty(),
            r.terms@ == Seq::<(String, String, DefId)>::empty(),
            r.package == PackageSrc::Local,
            r.namespace@ == Seq::<char>::empty(),
    {
        GlobalTable {
            resolutions: Resolutions::new(),
            tys: Globals::new(),
            terms: Globals::new(),
            package: PackageSrc::Local,
            namespace: String::new(),
        }
    }

    /// Marks everything added from now on as coming from the linked package
    /// with the given link-order index.
    pub fn set_package(&mut self, package: PackageId)
        ensures
            final(self).package == PackageSrc::Extern(package),
            final(self).resolutions@ == old(self).resolutions@,
            final(self).tys@ == old(self).tys@,
            final(self).terms@ == old(self).terms@,
            final(self).namespace@ == old(self).namespace@,
    {
        self.package = PackageSrc::Extern(package);
    }

    /// Records one item of the namespace being visited.
    pub fn visit_item(&mut self, item: &Item)
        ensures
            g_of(*final(self)) == g_item(
                g_of(*old(self)),
                old(self).package,
                old(self).namespace,
                *item,
            ),
            final(self).package == old(self).package,
            final(self).namespace == old(self).namespace,
    {
        let skip = match (self.package, item.visibility) {
            (PackageSrc::Local, _) => false,
            (PackageSrc::Extern(_), Some(VisibilityKind::Internal)) => true,
            (PackageSrc::Extern(_), _) => false,
        };
        if skip {
            return;
        }
        match &item.kind {
            ItemKind::Callable(decl) => {
                let id = DefId { package: self.package, node: decl.name.id };
                if matches!(self.package, PackageSrc::Local) {
                    self.resolutions.insert(decl.name.id, id);
                }
                self.terms.bind(self.namespace.clone(), decl.name.name.clone(), id);
            },
            ItemKind::Ty(name, _) => {
                let id = DefId { package: self.package, node: name.id };
                if matches!(self.package, PackageSrc::Local) {
                    self.resolutions.insert(name.id, id);
                }
                self.tys.bind(self.namespace.clone(), name.name.clone(), id);
                self.terms.bind(self.namespace.clone(), name.name.clone(), id);
            },
            ItemKind::Open(_, _) => {},
            ItemKind::Broken => {},
        }
    }

    /// Records one namespace's declarations under its name.
    #[verifier::loop_isolation(false)]
    pub fn visit_namespace(&mut self, ns: &Namespace)
        ensures
            g_of(*final(self)) == g_namespace(g_of(*old(self)), old(self).package, *ns),
            final(self).package == old(self).package,
            final(self).namespace@ == Seq::<char>::empty(),
    {
        self.namespace = ns.name.name.clone();
        let mut i: usize = 0;
        while i < ns.items.len()
            invariant
                i <= ns.items@.len(),
                self.namespace == ns.name.name,
                self.package == old(self).package,
                g_of(*self) == g_item_all(
                    g_of(*old(self)),
                    old(self).package,
                    ns.name.name,
                    ns.items@.take(i as int),
                ),
            decreases ns.items@.len() - i,
        {
            proof {
                assert(ns.items@.take(i + 1).last() == ns.items@[i as int]);
                assert(ns.items@.take(i + 1).drop_last() =~= ns.items@.take(i as int));
            }
            self.visit_item(&ns.items[i]);
            i += 1;
        }
        proof {
            assert(ns.items@.take(ns.items@.len() as int) =~= ns.items@);
        }
        self.namespace = String::new();
    }

    /// Consumes one linked package's declarations.
    #[verifier::loop_isolation(false)]
    pub fn visit_package(&mut self, package: &Package)
        ensures
            g_of(*final(self)) == g_namespace_all(
                g_of(*old(self)),
                old(self).package,
                package.namespaces@,
            ),
            final(self).package == old(self).package,
    {
        let mut i: usize = 0;
        while i < package.namespaces.len()
            invariant
                i <= package.namespaces@.len(),
                self.package == old(self).package,
                g_of(*self) == g_namespace_all(
                    g_of(*old(self)),
                    old(self).package,
                    package.namespaces@.take(i as int),
                ),
            decreases package.namespaces@.len() - i,
        {
            proof {
                assert(package.namespaces@.take(i + 1).last() == package.namespaces@[i as int]);
                assert(package.namespaces@.take(i + 1).drop_last() =~= package.namespaces@.take(
                    i as int,
                ));
            }
            self.visit_namespace(&package.namespaces[i]);
            i += 1;
        }
        proof {
            assert(package.namespaces@.take(package.namespaces@.len() as int)
                =~= package.namespaces@);
        }
    }

    /// Turns the finished tables into a scope resolver that owns them.
    pub fn into_resolver(self) -> (r: Resolver)
        ensures
            r.resolutions@ == self.resolutions@,
            r.tys@ == self.tys@,
            r.terms@ == self.terms@,
            opens_v(r.opens@) == Seq::<OpenV>::empty(),
            r.namespace@ == Seq::<char>::empty(),
            r.locals@ == Seq::<Vec<(String, DefId)>>::empty(),
            r.errors@ == Seq::<Error>::empty(),
    {
        let r = Resolver {
            resolutions: self.resolutions,
            tys: self.tys,
            terms: self.terms,
            opens: OpenTable::new(),
            namespace: String::new(),
            locals: Vec::new(),
            errors: Vec::new(),
        };
        proof {
            assert(opens_v(r.opens@) =~= Seq::<OpenV>::empty());
        }
        r
    }
}

} // verus!
