//! The layered shadowing algorithm: given the global tables, the opens in
//! force, the enclosing namespace and the lexical scope stack, decide which
//! definition a path occurrence denotes.
//!
//! Resolution tries five tiers in strict precedence order. Locals shadow
//! everything (term position only, unqualified names only); items of the
//! enclosing namespace shadow opens; explicit opens shadow the prelude and
//! unopened globals; the prelude shadows unopened globals; a direct global
//! lookup is the last resort. Two or more distinct definitions reachable
//! through opens are reported as ambiguous, citing the two earliest opening
//! directives by source position.

use vstd::prelude::*;
use vstd::string::StringExecFns;
use crate::ast::{Path, Span};
use crate::names::{DefId, Error, ErrorV};
use crate::tables::{global_lookup, opens_v, scope_lookup, Globals, OpenTable, OpenV};

verus! {

/// The namespace qualifier of a path, empty when the path is unqualified.
pub open spec fn qualifier(path: Path) -> Seq<char> {
    match path.namespace {
        Some(ident) => ident.name@,
        None => Seq::empty(),
    }
}

/// Strict order on spans by source offsets, start first.
pub open spec fn span_lt(a: Span, b: Span) -> bool {
    a.lo < b.lo || (a.lo == b.lo && a.hi < b.hi)
}

/// The lexical scopes taken to their mathematical shape, innermost scope
/// last.
pub open spec fn scopes_v(locals: Seq<Vec<(String, DefId)>>) -> Seq<Seq<(String, DefId)>> {
    locals.map_values(|scope: Vec<(String, DefId)>| scope@)
}

/// The innermost binding of `name` on the scope stack: scopes are searched
/// innermost (last) to outermost, and within one scope a later binding
/// shadows an earlier one of the same name.
pub open spec fn stack_lookup(
    locals: Seq<Seq<(String, DefId)>>,
    name: Seq<char>,
) -> Option<DefId>
    decreases locals.len(),
{
    if locals.len() == 0 {
        None
    } else if scope_lookup(locals.last(), name) is Some {
        scope_lookup(locals.last(), name)
    } else {
        stack_lookup(locals.drop_last(), name)
    }
}

/// Whether `id` is already among the gathered open candidates.
pub open spec fn cands_have(cands: Seq<(DefId, Span)>, id: DefId) -> bool {
    exists|i: int| 0 <= i < cands.len() && cands[i].0 == id
}

/// The distinct definitions reachable for `name` through the opens in force
/// under `alias`, each paired with the span of the directive that first
/// introduced it, in source order of the directives.
pub open spec fn open_cands(
    globals: Seq<(String, String, DefId)>,
    opens: Seq<OpenV>,
    alias: Seq<char>,
    name: Seq<char>,
) -> Seq<(DefId, Span)>
    decreases opens.len(),
{
    if opens.len() == 0 {
        Seq::empty()
    } else {
        let prev = open_cands(globals, opens.drop_last(), alias, name);
        let e = opens.last();
        if e.alias == alias {
            match global_lookup(globals, e.ns, name) {
                Some(id) => if cands_have(prev, id) {
                    prev
                } else {
                    prev.push((id, e.span))
                },
                None => prev,
            }
        } else {
            prev
        }
    }
}

/// The always-open namespaces, in their fixed order.
pub open spec fn prelude() -> Seq<Seq<char>> {
    seq!["Microsoft.Quantum.Canon"@, "Microsoft.Quantum.Core"@, "Microsoft.Quantum.Intrinsic"@]
}

/// The prelude definition of `name`: the first prelude namespace in order
/// that defines it. By construction the prelude namespaces define no
/// overlapping names, so at most one of them has the name at all.
pub open spec fn prelude_hit(
    globals: Seq<(String, String, DefId)>,
    name: Seq<char>,
) -> Option<DefId> {
    if global_lookup(globals, prelude()[0], name) is Some {
        global_lookup(globals, prelude()[0], name)
    } else if global_lookup(globals, prelude()[1], name) is Some {
        global_lookup(globals, prelude()[1], name)
    } else {
        global_lookup(globals, prelude()[2], name)
    }
}

/// The two given spans in increasing source order.
pub open spec fn order2(a: Span, b: Span) -> (Span, Span) {
    if span_lt(b, a) {
        (b, a)
    } else {
        (a, b)
    }
}

/// The best pair updated with one more span.
pub open spec fn upd2(best: (Span, Span), x: Span) -> (Span, Span) {
    if span_lt(x, best.0) {
        (x, best.0)
    } else if span_lt(x, best.1) {
        (best.0, x)
    } else {
        best
    }
}

/// The two earliest spans among the candidates' introducing directives, in
/// increasing order. Meaningful once there are at least two candidates.
pub open spec fn best_two(cands: Seq<(DefId, Span)>) -> (Span, Span)
    recommends
        cands.len() >= 2,
    decreases cands.len(),
{
    if cands.len() <= 2 {
        order2(cands[0].1, cands[1].1)
    } else {
        upd2(best_two(cands.drop_last()), cands.last().1)
    }
}

/// What resolution returns for `path`, given the global table for the
/// position (types or terms), the opens in force, the enclosing namespace
/// and the lexical scope stack (innermost scope last; empty in type
/// position). This is the five-tier shadowing rule itself.
pub open spec fn resolve_model(
    globals: Seq<(String, String, DefId)>,
    opens: Seq<OpenV>,
    parent: Seq<char>,
    locals: Seq<Seq<(String, DefId)>>,
    path: Path,
) -> Result<DefId, ErrorV> {
    let name = path.name.name@;
    let alias = qualifier(path);
    if alias.len() == 0 && stack_lookup(locals, name) is Some {
        // Locals shadow everything.
        Ok(stack_lookup(locals, name).unwrap())
    } else if alias.len() == 0 && global_lookup(globals, parent, name) is Some {
        // Items in the enclosing namespace shadow opens.
        Ok(global_lookup(globals, parent, name).unwrap())
    } else {
        // Explicit opens shadow the prelude and unopened globals.
        let cands = open_cands(globals, opens, alias, name);
        if cands.len() == 1 {
            Ok(cands[0].0)
        } else if cands.len() == 0 {
            if alias.len() == 0 && prelude_hit(globals, name) is Some {
                // The prelude shadows unopened globals.
                Ok(prelude_hit(globals, name).unwrap())
            } else if global_lookup(globals, alias, name) is Some {
                // An unopened global is the last resort.
                Ok(global_lookup(globals, alias, name).unwrap())
            } else {
                Err(ErrorV::NotFound(name, path.span))
            }
        } else {
            let spans = best_two(cands);
            Err(ErrorV::Ambiguous(name, path.span, spans.0, spans.1))
        }
    }
}

/// A resolution result with its error, if any, taken to its mathematical
/// shape.
pub open spec fn result_v(r: Result<DefId, Error>) -> Result<DefId, ErrorV> {
    match r {
        Ok(id) => Ok(id),
        Err(e) => Err(e@),
    }
}

fn scope_get_from(scope: &Vec<(String, DefId)>, name: &String, i: usize) -> (r: Option<DefId>)
    requires
        i <= scope@.len(),
    ensures
        r == scope_lookup(scope@.take(i as int), name@),
    decreases i,
{
    if i == 0 {
        None
    } else {
        proof {
            assert(scope@.take(i as int).last() == scope@[i - 1]);
            assert(scope@.take(i as int).drop_last() =~= scope@.take(i - 1));
        }
        let e = &scope[i - 1];
        if e.0 == *name {
            Some(e.1)
        } else {
            scope_get_from(scope, name, i - 1)
        }
    }
}

/// The binding of `name` in one scope, if any: the latest one wins.
fn scope_get(scope: &Vec<(String, DefId)>, name: &String) -> (r: Option<DefId>)
    ensures
        r == scope_lookup(scope@, name@),
{
    let r = scope_get_from(scope, name, scope.len());
    proof {
        assert(scope@.take(scope@.len() as int) =~= scope@);
    }
    r
}

fn stack_get_from(
    locals: &Vec<Vec<(String, DefId)>>,
    name: &String,
    i: usize,
) -> (r: Option<DefId>)
    requires
        i <= locals@.len(),
    ensures
        r == stack_lookup(scopes_v(locals@.take(i as int)), name@),
    decreases i,
{
    if i == 0 {
        proof {
            assert(scopes_v(locals@.take(0)) =~= Seq::<Seq<(String, DefId)>>::empty());
        }
        None
    } else {
        proof {
            assert(scopes_v(locals@.take(i as int)).last() == locals@[i - 1]@);
            assert(scopes_v(locals@.take(i as int)).drop_last() =~= scopes_v(
                locals@.take(i - 1),
            ));
        }
        match scope_get(&locals[i - 1], name) {
            Some(id) => Some(id),
            None => stack_get_from(locals, name, i - 1),
        }
    }
}

/// The innermost binding of `name` on the scope stack, if any.
pub fn locals_get(locals: &Vec<Vec<(String, DefId)>>, name: &String) -> (r: Option<DefId>)
    ensures
        r == stack_lookup(scopes_v(locals@), name@),
{
    let r = stack_get_from(locals, name, locals.len());
    proof {
        assert(locals@.take(locals@.len() as int) =~= locals@);
    }
    r
}

fn has_cand(cands: &Vec<(DefId, Span)>, id: DefId) -> (r: bool)
    ensures
        r == cands_have(cands@, id),
{
    let mut i: usize = 0;
    while i < cands.len()
        invariant
            i <= cands@.len(),
            forall|j: int| 0 <= j < i ==> cands@[j].0 != id,
        decreases cands@.len() - i,
    {
        if cands[i].0 == id {
            return true;
        }
        i += 1;
    }
    false
}

fn span_before(a: Span, b: Span) -> (r: bool)
    ensures
        r == span_lt(a, b),
{
    a.lo < b.lo || (a.lo == b.lo && a.hi < b.hi)
}

/// The prelude definition of `name`, if a prelude namespace defines it.
fn prelude_get(globals: &Globals, name: &String) -> (r: Option<DefId>)
    ensures
        r == prelude_hit(globals@, name@),
{
    let canon = String::from_str("Microsoft.Quantum.Canon");
    match globals.get(&canon, name) {
        Some(id) => Some(id),
        None => {
            let core = String::from_str("Microsoft.Quantum.Core");
            match globals.get(&core, name) {
                Some(id) => Some(id),
                None => {
                    let intrinsic = String::from_str("Microsoft.Quantum.Intrinsic");
                    globals.get(&intrinsic, name)
                },
            }
        },
    }
}

/// Resolves one path occurrence against the given tables, or says why it
/// cannot be resolved. `globals` is the table for the occurrence's position
/// (type or term names); `locals` is empty in type position.
#[verifier::loop_isolation(false)]
pub fn resolve(
    globals: &Globals,
    opens: &OpenTable,
    parent: &String,
    locals: &Vec<Vec<(String, DefId)>>,
    path: &Path,
) -> (r: Result<DefId, Error>)
    ensures
        result_v(r) == resolve_model(globals@, opens_v(opens@), parent@, scopes_v(locals@), *path),
{
    let name = &path.name.name;
    let unaliased = String::new();
    let alias: &String = match &path.namespace {
        Some(ident) => &ident.name,
        None => &unaliased,
    };
    proof {
        assert(alias@ == qualifier(*path));
    }
    let unqualified = alias.as_str().is_empty();
    if unqualified {
        if let Some(id) = locals_get(locals, name) {
            // Locals shadow everything.
            return Ok(id);
        }
        if let Some(id) = globals.get(parent, name) {
            // Items in the enclosing namespace shadow opens.
            return Ok(id);
        }
    }

    // Explicit opens shadow the prelude and unopened globals.
    let mut cands: Vec<(DefId, Span)> = Vec::new();
    let mut i: usize = 0;
    while i < opens.entries.len()
        invariant
            i <= opens@.len(),
            cands@ == open_cands(globals@, opens_v(opens@.take(i as int)), alias@, name@),
        decreases opens@.len() - i,
    {
        let e = &opens.entries[i];
        if e.alias == *alias {
            match globals.get(&e.ns, name) {
                Some(id) => {
                    if !has_cand(&cands, id) {
                        cands.push((id, e.span));
                    }
                },
                None => {},
            }
        }
        i += 1;
        proof {
            assert(opens_v(opens@.take(i as int)).last() == opens@[i - 1]@);
            assert(opens_v(opens@.take(i as int)).drop_last() =~= opens_v(opens@.take(i - 1)));
        }
    }
    proof {
        assert(opens@.take(opens@.len() as int) =~= opens@);
    }

    if cands.len() == 1 {
        return Ok(cands[0].0);
    }
    if cands.len() == 0 {
        if unqualified {
            if let Some(id) = prelude_get(globals, name) {
                // The prelude shadows unopened globals.
                return Ok(id);
            }
        }
        if let Some(id) = globals.get(alias, name) {
            // An unopened global is the last resort.
            return Ok(id);
        }
        return Err(Error::NotFound(name.clone(), path.span));
    }

    // Two or more distinct candidates: report the two earliest opening
    // directives in source order.
    let mut first = cands[0].1;
    let mut second = cands[1].1;
    if span_before(second, first) {
        let tmp = first;
        first = second;
        second = tmp;
    }
    let mut j: usize = 2;
    while j < cands.len()
        invariant
            2 <= j <= cands@.len(),
            (first, second) == best_two(cands@.take(j as int)),
        decreases cands@.len() - j,
    {
        let x = cands[j].1;
        if span_before(x, first) {
            second = first;
            first = x;
        } else if span_before(x, second) {
            second = x;
        }
        j += 1;
        proof {
            assert(cands@.take(j as int).last() == cands@[j - 1]);
            assert(cands@.take(j as int).drop_last() =~= cands@.take(j - 1));
        }
    }
    proof {
        assert(cands@.take(cands@.len() as int) =~= cands@);
    }
    Err(Error::Ambiguous(name.clone(), path.span, first, second))
}

} // verus!
