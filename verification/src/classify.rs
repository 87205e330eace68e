//! The classification pass: route every exported declarator of a module to
//! its bucket, rewrite its name and initializer, and pass every other
//! statement through unchanged.

use vstd::prelude::*;

use crate::model::Binding;
use crate::model::Declarator;
use crate::model::ExportVars;
use crate::model::InitExpr;
use crate::model::Module;
use crate::model::Stmt;
use crate::model::UnsupportedBindingPattern;
use crate::model::expr_end;
use crate::names::Bucket;
use crate::names::bucket_of;
use crate::names::rewritten_name;

verus! {

/// The fatal error: an export declaration does not wrap a variable
/// declaration, or a declarator lacks a binding.  It aborts the whole pass;
/// no partial module is returned.
#[derive(Clone, Copy, Debug, PartialEq, Eq, Structural)]
pub enum ClassifyError {
    MalformedExport,
}

/// The outcome of a successful pass: the rewritten module, the three bucket
/// lists in encounter order, and the non-fatal warnings in encounter order.
#[derive(Debug, PartialEq, Eq)]
pub struct Classification {
    pub module: Module,
    pub page_server: Vec<Declarator>,
    pub server: Vec<Declarator>,
    pub client: Vec<Declarator>,
    pub warnings: Vec<UnsupportedBindingPattern>,
}

/// A classifiable declarator: one whose binding is a simple identifier.
pub open spec fn is_ident_decl(d: Declarator) -> bool {
    d.name matches Some(Binding::Ident(_))
}

/// The identifier a classifiable declarator binds.
pub open spec fn decl_name(d: Declarator) -> Seq<char>
    recommends
        is_ident_decl(d),
{
    match d.name {
        Some(Binding::Ident(n)) => n@,
        _ => Seq::empty(),
    }
}

/// The bucket a classifiable declarator is routed to.
pub open spec fn decl_bucket(d: Declarator) -> Bucket
    recommends
        is_ident_decl(d),
{
    bucket_of(decl_name(d))
}

/// The pass routes declarator `d` to bucket `b`.
pub open spec fn routes_to(d: Declarator, b: Bucket) -> bool {
    is_ident_decl(d) && decl_bucket(d) == b
}

/// `out` is the rewrite of the classifiable declarator `d`: the convention
/// prefix is stripped from its name, and a present initializer is replaced by
/// a numeric placeholder holding the original initializer's end offset.
pub open spec fn is_rewrite_of(out: Declarator, d: Declarator) -> bool {
    &&& is_ident_decl(d)
    &&& out.name matches Some(Binding::Ident(n)) && n@ == rewritten_name(decl_name(d))
    &&& match (d.init, out.init) {
        (Some(e), Some(InitExpr::Num { value })) => value == expr_end(e),
        (None, None) => true,
        _ => false,
    }
}

/// `out` is what the pass makes of declarator `d`: a rewrite when `d` binds a
/// simple identifier, `d` itself when it binds a destructuring pattern.
pub open spec fn decl_rewritten(out: Declarator, d: Declarator) -> bool {
    if is_ident_decl(d) {
        is_rewrite_of(out, d)
    } else {
        out == d
    }
}

/// A statement the pass accepts: not a malformed export, with every
/// declarator of an exported variable declaration carrying a binding.
pub open spec fn stmt_well_formed(s: Stmt) -> bool {
    match s {
        Stmt::ExportVars(ev) => forall|j: int|
            0 <= j < ev.decls@.len() ==> (#[trigger] ev.decls@[j]).name is Some,
        Stmt::ExportOther => false,
        Stmt::Other(_) => true,
    }
}

/// A module the pass accepts in full.
pub open spec fn module_well_formed(m: Module) -> bool {
    forall|i: int| 0 <= i < m.body@.len() ==> stmt_well_formed(#[trigger] m.body@[i])
}

/// `out` is what the pass makes of statement `s`: an export of variable
/// declarations has its kind and `declare` flag copied and each declarator
/// rewritten in place; any other statement is `s` itself.
pub open spec fn stmt_rewritten(out: Stmt, s: Stmt) -> bool {
    match s {
        Stmt::ExportVars(ev) => {
            &&& out matches Stmt::ExportVars(ov)
            &&& ov.kind == ev.kind
            &&& ov.declare == ev.declare
            &&& ov.decls@.len() == ev.decls@.len()
            &&& forall|j: int|
                0 <= j < ev.decls@.len() ==> decl_rewritten(
                    (#[trigger] ov.decls@[j]),
                    ev.decls@[j],
                )
        },
        Stmt::ExportOther => false,
        Stmt::Other(_) => out == s,
    }
}

/// The first `n` declarators of `ds` that the pass routes to bucket `b`, in
/// order, as they stand in the input.
pub open spec fn decls_bucket_sources(ds: Seq<Declarator>, b: Bucket, n: int) -> Seq<Declarator>
    decreases n,
{
    if n <= 0 {
        Seq::empty()
    } else if routes_to(ds[n - 1], b) {
        decls_bucket_sources(ds, b, n - 1).push(ds[n - 1])
    } else {
        decls_bucket_sources(ds, b, n - 1)
    }
}

/// The declarators of statement `s` that the pass routes to bucket `b`.
pub open spec fn stmt_bucket_sources(s: Stmt, b: Bucket) -> Seq<Declarator> {
    match s {
        Stmt::ExportVars(ev) => decls_bucket_sources(ev.decls@, b, ev.decls@.len() as int),
        _ => Seq::empty(),
    }
}

/// The declarators of the first `n` statements of `m` that the pass routes to
/// bucket `b`, in encounter order.
pub open spec fn module_bucket_sources_upto(m: Module, b: Bucket, n: int) -> Seq<Declarator>
    decreases n,
{
    if n <= 0 {
        Seq::empty()
    } else {
        module_bucket_sources_upto(m, b, n - 1) + stmt_bucket_sources(m.body@[n - 1], b)
    }
}

/// All declarators of `m` that the pass routes to bucket `b`, in encounter
/// order.
pub open spec fn module_bucket_sources(m: Module, b: Bucket) -> Seq<Declarator> {
    module_bucket_sources_upto(m, b, m.body@.len() as int)
}

/// Entry for entry, `out` holds the rewrites of the declarators of `src`.
pub open spec fn seq_rewrites(out: Seq<Declarator>, src: Seq<Declarator>) -> bool {
    &&& out.len() == src.len()
    &&& forall|k: int| 0 <= k < src.len() ==> is_rewrite_of(#[trigger] out[k], src[k])
}

/// The warnings the first `n` declarators of `ds` raise, when `ds` belongs to
/// statement `i`: one per destructuring binding, in order.
pub open spec fn decls_warnings(ds: Seq<Declarator>, i: int, n: int) -> Seq<
    UnsupportedBindingPattern,
>
    decreases n,
{
    if n <= 0 {
        Seq::empty()
    } else if ds[n - 1].name matches Some(Binding::Destructured) {
        decls_warnings(ds, i, n - 1).push(
            UnsupportedBindingPattern { stmt: i as usize, decl: (n - 1) as usize },
        )
    } else {
        decls_warnings(ds, i, n - 1)
    }
}

/// The warnings statement `s` raises when it stands at position `i`.
pub open spec fn stmt_warnings(s: Stmt, i: int) -> Seq<UnsupportedBindingPattern> {
    match s {
        Stmt::ExportVars(ev) => decls_warnings(ev.decls@, i, ev.decls@.len() as int),
        _ => Seq::empty(),
    }
}

/// The warnings the first `n` statements of `m` raise, in encounter order.
pub open spec fn module_warnings_upto(m: Module, n: int) -> Seq<UnsupportedBindingPattern>
    decreases n,
{
    if n <= 0 {
        Seq::empty()
    } else {
        module_warnings_upto(m, n - 1) + stmt_warnings(m.body@[n - 1], n - 1)
    }
}

/// All warnings the pass raises on `m`, in encounter order.
pub open spec fn module_warnings(m: Module) -> Seq<UnsupportedBindingPattern> {
    module_warnings_upto(m, m.body@.len() as int)
}

/// Everything a successful pass promises: the rewritten module matches the
/// input statement for statement, each bucket holds the rewrites of exactly
/// the declarators routed to it in encounter order, and the warnings name
/// exactly the destructuring declarators in encounter order.
pub open spec fn classification_ok(c: Classification, m: Module) -> bool {
    &&& c.module.body@.len() == m.body@.len()
    &&& forall|i: int|
        0 <= i < m.body@.len() ==> stmt_rewritten((#[trigger] c.module.body@[i]), m.body@[i])
    &&& seq_rewrites(c.page_server@, module_bucket_sources(m, Bucket::PageServer))
    &&& seq_rewrites(c.server@, module_bucket_sources(m, Bucket::Server))
    &&& seq_rewrites(c.client@, module_bucket_sources(m, Bucket::Client))
    &&& c.warnings@ == module_warnings(m)
}

proof fn lemma_seq_rewrites_push(
    out: Seq<Declarator>,
    src: Seq<Declarator>,
    o: Declarator,
    d: Declarator,
)
    requires
        seq_rewrites(out, src),
        is_rewrite_of(o, d),
    ensures
        seq_rewrites(out.push(o), src.push(d)),
{
    assert forall|k: int| 0 <= k < src.push(d).len() implies is_rewrite_of(
        #[trigger] out.push(o)[k],
        src.push(d)[k],
    ) by {
        if k < src.len() {
            assert(out.push(o)[k] == out[k]);
            assert(src.push(d)[k] == src[k]);
        } else {
            assert(out.push(o)[k] == o);
            assert(src.push(d)[k] == d);
        }
    }
}

/// Classify and rewrite every exported variable declaration of `m`.
///
/// On success the result holds the rewritten module, the three bucket lists
/// and the warnings; the pass fails, returning nothing else, exactly when
/// some export does not wrap a variable declaration or some declarator lacks
/// a binding.
pub fn classify(m: &Module) -> (r: Result<Classification, ClassifyError>)
    ensures
        match r {
            Ok(c) => module_well_formed(*m) && classification_ok(c, *m),
            Err(e) => !module_well_formed(*m) && e == ClassifyError::MalformedExport,
        },
{
    let mut out_body: Vec<Stmt> = Vec::new();
    let mut page_server: Vec<Declarator> = Vec::new();
    let mut server: Vec<Declarator> = Vec::new();
    let mut client: Vec<Declarator> = Vec::new();
    let mut warnings: Vec<UnsupportedBindingPattern> = Vec::new();
    let n_stmts = m.body.len();
    let mut i: usize = 0;
    while i < n_stmts
        invariant
            n_stmts == m.body@.len(),
            i <= n_stmts,
            out_body@.len() == i,
            forall|k: int| 0 <= k < i ==> stmt_well_formed(#[trigger] m.body@[k]),
            forall|k: int| 0 <= k < i ==> stmt_rewritten((#[trigger] out_body@[k]), m.body@[k]),
            seq_rewrites(
                page_server@,
                module_bucket_sources_upto(*m, Bucket::PageServer, i as int),
            ),
            seq_rewrites(server@, module_bucket_sources_upto(*m, Bucket::Server, i as int)),
            seq_rewrites(client@, module_bucket_sources_upto(*m, Bucket::Client, i as int)),
            warnings@ == module_warnings_upto(*m, i as int),
        decreases n_stmts - i,
    {
        match &m.body[i] {
            Stmt::Other(t) => {
                out_body.push(Stmt::Other(*t));
                proof {
                    assert(module_bucket_sources_upto(*m, Bucket::PageServer, i + 1)
                        =~= module_bucket_sources_upto(*m, Bucket::PageServer, i as int));
                    assert(module_bucket_sources_upto(*m, Bucket::Server, i + 1)
                        =~= module_bucket_sources_upto(*m, Bucket::Server, i as int));
                    assert(module_bucket_sources_upto(*m, Bucket::Client, i + 1)
                        =~= module_bucket_sources_upto(*m, Bucket::Client, i as int));
                    assert(module_warnings_upto(*m, i + 1) =~= module_warnings_upto(
                        *m,
                        i as int,
                    ));
                }
            },
            Stmt::ExportOther => {
                return Err(ClassifyError::MalformedExport);
            },
            Stmt::ExportVars(ev) => {
                let mut new_decls: Vec<Declarator> = Vec::new();
                let n_decls = ev.decls.len();
                proof {
                    assert(module_bucket_sources_upto(*m, Bucket::PageServer, i as int)
                        + decls_bucket_sources(ev.decls@, Bucket::PageServer, 0)
                        =~= module_bucket_sources_upto(*m, Bucket::PageServer, i as int));
                    assert(module_bucket_sources_upto(*m, Bucket::Server, i as int)
                        + decls_bucket_sources(ev.decls@, Bucket::Server, 0)
                        =~= module_bucket_sources_upto(*m, Bucket::Server, i as int));
                    assert(module_bucket_sources_upto(*m, Bucket::Client, i as int)
                        + decls_bucket_sources(ev.decls@, Bucket::Client, 0)
                        =~= module_bucket_sources_upto(*m, Bucket::Client, i as int));
                    assert(module_warnings_upto(*m, i as int) + decls_warnings(
                        ev.decls@,
                        i as int,
                        0,
                    ) =~= module_warnings_upto(*m, i as int));
                }
                let mut j: usize = 0;
                while j < n_decls
                    invariant
                        n_stmts == m.body@.len(),
                        i < n_stmts,
                        m.body@[i as int] == Stmt::ExportVars(*ev),
                        n_decls == ev.decls@.len(),
                        j <= n_decls,
                        new_decls@.len() == j,
                        forall|k: int| 0 <= k < j ==> (#[trigger] ev.decls@[k]).name is Some,
                        forall|k: int|
                            0 <= k < j ==> decl_rewritten(
                                (#[trigger] new_decls@[k]),
                                ev.decls@[k],
                            ),
                        seq_rewrites(
                            page_server@,
                            module_bucket_sources_upto(*m, Bucket::PageServer, i as int)
                                + decls_bucket_sources(
                                ev.decls@,
                                Bucket::PageServer,
                                j as int,
                            ),
                        ),
                        seq_rewrites(
                            server@,
                            module_bucket_sources_upto(*m, Bucket::Server, i as int)
                                + decls_bucket_sources(ev.decls@, Bucket::Server, j as int),
                        ),
                        seq_rewrites(
                            client@,
                            module_bucket_sources_upto(*m, Bucket::Client, i as int)
                                + decls_bucket_sources(ev.decls@, Bucket::Client, j as int),
                        ),
                        warnings@ == module_warnings_upto(*m, i as int) + decls_warnings(
                            ev.decls@,
                            i as int,
                            j as int,
                        ),
                    decreases n_decls - j,
                {
                    let d = &ev.decls[j];
                    match &d.name {
                        None => {
                            proof {
                                assert(ev.decls@[j as int].name is None);
                                assert(!stmt_well_formed(m.body@[i as int]));
                            }
                            return Err(ClassifyError::MalformedExport);
                        },
                        Some(Binding::Destructured) => {
                            new_decls.push(
                                Declarator { name: Some(Binding::Destructured), init: d.init },
                            );
                            warnings.push(UnsupportedBindingPattern { stmt: i, decl: j });
                            proof {
                                assert(new_decls@[j as int] == ev.decls@[j as int]);
                                assert(warnings@ =~= module_warnings_upto(*m, i as int)
                                    + decls_warnings(ev.decls@, i as int, j + 1));
                            }
                        },
                        Some(Binding::Ident(name)) => {
                            let (bucket, new_name) = crate::names::classify_name(name);
                            let new_init = match &d.init {
                                Some(e) => Some(InitExpr::Num { value: e.end_offset() }),
                                None => None,
                            };
                            let bucket_copy = Declarator {
                                name: Some(Binding::Ident(new_name.clone())),
                                init: new_init,
                            };
                            proof {
                                assert(is_rewrite_of(bucket_copy, ev.decls@[j as int]));
                                assert(routes_to(ev.decls@[j as int], bucket));
                            }
                            match bucket {
                                Bucket::PageServer => {
                                    proof {
                                        lemma_seq_rewrites_push(
                                            page_server@,
                                            module_bucket_sources_upto(
                                                *m,
                                                Bucket::PageServer,
                                                i as int,
                                            ) + decls_bucket_sources(
                                                ev.decls@,
                                                Bucket::PageServer,
                                                j as int,
                                            ),
                                            bucket_copy,
                                            ev.decls@[j as int],
                                        );
                                        assert((module_bucket_sources_upto(
                                            *m,
                                            Bucket::PageServer,
                                            i as int,
                                        ) + decls_bucket_sources(
                                            ev.decls@,
                                            Bucket::PageServer,
                                            j as int,
                                        )).push(ev.decls@[j as int])
                                            =~= module_bucket_sources_upto(
                                            *m,
                                            Bucket::PageServer,
                                            i as int,
                                        ) + decls_bucket_sources(
                                            ev.decls@,
                                            Bucket::PageServer,
                                            j + 1,
                                        ));
                                    }
                                    page_server.push(bucket_copy);
                                },
                                Bucket::Server => {
                                    proof {
                                        lemma_seq_rewrites_push(
                                            server@,
                                            module_bucket_sources_upto(
                                                *m,
                                                Bucket::Server,
                                                i as int,
                                            ) + decls_bucket_sources(
                                                ev.decls@,
                                                Bucket::Server,
                                                j as int,
                                            ),
                                            bucket_copy,
                                            ev.decls@[j as int],
                                        );
                                        assert((module_bucket_sources_upto(
                                            *m,
                                            Bucket::Server,
                                            i as int,
                                        ) + decls_bucket_sources(
                                            ev.decls@,
                                            Bucket::Server,
                                            j as int,
                                        )).push(ev.decls@[j as int])
                                            =~= module_bucket_sources_upto(
                                            *m,
                                            Bucket::Server,
                                            i as int,
                                        ) + decls_bucket_sources(
                                            ev.decls@,
                                            Bucket::Server,
                                            j + 1,
                                        ));
                                    }
                                    server.push(bucket_copy);
                                },
                                Bucket::Client => {
                                    proof {
                                        lemma_seq_rewrites_push(
                                            client@,
                                            module_bucket_sources_upto(
                                                *m,
                                                Bucket::Client,
                                                i as int,
                                            ) + decls_bucket_sources(
                                                ev.decls@,
                                                Bucket::Client,
                                                j as int,
                                            ),
                                            bucket_copy,
                                            ev.decls@[j as int],
                                        );
                                        assert((module_bucket_sources_upto(
                                            *m,
                                            Bucket::Client,
                                            i as int,
                                        ) + decls_bucket_sources(
                                            ev.decls@,
                                            Bucket::Client,
                                            j as int,
                                        )).push(ev.decls@[j as int])
                                            =~= module_bucket_sources_upto(
                                            *m,
                                            Bucket::Client,
                                            i as int,
                                        ) + decls_bucket_sources(
                                            ev.decls@,
                                            Bucket::Client,
                                            j + 1,
                                        ));
                                    }
                                    client.push(bucket_copy);
                                },
                            }
                            new_decls.push(
                                Declarator { name: Some(Binding::Ident(new_name)), init: new_init },
                            );
                            proof {
                                assert(warnings@ =~= module_warnings_upto(*m, i as int)
                                    + decls_warnings(ev.decls@, i as int, j + 1));
                            }
                        },
                    }
                    j += 1;
                }
                out_body.push(
                    Stmt::ExportVars(
                        ExportVars { kind: ev.kind, declare: ev.declare, decls: new_decls },
                    ),
                );
                proof {
                    assert(stmt_well_formed(m.body@[i as int]));
                    assert(stmt_rewritten(out_body@[i as int], m.body@[i as int]));
                    assert(stmt_bucket_sources(m.body@[i as int], Bucket::PageServer)
                        == decls_bucket_sources(
                        ev.decls@,
                        Bucket::PageServer,
                        n_decls as int,
                    ));
                    assert(stmt_bucket_sources(m.body@[i as int], Bucket::Server)
                        == decls_bucket_sources(ev.decls@, Bucket::Server, n_decls as int));
                    assert(stmt_bucket_sources(m.body@[i as int], Bucket::Client)
                        == decls_bucket_sources(ev.decls@, Bucket::Client, n_decls as int));
                    assert(module_bucket_sources_upto(*m, Bucket::PageServer, i + 1)
                        == module_bucket_sources_upto(*m, Bucket::PageServer, i as int)
                        + stmt_bucket_sources(m.body@[i as int], Bucket::PageServer));
                    assert(module_bucket_sources_upto(*m, Bucket::Server, i + 1)
                        == module_bucket_sources_upto(*m, Bucket::Server, i as int)
                        + stmt_bucket_sources(m.body@[i as int], Bucket::Server));
                    assert(module_bucket_sources_upto(*m, Bucket::Client, i + 1)
                        == module_bucket_sources_upto(*m, Bucket::Client, i as int)
                        + stmt_bucket_sources(m.body@[i as int], Bucket::Client));
                    assert(module_warnings_upto(*m, i + 1) == module_warnings_upto(*m, i as int)
                        + stmt_warnings(m.body@[i as int], i as int));
                }
            },
        }
        i += 1;
    }
    Ok(
        Classification {
            module: Module { body: out_body },
            page_server,
            server,
            client,
            warnings,
        },
    )
}

} // verus!
