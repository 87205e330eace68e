//! The guarantees the classification pass gives as a whole, stated over the
//! specifications its contracts use and proved once and for all.

use vstd::prelude::*;

use crate::classify::Classification;
use crate::classify::classification_ok;
use crate::classify::decl_rewritten;
use crate::classify::decls_bucket_sources;
use crate::classify::is_ident_decl;
use crate::classify::is_rewrite_of;
use crate::classify::module_bucket_sources;
use crate::classify::module_bucket_sources_upto;
use crate::classify::routes_to;
use crate::classify::seq_rewrites;
use crate::classify::stmt_rewritten;
use crate::model::Binding;
use crate::model::Declarator;
use crate::model::Module;
use crate::model::Stmt;
use crate::names::Bucket;

verus! {

/// Bucket exclusivity: a declarator that binds a simple identifier is routed
/// to one of the three buckets, and never to two of them.
pub proof fn lemma_bucket_exclusivity(d: Declarator)
    requires
        is_ident_decl(d),
    ensures
        routes_to(d, Bucket::PageServer) || routes_to(d, Bucket::Server) || routes_to(
            d,
            Bucket::Client,
        ),
        forall|b1: Bucket, b2: Bucket|
            routes_to(d, b1) && routes_to(d, b2) ==> b1 == b2,
{
}

/// The number of the first `n` declarators of `ds` that bind a simple
/// identifier.
pub open spec fn count_idents(ds: Seq<Declarator>, n: int) -> int
    decreases n,
{
    if n <= 0 {
        0
    } else {
        count_idents(ds, n - 1) + if is_ident_decl(ds[n - 1]) {
            1int
        } else {
            0int
        }
    }
}

/// The number of identifier-bound declarators a statement exports.
pub open spec fn stmt_count_idents(s: Stmt) -> int {
    match s {
        Stmt::ExportVars(ev) => count_idents(ev.decls@, ev.decls@.len() as int),
        _ => 0,
    }
}

/// The number of identifier-bound declarators the first `n` statements of
/// `m` export.
pub open spec fn module_count_idents(m: Module, n: int) -> int
    decreases n,
{
    if n <= 0 {
        0
    } else {
        module_count_idents(m, n - 1) + stmt_count_idents(m.body@[n - 1])
    }
}

proof fn lemma_decls_partition(ds: Seq<Declarator>, n: int)
    requires
        0 <= n,
    ensures
        decls_bucket_sources(ds, Bucket::PageServer, n).len() + decls_bucket_sources(
            ds,
            Bucket::Server,
            n,
        ).len() + decls_bucket_sources(ds, Bucket::Client, n).len() == count_idents(ds, n),
    decreases n,
{
    if n > 0 {
        lemma_decls_partition(ds, n - 1);
        if is_ident_decl(ds[n - 1]) {
            lemma_bucket_exclusivity(ds[n - 1]);
        }
    }
}

proof fn lemma_module_partition_upto(m: Module, n: int)
    requires
        0 <= n,
    ensures
        module_bucket_sources_upto(m, Bucket::PageServer, n).len()
            + module_bucket_sources_upto(m, Bucket::Server, n).len()
            + module_bucket_sources_upto(m, Bucket::Client, n).len() == module_count_idents(m, n),
    decreases n,
{
    if n > 0 {
        lemma_module_partition_upto(m, n - 1);
        match m.body@[n - 1] {
            Stmt::ExportVars(ev) => {
                lemma_decls_partition(ev.decls@, ev.decls@.len() as int);
            },
            _ => {},
        }
    }
}

/// Together the three buckets account for every identifier-bound declarator
/// of a module exactly once: the routing is a partition.
pub proof fn lemma_buckets_partition(m: Module)
    ensures
        module_bucket_sources(m, Bucket::PageServer).len() + module_bucket_sources(
            m,
            Bucket::Server,
        ).len() + module_bucket_sources(m, Bucket::Client).len() == module_count_idents(
            m,
            m.body@.len() as int,
        ),
{
    lemma_module_partition_upto(m, m.body@.len() as int);
}

/// A declarator that binds a destructuring pattern is routed to no bucket.
pub proof fn lemma_destructured_not_routed(d: Declarator, b: Bucket)
    requires
        d.name matches Some(Binding::Destructured),
    ensures
        !routes_to(d, b),
{
}

proof fn lemma_decls_sources_routed(ds: Seq<Declarator>, b: Bucket, n: int, k: int)
    requires
        0 <= k < decls_bucket_sources(ds, b, n).len(),
    ensures
        routes_to(decls_bucket_sources(ds, b, n)[k], b),
    decreases n,
{
    if n > 0 {
        let prev = decls_bucket_sources(ds, b, n - 1);
        if k < prev.len() {
            lemma_decls_sources_routed(ds, b, n - 1, k);
        }
    }
}

proof fn lemma_module_sources_routed_upto(m: Module, b: Bucket, n: int, k: int)
    requires
        0 <= k < module_bucket_sources_upto(m, b, n).len(),
    ensures
        routes_to(module_bucket_sources_upto(m, b, n)[k], b),
    decreases n,
{
    if n > 0 {
        let prev = module_bucket_sources_upto(m, b, n - 1);
        if k < prev.len() {
            lemma_module_sources_routed_upto(m, b, n - 1, k);
        } else {
            match m.body@[n - 1] {
                Stmt::ExportVars(ev) => {
                    lemma_decls_sources_routed(
                        ev.decls@,
                        b,
                        ev.decls@.len() as int,
                        k - prev.len(),
                    );
                },
                _ => {},
            }
        }
    }
}

/// Every declarator a bucket's source list picks up binds a simple
/// identifier and is routed to exactly that bucket; in particular a
/// destructuring declarator appears in none of the three lists.
pub proof fn lemma_bucket_sources_are_routed(m: Module, b: Bucket, k: int)
    requires
        0 <= k < module_bucket_sources(m, b).len(),
    ensures
        routes_to(module_bucket_sources(m, b)[k], b),
        is_ident_decl(module_bucket_sources(m, b)[k]),
{
    lemma_module_sources_routed_upto(m, b, m.body@.len() as int, k);
}

/// Every entry of every bucket list of a successful pass binds a simple
/// identifier: declarators with destructuring patterns reach no bucket.
pub proof fn lemma_bucket_entries_bind_idents(m: Module, c: Classification)
    requires
        classification_ok(c, m),
    ensures
        forall|k: int| 0 <= k < c.page_server@.len() ==> is_ident_decl(#[trigger] c.page_server@[k]),
        forall|k: int| 0 <= k < c.server@.len() ==> is_ident_decl(#[trigger] c.server@[k]),
        forall|k: int| 0 <= k < c.client@.len() ==> is_ident_decl(#[trigger] c.client@[k]),
{
}

/// The same binding, up to the spelling of the identifier it holds.
pub open spec fn binding_equiv(a: Option<Binding>, b: Option<Binding>) -> bool {
    match (a, b) {
        (Some(Binding::Ident(x)), Some(Binding::Ident(y))) => x@ == y@,
        (Some(Binding::Destructured), Some(Binding::Destructured)) => true,
        (None, None) => true,
        _ => false,
    }
}

/// The same declarator, up to the spelling of its identifier.
pub open spec fn decl_equiv(a: Declarator, b: Declarator) -> bool {
    binding_equiv(a.name, b.name) && a.init == b.init
}

/// The same declarator list, entry for entry.
pub open spec fn seq_decl_equiv(a: Seq<Declarator>, b: Seq<Declarator>) -> bool {
    a.len() == b.len() && forall|k: int| 0 <= k < a.len() ==> decl_equiv(#[trigger] a[k], b[k])
}

/// The same statement, up to the spelling of identifiers.
pub open spec fn stmt_equiv(a: Stmt, b: Stmt) -> bool {
    match (a, b) {
        (Stmt::ExportVars(x), Stmt::ExportVars(y)) => x.kind == y.kind && x.declare == y.declare
            && seq_decl_equiv(x.decls@, y.decls@),
        _ => a == b,
    }
}

proof fn lemma_rewrite_deterministic(o1: Declarator, o2: Declarator, d: Declarator)
    requires
        is_rewrite_of(o1, d),
        is_rewrite_of(o2, d),
    ensures
        decl_equiv(o1, o2),
{
}

proof fn lemma_decl_rewritten_deterministic(o1: Declarator, o2: Declarator, d: Declarator)
    requires
        decl_rewritten(o1, d),
        decl_rewritten(o2, d),
    ensures
        decl_equiv(o1, o2),
{
    if is_ident_decl(d) {
        lemma_rewrite_deterministic(o1, o2, d);
    }
}

proof fn lemma_seq_rewrites_deterministic(o1: Seq<Declarator>, o2: Seq<Declarator>, src: Seq<
    Declarator,
>)
    requires
        seq_rewrites(o1, src),
        seq_rewrites(o2, src),
    ensures
        seq_decl_equiv(o1, o2),
{
    assert forall|k: int| 0 <= k < o1.len() implies decl_equiv(#[trigger] o1[k], o2[k]) by {
        lemma_rewrite_deterministic(o1[k], o2[k], src[k]);
    }
}

/// Placeholder determinism: two successful classifications of one module
/// agree — statement for statement, bucket for bucket, placeholder for
/// placeholder, and warning for warning.
pub proof fn lemma_classification_deterministic(
    m: Module,
    c1: Classification,
    c2: Classification,
)
    requires
        classification_ok(c1, m),
        classification_ok(c2, m),
    ensures
        c1.module.body@.len() == c2.module.body@.len(),
        forall|i: int|
            0 <= i < m.body@.len() ==> stmt_equiv(
                (#[trigger] c1.module.body@[i]),
                c2.module.body@[i],
            ),
        seq_decl_equiv(c1.page_server@, c2.page_server@),
        seq_decl_equiv(c1.server@, c2.server@),
        seq_decl_equiv(c1.client@, c2.client@),
        c1.warnings@ == c2.warnings@,
{
    assert forall|i: int| 0 <= i < m.body@.len() implies stmt_equiv(
        (#[trigger] c1.module.body@[i]),
        c2.module.body@[i],
    ) by {
        let s = m.body@[i];
        let a = c1.module.body@[i];
        let b = c2.module.body@[i];
        assert(stmt_rewritten(a, s));
        assert(stmt_rewritten(b, s));
        match s {
            Stmt::ExportVars(ev) => {
                match (a, b) {
                    (Stmt::ExportVars(x), Stmt::ExportVars(y)) => {
                        assert forall|j: int| 0 <= j < x.decls@.len() implies decl_equiv(
                            (#[trigger] x.decls@[j]),
                            y.decls@[j],
                        ) by {
                            lemma_decl_rewritten_deterministic(
                                x.decls@[j],
                                y.decls@[j],
                                ev.decls@[j],
                            );
                        }
                    },
                    _ => {},
                }
            },
            _ => {},
        }
    }
    lemma_seq_rewrites_deterministic(
        c1.page_server@,
        c2.page_server@,
        module_bucket_sources(m, Bucket::PageServer),
    );
    lemma_seq_rewrites_deterministic(
        c1.server@,
        c2.server@,
        module_bucket_sources(m, Bucket::Server),
    );
    lemma_seq_rewrites_deterministic(
        c1.client@,
        c2.client@,
        module_bucket_sources(m, Bucket::Client),
    );
}

} // verus!
