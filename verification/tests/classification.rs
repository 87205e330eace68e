use export_classifier::classify;
use export_classifier::Binding;
use export_classifier::ClassifyError;
use export_classifier::DeclKind;
use export_classifier::Declarator;
use export_classifier::ExportVars;
use export_classifier::InitExpr;
use export_classifier::Module;
use export_classifier::Stmt;
use export_classifier::UnsupportedBindingPattern;

fn ident_decl(name: &str, end: Option<u32>) -> Declarator {
    Declarator {
        name: Some(Binding::Ident(String::from(name))),
        init: end.map(|e| InitExpr::Opaque { end: e }),
    }
}

fn export_of(decls: Vec<Declarator>) -> Stmt {
    Stmt::ExportVars(ExportVars { kind: DeclKind::Const, declare: false, decls })
}

fn name_of(d: &Declarator) -> &str {
    match &d.name {
        Some(Binding::Ident(s)) => s.as_str(),
        _ => panic!("declarator does not bind an identifier"),
    }
}

#[test]
fn client_prefix_stripped() {
    let m = Module { body: vec![export_of(vec![ident_decl("client_load", Some(10))])] };
    let c = classify(&m).unwrap();
    assert_eq!(c.client.len(), 1);
    assert_eq!(name_of(&c.client[0]), "load");
    assert_eq!(c.client[0].init, Some(InitExpr::Num { value: 10 }));
    assert_eq!(c.page_server.len(), 0);
    assert_eq!(c.server.len(), 0);
}

#[test]
fn server_prefix_stripped() {
    let m = Module { body: vec![export_of(vec![ident_decl("server_load", Some(21))])] };
    let c = classify(&m).unwrap();
    assert_eq!(c.page_server.len(), 1);
    assert_eq!(name_of(&c.page_server[0]), "load");
    assert_eq!(c.page_server[0].init, Some(InitExpr::Num { value: 21 }));
    assert_eq!(c.client.len(), 0);
    assert_eq!(c.server.len(), 0);
}

#[test]
fn actions_kept_in_page_server() {
    let m = Module { body: vec![export_of(vec![ident_decl("actions", Some(5))])] };
    let c = classify(&m).unwrap();
    assert_eq!(c.page_server.len(), 1);
    assert_eq!(name_of(&c.page_server[0]), "actions");
}

#[test]
fn http_verbs_kept_in_server() {
    let verbs = ["GET", "POST", "PUT", "PATCH", "DELETE"];
    let decls: Vec<Declarator> =
        verbs.iter().map(|v| ident_decl(v, Some(1))).collect();
    let m = Module { body: vec![export_of(decls)] };
    let c = classify(&m).unwrap();
    assert_eq!(c.server.len(), verbs.len());
    for (d, v) in c.server.iter().zip(verbs.iter()) {
        assert_eq!(name_of(d), *v);
    }
    assert_eq!(c.page_server.len(), 0);
    assert_eq!(c.client.len(), 0);
}

#[test]
fn default_bucket_is_server() {
    let m = Module { body: vec![export_of(vec![ident_decl("helperFn", Some(33))])] };
    let c = classify(&m).unwrap();
    assert_eq!(c.server.len(), 1);
    assert_eq!(name_of(&c.server[0]), "helperFn");
    assert_eq!(c.page_server.len(), 0);
    assert_eq!(c.client.len(), 0);
}

#[test]
fn each_declarator_lands_in_exactly_one_bucket() {
    let m = Module {
        body: vec![export_of(vec![
            ident_decl("client_load", Some(1)),
            ident_decl("server_load", Some(2)),
            ident_decl("GET", Some(3)),
            ident_decl("helperFn", Some(4)),
        ])],
    };
    let c = classify(&m).unwrap();
    assert_eq!(c.client.len(), 1);
    assert_eq!(c.page_server.len(), 1);
    assert_eq!(c.server.len(), 2);
    assert_eq!(c.client.len() + c.page_server.len() + c.server.len(), 4);
    let placeholders: Vec<u32> = [&c.client[0], &c.page_server[0], &c.server[0], &c.server[1]]
        .iter()
        .map(|d| match d.init {
            Some(InitExpr::Num { value }) => value,
            _ => panic!("initializer was not rewritten"),
        })
        .collect();
    assert_eq!(placeholders, vec![1, 2, 3, 4]);
}

#[test]
fn non_export_statements_pass_through() {
    let m = Module {
        body: vec![
            Stmt::Other(7),
            export_of(vec![ident_decl("client_load", Some(2))]),
            Stmt::Other(9),
        ],
    };
    let c = classify(&m).unwrap();
    assert_eq!(c.module.body.len(), 3);
    assert_eq!(c.module.body[0], Stmt::Other(7));
    assert_eq!(c.module.body[2], Stmt::Other(9));
}

#[test]
fn rewritten_export_keeps_kind_and_declare() {
    let m = Module {
        body: vec![Stmt::ExportVars(ExportVars {
            kind: DeclKind::Let,
            declare: true,
            decls: vec![ident_decl("GET", None)],
        })],
    };
    let c = classify(&m).unwrap();
    match &c.module.body[0] {
        Stmt::ExportVars(ev) => {
            assert_eq!(ev.kind, DeclKind::Let);
            assert!(ev.declare);
            assert_eq!(ev.decls.len(), 1);
            assert_eq!(name_of(&ev.decls[0]), "GET");
            assert_eq!(ev.decls[0].init, None);
        }
        _ => panic!("export was not rewritten in place"),
    }
}

#[test]
fn placeholders_are_deterministic() {
    let build = || Module {
        body: vec![
            Stmt::Other(0),
            export_of(vec![
                ident_decl("client_load", Some(120)),
                ident_decl("actions", Some(240)),
            ]),
        ],
    };
    let c1 = classify(&build()).unwrap();
    let c2 = classify(&build()).unwrap();
    assert_eq!(c1.module, c2.module);
    assert_eq!(c1.client, c2.client);
    assert_eq!(c1.page_server, c2.page_server);
    assert_eq!(c1.server, c2.server);
    assert_eq!(c1.warnings, c2.warnings);
}

#[test]
fn reclassifying_own_output_differs() {
    let m = Module { body: vec![export_of(vec![ident_decl("client_load", Some(64))])] };
    let first = classify(&m).unwrap();
    let second = classify(&first.module).unwrap();
    // the stripped name no longer matches the client table: it falls to the
    // default bucket, and the synthesized literal has no source extent
    assert_eq!(second.client.len(), 0);
    assert_eq!(second.server.len(), 1);
    assert_eq!(name_of(&second.server[0]), "load");
    assert_eq!(second.server[0].init, Some(InitExpr::Num { value: 0 }));
}

#[test]
fn destructured_declarator_skipped_with_warning() {
    let destructured = Declarator {
        name: Some(Binding::Destructured),
        init: Some(InitExpr::Opaque { end: 55 }),
    };
    let m = Module {
        body: vec![
            Stmt::Other(1),
            export_of(vec![destructured.clone(), ident_decl("client_load", Some(8))]),
        ],
    };
    let c = classify(&m).unwrap();
    match &c.module.body[1] {
        Stmt::ExportVars(ev) => assert_eq!(ev.decls[0], destructured),
        _ => panic!("export was not rewritten in place"),
    }
    assert_eq!(c.client.len(), 1);
    assert_eq!(c.page_server.len(), 0);
    assert_eq!(c.server.len(), 0);
    assert_eq!(c.warnings, vec![UnsupportedBindingPattern { stmt: 1, decl: 0 }]);
}

#[test]
fn malformed_export_aborts() {
    let m = Module {
        body: vec![export_of(vec![ident_decl("client_load", Some(2))]), Stmt::ExportOther],
    };
    assert_eq!(classify(&m), Err(ClassifyError::MalformedExport));
}

#[test]
fn missing_binding_aborts() {
    let m = Module {
        body: vec![export_of(vec![Declarator { name: None, init: None }])],
    };
    assert_eq!(classify(&m), Err(ClassifyError::MalformedExport));
}

#[test]
fn empty_module_yields_empty_result() {
    let m = Module { body: vec![] };
    let c = classify(&m).unwrap();
    assert_eq!(c.module.body.len(), 0);
    assert_eq!(c.page_server.len(), 0);
    assert_eq!(c.server.len(), 0);
    assert_eq!(c.client.len(), 0);
    assert_eq!(c.warnings.len(), 0);
}

#[test]
fn duplicate_names_are_appended() {
    let m = Module {
        body: vec![
            export_of(vec![ident_decl("client_load", Some(3))]),
            export_of(vec![ident_decl("client_load", Some(9))]),
        ],
    };
    let c = classify(&m).unwrap();
    assert_eq!(c.client.len(), 2);
    assert_eq!(c.client[0].init, Some(InitExpr::Num { value: 3 }));
    assert_eq!(c.client[1].init, Some(InitExpr::Num { value: 9 }));
}

#[test]
fn declarator_without_initializer_stays_bare() {
    let m = Module { body: vec![export_of(vec![ident_decl("server_load", None)])] };
    let c = classify(&m).unwrap();
    assert_eq!(c.page_server.len(), 1);
    assert_eq!(name_of(&c.page_server[0]), "load");
    assert_eq!(c.page_server[0].init, None);
}

#[test]
fn end_offset_of_synthesized_literal_is_zero() {
    let e = InitExpr::Num { value: 77 };
    assert_eq!(e.end_offset(), 0);
    let o = InitExpr::Opaque { end: 12 };
    assert_eq!(o.end_offset(), 12);
}
