use vstd::prelude::*;
use crate::model::{
    Document, DocumentV, Operation, OperationV, RefV, Schema, SchemaRef, SchemaV,
    document_view, ops_view, schemas_view, operation_view, schema_view, ref_view,
    props_view, refs_view, lemma_props_view, lemma_refs_view,
};
use crate::tree::{
    Tree, TreeV, tree_view, items_view, entries_view, lemma_items_view, lemma_entries_view,
    key_index, tree_height, items_height, entries_height,
    lemma_items_height, lemma_entries_height, apply_overrides_v, apply_overrides, Override,
};

verus! {

// ----------------------------------------------------------------------------
// The strict structural reading of the semi-structured tree into the typed
// document model.  A node whose declared shape disagrees with the model is a
// parse failure, never a guess; that strictness is what the corrective
// overrides exist to satisfy.
// ----------------------------------------------------------------------------

/// The closed set of non-object type names the document model carries
/// untouched.
pub open spec fn known_primitive(tn: Seq<char>) -> bool {
    ||| tn == "string"@
    ||| tn == "number"@
    ||| tn == "integer"@
    ||| tn == "boolean"@
    ||| tn == "array"@
}

/// Strict reading of one schema node.  A schema must either compose with
/// `allOf` or declare its `type`: an `object` collects its `properties`, a
/// known primitive name is carried as-is, and anything else fails.
pub open spec fn parse_schema_v(t: TreeV) -> Option<SchemaV>
    decreases t, 0nat,
{
    match t {
        TreeV::Mapping(es) => {
            let ia = key_index(es, "allOf"@);
            if 0 <= ia < es.len() {
                match es[ia].1 {
                    TreeV::Sequence(items) => match parse_members_v(items) {
                        Some(ms) => Some(SchemaV::AllOf { members: ms }),
                        None => None,
                    },
                    _ => None,
                }
            } else {
                let it = key_index(es, "type"@);
                if 0 <= it < es.len() {
                    match es[it].1 {
                        TreeV::Str(tn) => if tn == "object"@ {
                            let ip = key_index(es, "properties"@);
                            if 0 <= ip < es.len() {
                                match es[ip].1 {
                                    TreeV::Mapping(pes) => match parse_props_v(pes) {
                                        Some(ps) => Some(SchemaV::Object { properties: ps }),
                                        None => None,
                                    },
                                    _ => None,
                                }
                            } else {
                                Some(SchemaV::Object { properties: Seq::empty() })
                            }
                        } else if known_primitive(tn) {
                            Some(SchemaV::Other { kind_name: tn })
                        } else {
                            None
                        },
                        _ => None,
                    }
                } else {
                    None
                }
            }
        }
        _ => None,
    }
}

/// Strict reading of one schema reference: a mapping with `$ref` names
/// another schema, anything else must read as an inline schema.
pub open spec fn parse_ref_v(t: TreeV) -> Option<RefV>
    decreases t, 1nat,
{
    match t {
        TreeV::Mapping(es) => {
            let ir = key_index(es, "$ref"@);
            if 0 <= ir < es.len() {
                match es[ir].1 {
                    TreeV::Str(s) => Some(RefV::Named(s)),
                    _ => None,
                }
            } else {
                match parse_schema_v(t) {
                    Some(s) => Some(RefV::Inline(s)),
                    None => None,
                }
            }
        }
        _ => None,
    }
}

/// Strict reading of an `allOf` member list; one bad member fails the list.
pub open spec fn parse_members_v(items: Seq<TreeV>) -> Option<Seq<RefV>>
    decreases items, 2nat,
{
    if items.len() == 0 {
        Some(Seq::empty())
    } else {
        match (parse_ref_v(items[0]), parse_members_v(items.skip(1))) {
            (Some(m), Some(rest)) => Some(seq![m] + rest),
            _ => None,
        }
    }
}

/// Strict reading of a `properties` mapping; one bad property fails the
/// mapping.
pub open spec fn parse_props_v(pes: Seq<(Seq<char>, TreeV)>) -> Option<Seq<(Seq<char>, RefV)>>
    decreases pes, 2nat,
{
    if pes.len() == 0 {
        Some(Seq::empty())
    } else {
        match (parse_ref_v(pes[0].1), parse_props_v(pes.skip(1))) {
            (Some(m), Some(rest)) => Some(seq![(pes[0].0, m)] + rest),
            _ => None,
        }
    }
}

pub open spec fn opt_ref_view(o: Option<SchemaRef>) -> Option<RefV> {
    match o {
        Some(r) => Some(ref_view(r)),
        None => None,
    }
}

pub open spec fn opt_schema_view(o: Option<Schema>) -> Option<SchemaV> {
    match o {
        Some(s) => Some(schema_view(s)),
        None => None,
    }
}

pub open spec fn opt_members_view(o: Option<Vec<SchemaRef>>) -> Option<Seq<RefV>> {
    match o {
        Some(v) => Some(refs_view(v@)),
        None => None,
    }
}

pub open spec fn opt_props_view(o: Option<Vec<(String, SchemaRef)>>) -> Option<
    Seq<(Seq<char>, RefV)>,
> {
    match o {
        Some(v) => Some(props_view(v@)),
        None => None,
    }
}
/// Compares a string against a literal key.
fn str_is(s: &String, lit: &str) -> (r: bool)
    ensures
        r == (s@ == lit@),
{
    let l: String = lit.to_owned();
    s.eq(&l)
}

/// Decides membership in the closed primitive-name set.
fn is_known_primitive(tn: &String) -> (r: bool)
    ensures
        r == known_primitive(tn@),
{
    if str_is(tn, "string") {
        true
    } else if str_is(tn, "number") {
        true
    } else if str_is(tn, "integer") {
        true
    } else if str_is(tn, "boolean") {
        true
    } else {
        str_is(tn, "array")
    }
}

/// Finds the first entry of a mapping under a literal key.
fn find_lit(es: &Vec<(String, Tree)>, lit: &str) -> (r: Option<usize>)
    ensures
        match r {
            Some(j) => j < es@.len() && key_index(entries_view(es@), lit@) == j as int,
            None => key_index(entries_view(es@), lit@) == -1,
        },
{
    let k: String = lit.to_owned();
    crate::tree::find_key(es, &k)
}

/// Strict reading of one schema node into the typed model.
pub fn parse_schema(t: &Tree) -> (r: Option<Schema>)
    ensures
        opt_schema_view(r) == parse_schema_v(tree_view(*t)),
    decreases tree_height(*t), 0nat,
{
    let es: &Vec<(String, Tree)> = match t {
        Tree::Mapping(es) => es,
        _ => {
            return None;
        },
    };
    proof {
        lemma_entries_view(es@);
        lemma_entries_height(es@);
        assert(tree_height(*t) == 1 + entries_height(es@));
    }
    match find_lit(es, "allOf") {
        Some(j) => {
            match &es[j].1 {
                Tree::Sequence(items) => {
                    proof {
                        assert(tree_height(es@[j as int].1) <= entries_height(es@));
                        assert(items_height(items@) < tree_height(*t));
                    }
                    match parse_members(items) {
                        Some(ms) => Some(Schema::AllOf { members: ms }),
                        None => None,
                    }
                }
                _ => None,
            }
        }
        None => {
            match find_lit(es, "type") {
                Some(jt) => {
                    match &es[jt].1 {
                        Tree::Str(tn) => {
                            if str_is(tn, "object") {
                                match find_lit(es, "properties") {
                                    Some(jp) => {
                                        match &es[jp].1 {
                                            Tree::Mapping(pes) => {
                                                proof {
                                                    assert(tree_height(es@[jp as int].1)
                                                        <= entries_height(es@));
                                                    assert(entries_height(pes@)
                                                        < tree_height(*t));
                                                }
                                                match parse_props(pes) {
                                                    Some(ps) => Some(
                                                        Schema::Object { properties: ps },
                                                    ),
                                                    None => None,
                                                }
                                            }
                                            _ => None,
                                        }
                                    }
                                    None => Some(Schema::Object { properties: Vec::new() }),
                                }
                            } else if is_known_primitive(tn) {
                                Some(Schema::Other { kind_name: tn.clone() })
                            } else {
                                None
                            }
                        }
                        _ => None,
                    }
                }
                None => None,
            }
        }
    }
}

/// Strict reading of one schema reference.
pub fn parse_ref(t: &Tree) -> (r: Option<SchemaRef>)
    ensures
        opt_ref_view(r) == parse_ref_v(tree_view(*t)),
    decreases tree_height(*t), 1nat,
{
    let es: &Vec<(String, Tree)> = match t {
        Tree::Mapping(es) => es,
        _ => {
            return None;
        },
    };
    proof {
        lemma_entries_view(es@);
    }
    match find_lit(es, "$ref") {
        Some(j) => {
            match &es[j].1 {
                Tree::Str(s) => Some(SchemaRef::Named(s.clone())),
                _ => None,
            }
        }
        None => {
            match parse_schema(t) {
                Some(s) => Some(SchemaRef::Inline(Box::new(s))),
                None => None,
            }
        }
    }
}

/// Strict reading of an `allOf` member list.
pub fn parse_members(items: &Vec<Tree>) -> (r: Option<Vec<SchemaRef>>)
    ensures
        opt_members_view(r) == parse_members_v(items_view(items@)),
    decreases items_height(items@), 2nat,
{
    proof {
        lemma_items_height(items@);
        lemma_items_view(items@);
    }
    let mut out: Vec<SchemaRef> = Vec::new();
    let mut idx: usize = 0;
    proof {
        assert(items@.skip(0) =~= items@);
        assert(refs_view(out@) =~= Seq::<RefV>::empty());
        assert forall|rest: Seq<RefV>| (refs_view(out@) + rest) =~= rest by {}
    }
    while idx < items.len()
        invariant
            idx <= items@.len(),
            forall|j: int| 0 <= j < items@.len() ==> tree_height(#[trigger] items@[j])
                <= items_height(items@),
            parse_members_v(items_view(items@)) == (match parse_members_v(
                items_view(items@.skip(idx as int)),
            ) {
                Some(rest) => Some(refs_view(out@) + rest),
                None => None,
            }),
        decreases items@.len() - idx,
    {
        let ghost rest0 = items@.skip(idx as int);
        let ghost out0 = out@;
        proof {
            assert(rest0[0] == items@[idx as int]);
            assert(items_view(rest0)[0] == tree_view(items@[idx as int]));
            assert(items_view(rest0).skip(1) =~= items_view(rest0.skip(1)));
            assert(rest0.skip(1) =~= items@.skip(idx as int + 1));
            assert(tree_height(items@[idx as int]) <= items_height(items@));
        }
        match parse_ref(&items[idx]) {
            Some(m) => {
                out.push(m);
                proof {
                    lemma_refs_view(out0);
                    lemma_refs_view(out@);
                    assert(refs_view(out@) =~= refs_view(out0) + seq![ref_view(m)]);
                    assert forall|rest: Seq<RefV>|
                        (refs_view(out0) + (seq![ref_view(m)] + rest)) =~= (refs_view(out@)
                            + rest) by {}
                }
            }
            None => {
                proof {
                    assert(parse_members_v(items_view(rest0)) is None);
                }
                return None;
            }
        }
        idx += 1;
    }
    proof {
        assert(items_view(items@.skip(idx as int)) =~= Seq::empty());
        assert(refs_view(out@) + Seq::<RefV>::empty() =~= refs_view(out@));
    }
    Some(out)
}

/// Strict reading of a `properties` mapping.
pub fn parse_props(pes: &Vec<(String, Tree)>) -> (r: Option<Vec<(String, SchemaRef)>>)
    ensures
        opt_props_view(r) == parse_props_v(entries_view(pes@)),
    decreases entries_height(pes@), 2nat,
{
    proof {
        lemma_entries_height(pes@);
        lemma_entries_view(pes@);
    }
    let mut out: Vec<(String, SchemaRef)> = Vec::new();
    let mut idx: usize = 0;
    proof {
        assert(pes@.skip(0) =~= pes@);
        assert(props_view(out@) =~= Seq::<(Seq<char>, RefV)>::empty());
        assert forall|rest: Seq<(Seq<char>, RefV)>| (props_view(out@) + rest) =~= rest by {}
    }
    while idx < pes.len()
        invariant
            idx <= pes@.len(),
            forall|j: int| 0 <= j < pes@.len() ==> tree_height((#[trigger] pes@[j]).1)
                <= entries_height(pes@),
            parse_props_v(entries_view(pes@)) == (match parse_props_v(
                entries_view(pes@.skip(idx as int)),
            ) {
                Some(rest) => Some(props_view(out@) + rest),
                None => None,
            }),
        decreases pes@.len() - idx,
    {
        let ghost rest0 = pes@.skip(idx as int);
        let ghost out0 = out@;
        proof {
            assert(rest0[0] == pes@[idx as int]);
            assert(entries_view(rest0)[0] == (pes@[idx as int].0@, tree_view(pes@[idx as int].1)));
            assert(entries_view(rest0).skip(1) =~= entries_view(rest0.skip(1)));
            assert(rest0.skip(1) =~= pes@.skip(idx as int + 1));
            assert(tree_height(pes@[idx as int].1) <= entries_height(pes@));
        }
        let e = &pes[idx];
        match parse_ref(&e.1) {
            Some(m) => {
                let name = e.0.clone();
                out.push((name, m));
                proof {
                    lemma_props_view(out0);
                    lemma_props_view(out@);
                    assert(props_view(out@) =~= props_view(out0) + seq![(e.0@, ref_view(m))]);
                    assert forall|rest: Seq<(Seq<char>, RefV)>|
                        (props_view(out0) + (seq![(e.0@, ref_view(m))] + rest)) =~= (props_view(
                            out@,
                        ) + rest) by {}
                }
            }
            None => {
                proof {
                    assert(parse_props_v(entries_view(rest0)) is None);
                }
                return None;
            }
        }
        idx += 1;
    }
    proof {
        assert(entries_view(pes@.skip(idx as int)) =~= Seq::empty());
        assert(props_view(out@) + Seq::<(Seq<char>, RefV)>::empty() =~= props_view(out@));
    }
    Some(out)
}

// ----------------------------------------------------------------------------
// Strict reading of operations and of the whole document.
// ----------------------------------------------------------------------------

/// Strict reading of an operation node's external documentation: absent is
/// fine, present must be a mapping whose `url` is a string.
pub open spec fn parse_ext_docs_v(es: Seq<(Seq<char>, TreeV)>) -> Option<Option<Seq<char>>> {
    let ie = key_index(es, "externalDocs"@);
    if 0 <= ie < es.len() {
        match es[ie].1 {
            TreeV::Mapping(des) => {
                let iu = key_index(des, "url"@);
                if 0 <= iu < des.len() {
                    match des[iu].1 {
                        TreeV::Str(u) => Some(Some(u)),
                        _ => None,
                    }
                } else {
                    None
                }
            }
            _ => None,
        }
    } else {
        Some(None)
    }
}

/// Strict reading of one operation node.
pub open spec fn parse_operation_v(path: Seq<char>, method: Seq<char>, t: TreeV) -> Option<
    OperationV,
> {
    match t {
        TreeV::Mapping(es) => match parse_ext_docs_v(es) {
            Some(ed) => Some(OperationV { path: path, method: method, external_docs: ed }),
            None => None,
        },
        _ => None,
    }
}

/// Strict reading of one path item: every method entry is an operation.
pub open spec fn parse_path_item_v(path: Seq<char>, mes: Seq<(Seq<char>, TreeV)>) -> Option<
    Seq<OperationV>,
>
    decreases mes.len(),
{
    if mes.len() == 0 {
        Some(Seq::empty())
    } else {
        match (parse_operation_v(path, mes[0].0, mes[0].1), parse_path_item_v(path, mes.skip(1))) {
            (Some(op), Some(rest)) => Some(seq![op] + rest),
            _ => None,
        }
    }
}

/// Strict reading of the `paths` mapping, path-major and method order kept.
pub open spec fn parse_paths_v(pes: Seq<(Seq<char>, TreeV)>) -> Option<Seq<OperationV>>
    decreases pes.len(),
{
    if pes.len() == 0 {
        Some(Seq::empty())
    } else {
        match pes[0].1 {
            TreeV::Mapping(mes) => match (
                parse_path_item_v(pes[0].0, mes),
                parse_paths_v(pes.skip(1)),
            ) {
                (Some(ops), Some(rest)) => Some(ops + rest),
                _ => None,
            },
            _ => None,
        }
    }
}

/// Strict reading of the named-schema mapping, order kept.
pub open spec fn parse_schemas_v(ses: Seq<(Seq<char>, TreeV)>) -> Option<
    Seq<(Seq<char>, SchemaV)>,
>
    decreases ses.len(),
{
    if ses.len() == 0 {
        Some(Seq::empty())
    } else {
        match (parse_schema_v(ses[0].1), parse_schemas_v(ses.skip(1))) {
            (Some(s), Some(rest)) => Some(seq![(ses[0].0, s)] + rest),
            _ => None,
        }
    }
}

/// Strict reading of the whole document: `paths` is required; `components`
/// and its `schemas` are optional and default to no named schemas.
pub open spec fn parse_document_v(t: TreeV) -> Option<DocumentV> {
    match t {
        TreeV::Mapping(es) => {
            let ip = key_index(es, "paths"@);
            let ops = if 0 <= ip < es.len() {
                match es[ip].1 {
                    TreeV::Mapping(pes) => parse_paths_v(pes),
                    _ => None,
                }
            } else {
                None
            };
            let ic = key_index(es, "components"@);
            let schemas = if 0 <= ic < es.len() {
                match es[ic].1 {
                    TreeV::Mapping(ces) => {
                        let isc = key_index(ces, "schemas"@);
                        if 0 <= isc < ces.len() {
                            match ces[isc].1 {
                                TreeV::Mapping(ses) => parse_schemas_v(ses),
                                _ => None,
                            }
                        } else {
                            Some(Seq::empty())
                        }
                    }
                    _ => None,
                }
            } else {
                Some(Seq::empty())
            };
            match (ops, schemas) {
                (Some(o), Some(s)) => Some(DocumentV { operations: o, schemas: s }),
                _ => None,
            }
        }
        _ => None,
    }
}

pub open spec fn opt_ext_view(o: Option<Option<String>>) -> Option<Option<Seq<char>>> {
    match o {
        Some(Some(u)) => Some(Some(u@)),
        Some(None) => Some(None),
        None => None,
    }
}

pub open spec fn opt_ops_view(o: Option<Vec<Operation>>) -> Option<Seq<OperationV>> {
    match o {
        Some(v) => Some(ops_view(v@)),
        None => None,
    }
}

pub open spec fn opt_schemas_view(o: Option<Vec<(String, Schema)>>) -> Option<
    Seq<(Seq<char>, SchemaV)>,
> {
    match o {
        Some(v) => Some(schemas_view(v@)),
        None => None,
    }
}

pub open spec fn opt_document_view(o: Option<Document>) -> Option<DocumentV> {
    match o {
        Some(d) => Some(document_view(d)),
        None => None,
    }
}

/// Strict reading of an operation node's external documentation.
fn parse_ext_docs(es: &Vec<(String, Tree)>) -> (r: Option<Option<String>>)
    ensures
        opt_ext_view(r) == parse_ext_docs_v(entries_view(es@)),
{
    proof {
        lemma_entries_view(es@);
    }
    match find_lit(es, "externalDocs") {
        None => Some(None),
        Some(j) => {
            match &es[j].1 {
                Tree::Mapping(des) => {
                    proof {
                        lemma_entries_view(des@);
                    }
                    match find_lit(des, "url") {
                        Some(ju) => {
                            match &des[ju].1 {
                                Tree::Str(u) => Some(Some(u.clone())),
                                _ => None,
                            }
                        }
                        None => None,
                    }
                }
                _ => None,
            }
        }
    }
}

/// Strict reading of one path item into its operations.
fn parse_path_item(path: &String, mes: &Vec<(String, Tree)>) -> (r: Option<Vec<Operation>>)
    ensures
        opt_ops_view(r) == parse_path_item_v(path@, entries_view(mes@)),
{
    proof {
        lemma_entries_view(mes@);
    }
    let mut out: Vec<Operation> = Vec::new();
    let mut idx: usize = 0;
    proof {
        assert(mes@.skip(0) =~= mes@);
        assert(entries_view(mes@).skip(0) =~= entries_view(mes@));
        assert forall|rest: Seq<OperationV>| (ops_view(out@) + rest) =~= rest by {}
    }
    while idx < mes.len()
        invariant
            idx <= mes@.len(),
            parse_path_item_v(path@, entries_view(mes@)) == (match parse_path_item_v(
                path@,
                entries_view(mes@.skip(idx as int)),
            ) {
                Some(rest) => Some(ops_view(out@) + rest),
                None => None,
            }),
        decreases mes@.len() - idx,
    {
        let ghost rest0 = mes@.skip(idx as int);
        let ghost out0 = out@;
        proof {
            lemma_entries_view(mes@);
            assert(rest0[0] == mes@[idx as int]);
            assert(entries_view(rest0)[0] == (mes@[idx as int].0@, tree_view(mes@[idx as int].1)));
            assert(entries_view(rest0).skip(1) =~= entries_view(rest0.skip(1)));
            assert(rest0.skip(1) =~= mes@.skip(idx as int + 1));
        }
        let e = &mes[idx];
        match &e.1 {
            Tree::Mapping(oes) => {
                match parse_ext_docs(oes) {
                    Some(ed) => {
                        let op = Operation {
                            path: path.clone(),
                            method: e.0.clone(),
                            external_docs: ed,
                        };
                        out.push(op);
                        proof {
                            assert(operation_view(op) == parse_operation_v(
                                path@,
                                e.0@,
                                tree_view(e.1),
                            )->Some_0);
                            assert(ops_view(out@) =~= ops_view(out0).push(operation_view(op)));
                            assert forall|rest: Seq<OperationV>|
                                (ops_view(out0) + (seq![operation_view(op)] + rest)) =~= (ops_view(
                                    out@,
                                ) + rest) by {}
                        }
                    }
                    None => {
                        proof {
                            assert(parse_path_item_v(path@, entries_view(rest0)) is None);
                        }
                        return None;
                    }
                }
            }
            _ => {
                proof {
                    assert(parse_path_item_v(path@, entries_view(rest0)) is None);
                }
                return None;
            }
        }
        idx += 1;
    }
    proof {
        assert(entries_view(mes@.skip(idx as int)) =~= Seq::empty());
        assert(ops_view(out@) + Seq::<OperationV>::empty() =~= ops_view(out@));
    }
    Some(out)
}

/// Strict reading of the `paths` mapping into the operation list.
fn parse_paths(pes: &Vec<(String, Tree)>) -> (r: Option<Vec<Operation>>)
    ensures
        opt_ops_view(r) == parse_paths_v(entries_view(pes@)),
{
    proof {
        lemma_entries_view(pes@);
    }
    let mut out: Vec<Operation> = Vec::new();
    let mut idx: usize = 0;
    proof {
        assert(pes@.skip(0) =~= pes@);
        assert forall|rest: Seq<OperationV>| (ops_view(out@) + rest) =~= rest by {}
    }
    while idx < pes.len()
        invariant
            idx <= pes@.len(),
            parse_paths_v(entries_view(pes@)) == (match parse_paths_v(
                entries_view(pes@.skip(idx as int)),
            ) {
                Some(rest) => Some(ops_view(out@) + rest),
                None => None,
            }),
        decreases pes@.len() - idx,
    {
        let ghost rest0 = pes@.skip(idx as int);
        let ghost out0 = out@;
        proof {
            lemma_entries_view(pes@);
            assert(rest0[0] == pes@[idx as int]);
            assert(entries_view(rest0)[0] == (pes@[idx as int].0@, tree_view(pes@[idx as int].1)));
            assert(entries_view(rest0).skip(1) =~= entries_view(rest0.skip(1)));
            assert(rest0.skip(1) =~= pes@.skip(idx as int + 1));
        }
        let e = &pes[idx];
        match &e.1 {
            Tree::Mapping(mes) => {
                match parse_path_item(&e.0, mes) {
                    Some(mut ops) => {
                        let ghost item_ops = ops_view(ops@);
                        let ghost target = ops_view(out0) + item_ops;
                        while ops.len() > 0
                            invariant
                                ops_view(out@) + ops_view(ops@) =~= target,
                            decreases ops.len(),
                        {
                            let ghost ops0 = ops@;
                            let ghost outb = out@;
                            let op = ops.remove(0);
                            out.push(op);
                            proof {
                                assert(ops0.remove(0) =~= ops0.skip(1));
                                assert(ops_view(out@) =~= ops_view(outb).push(operation_view(op)));
                                assert(ops_view(out@) + ops_view(ops@) =~= ops_view(outb)
                                    + ops_view(ops0));
                            }
                        }
                        proof {
                            assert(ops_view(ops@) =~= Seq::<OperationV>::empty());
                            assert(ops_view(out@) =~= ops_view(out0) + item_ops);
                            assert forall|rest: Seq<OperationV>|
                                (ops_view(out0) + (item_ops + rest)) =~= (ops_view(out@)
                                    + rest) by {}
                        }
                    }
                    None => {
                        proof {
                            assert(parse_paths_v(entries_view(rest0)) is None);
                        }
                        return None;
                    }
                }
            }
            _ => {
                proof {
                    assert(parse_paths_v(entries_view(rest0)) is None);
                }
                return None;
            }
        }
        idx += 1;
    }
    proof {
        assert(entries_view(pes@.skip(idx as int)) =~= Seq::empty());
        assert(ops_view(out@) + Seq::<OperationV>::empty() =~= ops_view(out@));
    }
    Some(out)
}

/// Strict reading of the named-schema mapping.
fn parse_schemas(ses: &Vec<(String, Tree)>) -> (r: Option<Vec<(String, Schema)>>)
    ensures
        opt_schemas_view(r) == parse_schemas_v(entries_view(ses@)),
{
    proof {
        lemma_entries_view(ses@);
    }
    let mut out: Vec<(String, Schema)> = Vec::new();
    let mut idx: usize = 0;
    proof {
        assert(ses@.skip(0) =~= ses@);
        assert forall|rest: Seq<(Seq<char>, SchemaV)>| (schemas_view(out@) + rest) =~= rest by {}
    }
    while idx < ses.len()
        invariant
            idx <= ses@.len(),
            parse_schemas_v(entries_view(ses@)) == (match parse_schemas_v(
                entries_view(ses@.skip(idx as int)),
            ) {
                Some(rest) => Some(schemas_view(out@) + rest),
                None => None,
            }),
        decreases ses@.len() - idx,
    {
        let ghost rest0 = ses@.skip(idx as int);
        let ghost out0 = out@;
        proof {
            lemma_entries_view(ses@);
            assert(rest0[0] == ses@[idx as int]);
            assert(entries_view(rest0)[0] == (ses@[idx as int].0@, tree_view(ses@[idx as int].1)));
            assert(entries_view(rest0).skip(1) =~= entries_view(rest0.skip(1)));
            assert(rest0.skip(1) =~= ses@.skip(idx as int + 1));
        }
        let e = &ses[idx];
        match parse_schema(&e.1) {
            Some(s) => {
                let name = e.0.clone();
                out.push((name, s));
                proof {
                    assert(schemas_view(out@) =~= schemas_view(out0).push((e.0@, schema_view(s))));
                    assert forall|rest: Seq<(Seq<char>, SchemaV)>|
                        (schemas_view(out0) + (seq![(e.0@, schema_view(s))] + rest)) =~= (
                        schemas_view(out@) + rest) by {}
                }
            }
            None => {
                proof {
                    assert(parse_schemas_v(entries_view(rest0)) is None);
                }
                return None;
            }
        }
        idx += 1;
    }
    proof {
        assert(entries_view(ses@.skip(idx as int)) =~= Seq::empty());
        assert(schemas_view(out@) + Seq::<(Seq<char>, SchemaV)>::empty() =~= schemas_view(out@));
    }
    Some(out)
}

/// Strict reading of the whole document tree into the typed model.
pub fn parse_document(t: &Tree) -> (r: Option<Document>)
    ensures
        opt_document_view(r) == parse_document_v(tree_view(*t)),
{
    let es: &Vec<(String, Tree)> = match t {
        Tree::Mapping(es) => es,
        _ => {
            return None;
        },
    };
    proof {
        lemma_entries_view(es@);
    }
    let operations: Vec<Operation> = match find_lit(es, "paths") {
        Some(jp) => {
            match &es[jp].1 {
                Tree::Mapping(pes) => {
                    match parse_paths(pes) {
                        Some(ops) => ops,
                        None => {
                            return None;
                        },
                    }
                }
                _ => {
                    return None;
                },
            }
        }
        None => {
            return None;
        },
    };
    let schemas: Vec<(String, Schema)> = match find_lit(es, "components") {
        None => Vec::new(),
        Some(jc) => {
            match &es[jc].1 {
                Tree::Mapping(ces) => {
                    proof {
                        lemma_entries_view(ces@);
                    }
                    match find_lit(ces, "schemas") {
                        None => Vec::new(),
                        Some(js) => {
                            match &ces[js].1 {
                                Tree::Mapping(ses) => {
                                    match parse_schemas(ses) {
                                        Some(ss) => ss,
                                        None => {
                                            return None;
                                        },
                                    }
                                }
                                _ => {
                                    return None;
                                },
                            }
                        }
                    }
                }
                _ => {
                    return None;
                },
            }
        }
    };
    proof {
        assert(schemas_view(Seq::<(String, Schema)>::empty()) =~= Seq::<(Seq<char>, SchemaV)>::empty());
    }
    Some(Document { operations, schemas })
}

/// The loader: applies the corrective overrides, then reads the tree
/// strictly into the typed document model.
pub fn load_document(t: Tree, overrides: Vec<Override>) -> (r: Option<Document>)
    ensures
        opt_document_view(r) == parse_document_v(apply_overrides_v(tree_view(t), overrides@)),
{
    let coerced = apply_overrides(t, overrides);
    parse_document(&coerced)
}

} // verus!
