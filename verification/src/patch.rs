use vstd::prelude::*;
use vstd::string::StringExecFns;
use crate::model::{
    Document, DocumentV, Operation, OperationV, RefV, Schema, SchemaRef, SchemaV,
    document_view, operation_view, ops_view, schema_view, schemas_view, ref_view,
    props_view, refs_view, lemma_props_view, lemma_refs_view,
};
verus! {

/// A property name that the upstream API reserves for its shared
/// authentication mechanism; generated clients must not expose it
/// as a per-request field.
pub open spec fn credential_name(name: Seq<char>) -> bool {
    name == "client_id"@ || name == "secret"@
}

/// Decides whether a property name is one of the reserved credential names.
pub fn is_credential_name(name: &str) -> (r: bool)
    ensures
        r == credential_name(name@),
{
    let s: String = name.to_owned();
    let cid: String = "client_id".to_owned();
    if s.eq(&cid) {
        return true;
    }
    let sec: String = "secret".to_owned();
    s.eq(&sec)
}

// ----------------------------------------------------------------------------
// Edit A: external-documentation URL rewriting.
// Every operation that carries an external-documentation URL has that URL
// prefixed with the configured base; the URL is treated as a path fragment.
// ----------------------------------------------------------------------------

pub open spec fn edit_a_operation(op: OperationV, base: Seq<char>) -> OperationV {
    OperationV {
        path: op.path,
        method: op.method,
        external_docs: match op.external_docs {
            Some(u) => Some(base + u),
            None => None,
        },
    }
}

// ----------------------------------------------------------------------------
// Edit B: credential-property stripping.
// An Object-kind schema loses the properties named `client_id` and `secret`;
// every other property keeps its place and its value.
// ----------------------------------------------------------------------------

/// The properties that survive Edit B: exactly the entries whose name is not
/// a reserved credential name, in their original order.
pub open spec fn strip_credentials_v(ps: Seq<(Seq<char>, RefV)>) -> Seq<(Seq<char>, RefV)>
    decreases ps.len(),
{
    if ps.len() == 0 {
        Seq::empty()
    } else if credential_name(ps[0].0) {
        strip_credentials_v(ps.skip(1))
    } else {
        seq![ps[0]] + strip_credentials_v(ps.skip(1))
    }
}

pub open spec fn edit_b_schema(s: SchemaV) -> SchemaV {
    match s {
        SchemaV::Object { properties } => SchemaV::Object {
            properties: strip_credentials_v(properties),
        },
        _ => s,
    }
}

// ----------------------------------------------------------------------------
// Edit C: spurious AllOf member filtering.
// An AllOf-kind schema loses every member that is an inline Object schema;
// inline members of any other kind and all named references stay, in order.
// ----------------------------------------------------------------------------

/// An AllOf member that restates fields inline instead of referring to a
/// named schema: an inline reference whose resolved kind is Object.
pub open spec fn inline_object(m: RefV) -> bool {
    match m {
        RefV::Inline(SchemaV::Object { .. }) => true,
        _ => false,
    }
}

/// The members that survive Edit C: exactly the non-inline-Object members,
/// in their original order.
pub open spec fn filter_members_v(ms: Seq<RefV>) -> Seq<RefV>
    decreases ms.len(),
{
    if ms.len() == 0 {
        Seq::empty()
    } else if inline_object(ms[0]) {
        filter_members_v(ms.skip(1))
    } else {
        seq![ms[0]] + filter_members_v(ms.skip(1))
    }
}

/// How many members of a sequence are inline Object schemas.
pub open spec fn inline_object_count(ms: Seq<RefV>) -> nat
    decreases ms.len(),
{
    if ms.len() == 0 {
        0
    } else if inline_object(ms[0]) {
        1 + inline_object_count(ms.skip(1))
    } else {
        inline_object_count(ms.skip(1))
    }
}

pub open spec fn edit_c_schema(s: SchemaV) -> SchemaV {
    match s {
        SchemaV::AllOf { members } => SchemaV::AllOf { members: filter_members_v(members) },
        _ => s,
    }
}

// ----------------------------------------------------------------------------
// Whole-document views of the three edits, and their composition.
// ----------------------------------------------------------------------------

pub open spec fn edit_a_ops(ops: Seq<OperationV>, base: Seq<char>) -> Seq<OperationV> {
    Seq::new(ops.len(), |i: int| edit_a_operation(ops[i], base))
}

pub open spec fn edit_b_schemas(ss: Seq<(Seq<char>, SchemaV)>) -> Seq<(Seq<char>, SchemaV)> {
    Seq::new(ss.len(), |i: int| (ss[i].0, edit_b_schema(ss[i].1)))
}

pub open spec fn edit_c_schemas(ss: Seq<(Seq<char>, SchemaV)>) -> Seq<(Seq<char>, SchemaV)> {
    Seq::new(ss.len(), |i: int| (ss[i].0, edit_c_schema(ss[i].1)))
}

pub open spec fn edit_a_doc(d: DocumentV, base: Seq<char>) -> DocumentV {
    DocumentV { operations: edit_a_ops(d.operations, base), schemas: d.schemas }
}

pub open spec fn edit_b_doc(d: DocumentV) -> DocumentV {
    DocumentV { operations: d.operations, schemas: edit_b_schemas(d.schemas) }
}

pub open spec fn edit_c_doc(d: DocumentV) -> DocumentV {
    DocumentV { operations: d.operations, schemas: edit_c_schemas(d.schemas) }
}

/// The whole pipeline over a typed document: Edit A on every operation,
/// then Edit B and Edit C on every named schema.  The edits are independent,
/// so the composition order does not matter.
pub open spec fn patch_document_v(d: DocumentV, base: Seq<char>) -> DocumentV {
    edit_c_doc(edit_b_doc(edit_a_doc(d, base)))
}

// ----------------------------------------------------------------------------
// Executable edits.
// ----------------------------------------------------------------------------

/// Prefixes a documentation URL (treated as a path fragment) with the base.
pub fn rewrite_doc_url(base: &str, url: &str) -> (r: String)
    ensures
        r@ == base@ + url@,
{
    let mut s: String = base.to_owned();
    s.append(url);
    s
}

/// Applies Edit A to one operation.
pub fn rewrite_operation(op: Operation, base: &str) -> (r: Operation)
    ensures
        operation_view(r) == edit_a_operation(operation_view(op), base@),
{
    let Operation { path, method, external_docs } = op;
    match external_docs {
        Some(u) => Operation {
            path,
            method,
            external_docs: Some(rewrite_doc_url(base, u.as_str())),
        },
        None => Operation { path, method, external_docs: None },
    }
}

/// Applies Edit B to one schema: an Object loses its credential-named
/// properties; any other kind is returned unchanged.
pub fn strip_credential_properties(schema: Schema) -> (r: Schema)
    ensures
        schema_view(r) == edit_b_schema(schema_view(schema)),
{
    match schema {
        Schema::Object { properties } => {
            let ghost orig = properties@;
            let mut remaining = properties;
            let mut kept: Vec<(String, SchemaRef)> = Vec::new();
            while remaining.len() > 0
                invariant
                    strip_credentials_v(props_view(orig)) == props_view(kept@)
                        + strip_credentials_v(props_view(remaining@)),
                decreases remaining.len(),
            {
                let ghost r0 = remaining@;
                let ghost k0 = kept@;
                let (name, value) = remaining.remove(0);
                proof {
                    assert(r0.remove(0) =~= r0.skip(1));
                    assert(props_view(r0).skip(1) =~= props_view(r0.skip(1)));
                }
                let keep = !is_credential_name(name.as_str());
                if keep {
                    kept.push((name, value));
                    proof {
                        lemma_props_view(k0);
                        lemma_props_view(kept@);
                        assert(props_view(kept@) =~= props_view(k0) + seq![(name@, ref_view(value))]);
                        assert(props_view(k0) + (seq![(name@, ref_view(value))]
                            + strip_credentials_v(props_view(r0.skip(1))))
                            =~= props_view(kept@) + strip_credentials_v(props_view(r0.skip(1))));
                    }
                }
            }
            proof {
                assert(props_view(remaining@) =~= Seq::empty());
                assert(props_view(kept@) + strip_credentials_v(props_view(remaining@))
                    =~= props_view(kept@));
            }
            Schema::Object { properties: kept }
        }
        other => other,
    }
}

/// Decides whether one AllOf member is discarded by Edit C.
pub fn keep_all_of_member(m: &SchemaRef) -> (r: bool)
    ensures
        r == !inline_object(ref_view(*m)),
{
    match m {
        SchemaRef::Inline(b) => match &**b {
            Schema::Object { .. } => false,
            _ => true,
        },
        SchemaRef::Named(_) => true,
    }
}

/// Applies Edit C to one schema: an AllOf loses its inline Object members;
/// any other kind is returned unchanged.
pub fn filter_all_of_members(schema: Schema) -> (r: Schema)
    ensures
        schema_view(r) == edit_c_schema(schema_view(schema)),
{
    match schema {
        Schema::AllOf { members } => {
            let ghost orig = members@;
            let mut remaining = members;
            let mut kept: Vec<SchemaRef> = Vec::new();
            while remaining.len() > 0
                invariant
                    filter_members_v(refs_view(orig)) == refs_view(kept@)
                        + filter_members_v(refs_view(remaining@)),
                decreases remaining.len(),
            {
                let ghost r0 = remaining@;
                let ghost k0 = kept@;
                let member = remaining.remove(0);
                proof {
                    assert(r0.remove(0) =~= r0.skip(1));
                    assert(refs_view(r0).skip(1) =~= refs_view(r0.skip(1)));
                }
                if keep_all_of_member(&member) {
                    kept.push(member);
                    proof {
                        lemma_refs_view(k0);
                        lemma_refs_view(kept@);
                        assert(refs_view(kept@) =~= refs_view(k0) + seq![refs_view(r0)[0]]);
                        assert(refs_view(k0) + (seq![refs_view(r0)[0]]
                            + filter_members_v(refs_view(r0.skip(1))))
                            =~= refs_view(kept@) + filter_members_v(refs_view(r0.skip(1))));
                    }
                }
            }
            proof {
                assert(refs_view(remaining@) =~= Seq::empty());
                assert(refs_view(kept@) + filter_members_v(refs_view(remaining@))
                    =~= refs_view(kept@));
            }
            Schema::AllOf { members: kept }
        }
        other => other,
    }
}

// ----------------------------------------------------------------------------
// The three document traversals and the whole pipeline.
// ----------------------------------------------------------------------------

/// Edit A over the whole document: every operation's external-documentation
/// URL is prefixed with the base; the schemas are untouched.
pub fn rewrite_all_external_docs(doc: &mut Document, base: &str)
    ensures
        document_view(*final(doc)) == edit_a_doc(document_view(*old(doc)), base@),
{
    let ghost orig = doc.operations@;
    let mut out: Vec<Operation> = Vec::new();
    while doc.operations.len() > 0
        invariant
            doc.operations@ == orig.skip(out@.len() as int),
            out@.len() <= orig.len(),
            ops_view(out@) == edit_a_ops(ops_view(orig.take(out@.len() as int)), base@),
            doc.schemas@ == old(doc).schemas@,
        decreases doc.operations.len(),
    {
        let ghost k = out@.len() as int;
        let ghost out0 = out@;
        let op = doc.operations.remove(0);
        proof {
            assert(orig.skip(k).remove(0) =~= orig.skip(k + 1));
            assert(op == orig[k]);
        }
        let patched = rewrite_operation(op, base);
        out.push(patched);
        proof {
            assert forall|i: int| 0 <= i < k + 1 implies ops_view(out@)[i] == edit_a_ops(
                ops_view(orig.take(k + 1)),
                base@,
            )[i] by {
                if i < k {
                    assert(ops_view(out0)[i] == edit_a_ops(ops_view(orig.take(k)), base@)[i]);
                    assert(orig.take(k)[i] == orig[i]);
                }
                assert(orig.take(k + 1)[i] == orig[i]);
            }
            assert(ops_view(out@) =~= edit_a_ops(ops_view(orig.take(k + 1)), base@));
        }
    }
    proof {
        assert(orig.take(orig.len() as int) =~= orig);
    }
    doc.operations = out;
}

/// Edit B over the whole document: every Object-kind schema loses its
/// credential-named properties; the operations are untouched.
pub fn strip_all_credential_properties(doc: &mut Document)
    ensures
        document_view(*final(doc)) == edit_b_doc(document_view(*old(doc))),
{
    let ghost orig = doc.schemas@;
    let mut out: Vec<(String, Schema)> = Vec::new();
    while doc.schemas.len() > 0
        invariant
            doc.schemas@ == orig.skip(out@.len() as int),
            out@.len() <= orig.len(),
            schemas_view(out@) == edit_b_schemas(schemas_view(orig.take(out@.len() as int))),
            doc.operations@ == old(doc).operations@,
        decreases doc.schemas.len(),
    {
        let ghost k = out@.len() as int;
        let ghost out0 = out@;
        let (name, schema) = doc.schemas.remove(0);
        proof {
            assert(orig.skip(k).remove(0) =~= orig.skip(k + 1));
            assert((name, schema) == orig[k]);
        }
        let patched = strip_credential_properties(schema);
        out.push((name, patched));
        proof {
            assert forall|i: int| 0 <= i < k + 1 implies schemas_view(out@)[i] == edit_b_schemas(
                schemas_view(orig.take(k + 1)),
            )[i] by {
                if i < k {
                    assert(schemas_view(out0)[i] == edit_b_schemas(schemas_view(orig.take(k)))[i]);
                    assert(orig.take(k)[i] == orig[i]);
                }
                assert(orig.take(k + 1)[i] == orig[i]);
            }
            assert(schemas_view(out@) =~= edit_b_schemas(schemas_view(orig.take(k + 1))));
        }
    }
    proof {
        assert(orig.take(orig.len() as int) =~= orig);
    }
    doc.schemas = out;
}

/// Edit C over the whole document: every AllOf-kind schema loses its inline
/// Object members; the operations are untouched.
pub fn filter_all_all_of_members(doc: &mut Document)
    ensures
        document_view(*final(doc)) == edit_c_doc(document_view(*old(doc))),
{
    let ghost orig = doc.schemas@;
    let mut out: Vec<(String, Schema)> = Vec::new();
    while doc.schemas.len() > 0
        invariant
            doc.schemas@ == orig.skip(out@.len() as int),
            out@.len() <= orig.len(),
            schemas_view(out@) == edit_c_schemas(schemas_view(orig.take(out@.len() as int))),
            doc.operations@ == old(doc).operations@,
        decreases doc.schemas.len(),
    {
        let ghost k = out@.len() as int;
        let ghost out0 = out@;
        let (name, schema) = doc.schemas.remove(0);
        proof {
            assert(orig.skip(k).remove(0) =~= orig.skip(k + 1));
            assert((name, schema) == orig[k]);
        }
        let patched = filter_all_of_members(schema);
        out.push((name, patched));
        proof {
            assert forall|i: int| 0 <= i < k + 1 implies schemas_view(out@)[i] == edit_c_schemas(
                schemas_view(orig.take(k + 1)),
            )[i] by {
                if i < k {
                    assert(schemas_view(out0)[i] == edit_c_schemas(schemas_view(orig.take(k)))[i]);
                    assert(orig.take(k)[i] == orig[i]);
                }
                assert(orig.take(k + 1)[i] == orig[i]);
            }
            assert(schemas_view(out@) =~= edit_c_schemas(schemas_view(orig.take(k + 1))));
        }
    }
    proof {
        assert(orig.take(orig.len() as int) =~= orig);
    }
    doc.schemas = out;
}

/// The whole pipeline over the typed document: Edit A, then Edit B, then
/// Edit C, each a full traversal of its own.
pub fn patch_document(doc: &mut Document, base: &str)
    ensures
        document_view(*final(doc)) == patch_document_v(document_view(*old(doc)), base@),
{
    rewrite_all_external_docs(doc, base);
    strip_all_credential_properties(doc);
    filter_all_all_of_members(doc);
}

// ----------------------------------------------------------------------------
// Laws.
// ----------------------------------------------------------------------------

/// A schema on which the edits have nothing left to do: an Object holds no
/// credential-named property and an AllOf holds no inline Object member.
pub open spec fn schema_clean(s: SchemaV) -> bool {
    match s {
        SchemaV::Object { properties } => forall|i: int|
            0 <= i < properties.len() ==> !credential_name(#[trigger] properties[i].0),
        SchemaV::AllOf { members } => forall|i: int|
            0 <= i < members.len() ==> !inline_object(#[trigger] members[i]),
        SchemaV::Other { .. } => true,
    }
}

/// A document in which every named schema is clean.
pub open spec fn document_clean(d: DocumentV) -> bool {
    forall|i: int| 0 <= i < d.schemas.len() ==> schema_clean(#[trigger] d.schemas[i].1)
}

/// Stripping keeps exactly the non-credential entries, each unchanged and
/// in its original relative order: the result is the subsequence of
/// non-credential entries.
pub proof fn lemma_strip_credentials_clean(ps: Seq<(Seq<char>, RefV)>)
    ensures
        forall|i: int| 0 <= i < strip_credentials_v(ps).len()
            ==> !credential_name(#[trigger] strip_credentials_v(ps)[i].0),
    decreases ps.len(),
{
    if ps.len() > 0 {
        lemma_strip_credentials_clean(ps.skip(1));
        let r = strip_credentials_v(ps);
        let rest = strip_credentials_v(ps.skip(1));
        assert forall|i: int| 0 <= i < r.len() implies !credential_name(r[i].0) by {
            if !credential_name(ps[0].0) && i > 0 {
                assert(r[i] == rest[i - 1]);
            }
        }
    }
}

/// Stripping credentials twice yields the same properties as stripping once.
pub proof fn lemma_strip_credentials_idempotent(ps: Seq<(Seq<char>, RefV)>)
    ensures
        strip_credentials_v(strip_credentials_v(ps)) == strip_credentials_v(ps),
    decreases ps.len(),
{
    if ps.len() > 0 {
        lemma_strip_credentials_idempotent(ps.skip(1));
        if !credential_name(ps[0].0) {
            let rest = strip_credentials_v(ps.skip(1));
            assert((seq![ps[0]] + rest).skip(1) =~= rest);
        }
    }
}

/// Edit B is idempotent on every schema.
pub proof fn lemma_edit_b_idempotent(s: SchemaV)
    ensures
        edit_b_schema(edit_b_schema(s)) == edit_b_schema(s),
{
    match s {
        SchemaV::Object { properties } => lemma_strip_credentials_idempotent(properties),
        _ => (),
    }
}

/// Filtering keeps no inline Object member.
pub proof fn lemma_filter_members_clean(ms: Seq<RefV>)
    ensures
        forall|i: int| 0 <= i < filter_members_v(ms).len()
            ==> !inline_object(#[trigger] filter_members_v(ms)[i]),
    decreases ms.len(),
{
    if ms.len() > 0 {
        lemma_filter_members_clean(ms.skip(1));
        let r = filter_members_v(ms);
        let rest = filter_members_v(ms.skip(1));
        assert forall|i: int| 0 <= i < r.len() implies !inline_object(r[i]) by {
            if !inline_object(ms[0]) && i > 0 {
                assert(r[i] == rest[i - 1]);
            }
        }
    }
}

/// Filtering an already-filtered member list is a no-op.
pub proof fn lemma_filter_members_idempotent(ms: Seq<RefV>)
    ensures
        filter_members_v(filter_members_v(ms)) == filter_members_v(ms),
    decreases ms.len(),
{
    if ms.len() > 0 {
        lemma_filter_members_idempotent(ms.skip(1));
        if !inline_object(ms[0]) {
            let rest = filter_members_v(ms.skip(1));
            assert((seq![ms[0]] + rest).skip(1) =~= rest);
        }
    }
}

/// Edit C is idempotent on every schema.
pub proof fn lemma_edit_c_idempotent(s: SchemaV)
    ensures
        edit_c_schema(edit_c_schema(s)) == edit_c_schema(s),
{
    match s {
        SchemaV::AllOf { members } => lemma_filter_members_idempotent(members),
        _ => (),
    }
}

/// Of N members of which M are inline Object schemas, Edit C keeps exactly
/// N - M.
pub proof fn lemma_filter_members_count(ms: Seq<RefV>)
    ensures
        inline_object_count(ms) <= ms.len(),
        filter_members_v(ms).len() == ms.len() - inline_object_count(ms),
    decreases ms.len(),
{
    if ms.len() > 0 {
        lemma_filter_members_count(ms.skip(1));
    }
}

/// Edit B and Edit C touch disjoint schema kinds, so their order does not
/// matter on any schema.
pub proof fn lemma_edits_commute(s: SchemaV)
    ensures
        edit_b_schema(edit_c_schema(s)) == edit_c_schema(edit_b_schema(s)),
{
}

/// The three edits are independent: on the whole document, applying any two
/// of them in either order yields the same document.
pub proof fn lemma_document_edits_commute(d: DocumentV, base: Seq<char>)
    ensures
        edit_b_doc(edit_c_doc(d)) == edit_c_doc(edit_b_doc(d)),
        edit_a_doc(edit_b_doc(d), base) == edit_b_doc(edit_a_doc(d, base)),
        edit_a_doc(edit_c_doc(d), base) == edit_c_doc(edit_a_doc(d, base)),
{
    assert forall|i: int| 0 <= i < d.schemas.len() implies edit_b_schemas(edit_c_schemas(
        d.schemas,
    ))[i] == edit_c_schemas(edit_b_schemas(d.schemas))[i] by {
        lemma_edits_commute(d.schemas[i].1);
    }
    assert(edit_b_schemas(edit_c_schemas(d.schemas)) =~= edit_c_schemas(
        edit_b_schemas(d.schemas),
    ));
}

/// After the whole pipeline, no Object-kind schema in the document holds a
/// credential-named property and no AllOf-kind schema holds an inline Object
/// member, whatever the input document was.
pub proof fn lemma_patch_document_clean(d: DocumentV, base: Seq<char>)
    ensures
        document_clean(patch_document_v(d, base)),
{
    let patched = patch_document_v(d, base);
    assert forall|i: int| 0 <= i < patched.schemas.len() implies schema_clean(
        #[trigger] patched.schemas[i].1,
    ) by {
        let s = d.schemas[i].1;
        assert(patched.schemas[i].1 == edit_c_schema(edit_b_schema(s)));
        match s {
            SchemaV::Object { properties } => {
                lemma_strip_credentials_clean(properties);
            }
            SchemaV::AllOf { members } => {
                lemma_filter_members_clean(members);
            }
            SchemaV::Other { .. } => (),
        }
    }
}

} // verus!
