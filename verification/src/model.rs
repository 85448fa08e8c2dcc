use vstd::prelude::*;

verus! {

/// A reference to a schema: either an inline schema value or a named
/// pointer into the document's schema mapping.
#[derive(Debug, PartialEq)]
pub enum SchemaRef {
    Inline(Box<Schema>),
    Named(String),
}

/// A data shape. `Object` carries its named properties in declaration
/// order (the generated field order follows it); `AllOf` carries an
/// ordered sequence of member references; every other kind (primitives,
/// arrays, oneOf/anyOf) is carried untouched under its kind name.
#[derive(Debug, PartialEq)]
pub enum Schema {
    Object { properties: Vec<(String, SchemaRef)> },
    AllOf { members: Vec<SchemaRef> },
    Other { kind_name: String },
}

/// One API endpoint: its path, its HTTP method, and an optional
/// external-documentation URL.
#[derive(Debug, PartialEq)]
pub struct Operation {
    pub path: String,
    pub method: String,
    pub external_docs: Option<String>,
}

/// The root of the typed document: the operations and the named schemas,
/// both in declaration order.
#[derive(Debug, PartialEq)]
pub struct Document {
    pub operations: Vec<Operation>,
    pub schemas: Vec<(String, Schema)>,
}

/// Mathematical model of a `SchemaRef`.
pub enum RefV {
    Inline(SchemaV),
    Named(Seq<char>),
}

/// Mathematical model of a `Schema`.
pub enum SchemaV {
    Object { properties: Seq<(Seq<char>, RefV)> },
    AllOf { members: Seq<RefV> },
    Other { kind_name: Seq<char> },
}

/// Mathematical model of an `Operation`.
pub struct OperationV {
    pub path: Seq<char>,
    pub method: Seq<char>,
    pub external_docs: Option<Seq<char>>,
}

/// Mathematical model of a `Document`.
pub struct DocumentV {
    pub operations: Seq<OperationV>,
    pub schemas: Seq<(Seq<char>, SchemaV)>,
}

pub open spec fn ref_view(r: SchemaRef) -> RefV
    decreases r,
{
    match r {
        SchemaRef::Inline(b) => RefV::Inline(schema_view(*b)),
        SchemaRef::Named(n) => RefV::Named(n@),
    }
}

pub open spec fn refs_view(rs: Seq<SchemaRef>) -> Seq<RefV>
    decreases rs,
{
    if rs.len() == 0 {
        Seq::empty()
    } else {
        seq![ref_view(rs[0])] + refs_view(rs.skip(1))
    }
}

pub open spec fn props_view(ps: Seq<(String, SchemaRef)>) -> Seq<(Seq<char>, RefV)>
    decreases ps,
{
    if ps.len() == 0 {
        Seq::empty()
    } else {
        seq![(ps[0].0@, ref_view(ps[0].1))] + props_view(ps.skip(1))
    }
}

pub open spec fn schema_view(s: Schema) -> SchemaV
    decreases s,
{
    match s {
        Schema::Object { properties } => SchemaV::Object { properties: props_view(properties@) },
        Schema::AllOf { members } => SchemaV::AllOf { members: refs_view(members@) },
        Schema::Other { kind_name } => SchemaV::Other { kind_name: kind_name@ },
    }
}

/// `refs_view` maps its sequence elementwise.
pub proof fn lemma_refs_view(rs: Seq<SchemaRef>)
    ensures
        refs_view(rs).len() == rs.len(),
        forall|i: int| 0 <= i < rs.len() ==> refs_view(rs)[i] == ref_view(rs[i]),
    decreases rs.len(),
{
    if rs.len() > 0 {
        lemma_refs_view(rs.skip(1));
    }
}

/// `props_view` maps its sequence elementwise.
pub proof fn lemma_props_view(ps: Seq<(String, SchemaRef)>)
    ensures
        props_view(ps).len() == ps.len(),
        forall|i: int| 0 <= i < ps.len() ==> props_view(ps)[i] == (ps[i].0@, ref_view(ps[i].1)),
    decreases ps.len(),
{
    if ps.len() > 0 {
        lemma_props_view(ps.skip(1));
    }
}

pub open spec fn operation_view(op: Operation) -> OperationV {
    OperationV {
        path: op.path@,
        method: op.method@,
        external_docs: match op.external_docs {
            Some(u) => Some(u@),
            None => None,
        },
    }
}

pub open spec fn ops_view(ops: Seq<Operation>) -> Seq<OperationV> {
    Seq::new(ops.len(), |i: int| operation_view(ops[i]))
}

pub open spec fn schemas_view(ss: Seq<(String, Schema)>) -> Seq<(Seq<char>, SchemaV)> {
    Seq::new(ss.len(), |i: int| (ss[i].0@, schema_view(ss[i].1)))
}

pub open spec fn document_view(d: Document) -> DocumentV {
    DocumentV {
        operations: ops_view(d.operations@),
        schemas: schemas_view(d.schemas@),
    }
}

impl View for SchemaRef {
    type V = RefV;

    open spec fn view(&self) -> RefV {
        ref_view(*self)
    }
}

impl View for Schema {
    type V = SchemaV;

    open spec fn view(&self) -> SchemaV {
        schema_view(*self)
    }
}

impl View for Operation {
    type V = OperationV;

    open spec fn view(&self) -> OperationV {
        operation_view(*self)
    }
}

impl View for Document {
    type V = DocumentV;

    open spec fn view(&self) -> DocumentV {
        document_view(*self)
    }
}

} // verus!
