//! Compilation of declared shapes into an index-addressed schema.

use crate::label::{ShapeLabel, ShapeLabelIdx, ShapeLabelView};
use crate::schema::{
    decl_labels, find_label_in, index_of_label, label_views, labels_distinct,
    CompileError, RawSchema, RawShapeExpr, ShapeDecl, ShapeExpr,
};
use crate::lookup::lemma_index_is_first;
use vstd::prelude::*;

verus! {

/// The label at `j` already occurs at an earlier position.
pub open spec fn repeats_at(labels: Seq<ShapeLabelView>, j: int) -> bool {
    exists|i: int| 0 <= i < j && labels[i] == labels[j]
}

impl RawSchema {
    /// The declared labels, in declaration order.
    pub open spec fn labels(&self) -> Seq<ShapeLabelView> {
        decl_labels(self.decls@)
    }

    /// The positions that the declarations give their expressions.
    pub open spec fn roots(&self) -> Seq<usize> {
        Seq::new(self.decls@.len(), |k: int| self.decls@[k].expr)
    }

    /// The declaration at `j` repeats the label of an earlier one.
    pub open spec fn dup_at(&self, j: int) -> bool {
        repeats_at(self.labels(), j)
    }

    /// The declaration at `d` names an expression that does not exist.
    pub open spec fn dangling_at(&self, d: int) -> bool {
        self.decls@[d].expr >= self.exprs@.len()
    }

    /// The expression at `e` is out of order or refers to no declared shape.
    pub open spec fn defect_at(&self, e: int) -> bool {
        !self.exprs@[e].structure_ok(e) || !self.exprs@[e].resolvable(self.labels())
    }

    pub open spec fn no_dangling(&self) -> bool {
        forall|d: int| 0 <= d < self.decls@.len() ==> !self.dangling_at(d)
    }

    /// The schema can be compiled: labels are distinct, every declaration
    /// names an expression, and every expression is in order and resolved.
    pub open spec fn well_formed(&self) -> bool {
        &&& labels_distinct(self.labels())
        &&& self.no_dangling()
        &&& forall|e: int| 0 <= e < self.exprs@.len() ==> !self.defect_at(e)
    }

    /// The error that compilation reports: checks run in the order
    /// duplicate labels, dangling declarations, then the expressions from
    /// first to last, and the first finding is the one reported.
    pub open spec fn rejects_with(&self, err: CompileError) -> bool {
        match err {
            CompileError::DuplicateLabel { decl } => {
                &&& decl < self.decls@.len()
                &&& self.dup_at(decl as int)
                &&& forall|j: int| 0 <= j < decl ==> !self.dup_at(j)
            },
            CompileError::DanglingDeclaration { decl } => {
                &&& labels_distinct(self.labels())
                &&& decl < self.decls@.len()
                &&& self.dangling_at(decl as int)
                &&& forall|j: int| 0 <= j < decl ==> !self.dangling_at(j)
            },
            CompileError::MalformedConstraint { expr } => {
                &&& labels_distinct(self.labels())
                &&& self.no_dangling()
                &&& expr < self.exprs@.len()
                &&& !self.exprs@[expr as int].structure_ok(expr as int)
                &&& forall|j: int| 0 <= j < expr ==> !self.defect_at(j)
            },
            CompileError::UnresolvedReference { expr, label } => {
                &&& labels_distinct(self.labels())
                &&& self.no_dangling()
                &&& expr < self.exprs@.len()
                &&& self.exprs@[expr as int].structure_ok(expr as int)
                &&& self.exprs@[expr as int] matches RawShapeExpr::Ref { label: l }
                &&& l@ == label@
                &&& index_of_label(self.labels(), label@) is None
                &&& forall|j: int| 0 <= j < expr ==> !self.defect_at(j)
            },
        }
    }
}

/// A schema whose references are resolved: a table of expressions, and for
/// each named shape its label and the position of its expression.
pub struct CompiledSchema {
    labels: Vec<ShapeLabel>,
    roots: Vec<usize>,
    exprs: Vec<ShapeExpr>,
}

impl CompiledSchema {
    /// The labels of the named shapes; a shape's handle is its position.
    pub closed spec fn label_seq(&self) -> Seq<ShapeLabelView> {
        label_views(self.labels@)
    }

    /// For each named shape, the position of its expression.
    pub closed spec fn root_seq(&self) -> Seq<usize> {
        self.roots@
    }

    /// The table of expressions.
    pub closed spec fn expr_seq(&self) -> Seq<ShapeExpr> {
        self.exprs@
    }

    /// Labels are distinct, every shape has an expression, operands come
    /// earlier than the expression that uses them and every reference
    /// names a shape of this schema.
    pub open spec fn wf(&self) -> bool {
        &&& self.root_seq().len() == self.label_seq().len()
        &&& labels_distinct(self.label_seq())
        &&& forall|k: int|
            0 <= k < self.root_seq().len() ==> (#[trigger] self.root_seq()[k])
                < self.expr_seq().len()
        &&& forall|e: int|
            0 <= e < self.expr_seq().len() ==> (#[trigger] self.expr_seq()[e]).ok_at(
                e,
                self.label_seq().len() as int,
            )
    }

    #[verifier::type_invariant]
    spec fn inv(&self) -> bool {
        self.wf()
    }

    /// The number of named shapes.
    pub fn shape_count(&self) -> (n: usize)
        ensures
            n == self.label_seq().len(),
            self.wf(),
    {
        proof {
            use_type_invariant(self);
        }
        self.labels.len()
    }

    /// The number of expressions.
    pub fn expr_count(&self) -> (n: usize)
        ensures
            n == self.expr_seq().len(),
            self.wf(),
    {
        proof {
            use_type_invariant(self);
        }
        self.exprs.len()
    }

    /// The expression at position `e`.
    pub fn expr(&self, e: usize) -> (r: &ShapeExpr)
        requires
            e < self.expr_seq().len(),
        ensures
            *r == self.expr_seq()[e as int],
            self.wf(),
    {
        proof {
            use_type_invariant(self);
        }
        &self.exprs[e]
    }

    /// The position of the expression of the shape with handle `idx`.
    pub fn root(&self, idx: ShapeLabelIdx) -> (r: usize)
        requires
            idx.index < self.label_seq().len(),
        ensures
            r == self.root_seq()[idx.index as int],
            r < self.expr_seq().len(),
            self.wf(),
    {
        proof {
            use_type_invariant(self);
        }
        self.roots[idx.index]
    }

    /// The label of the shape with handle `idx`.
    pub fn label(&self, idx: ShapeLabelIdx) -> (r: &ShapeLabel)
        requires
            idx.index < self.label_seq().len(),
        ensures
            r@ == self.label_seq()[idx.index as int],
    {
        proof {
            use_type_invariant(self);
        }
        &self.labels[idx.index]
    }

    /// Finds a shape by its label: its handle and the position of its
    /// expression, or `None` when the schema declares no such shape.
    pub fn find_label(&self, label: &ShapeLabel) -> (r: Option<(ShapeLabelIdx, usize)>)
        ensures
            self.wf(),
            r is Some <==> index_of_label(self.label_seq(), label@) is Some,
            r matches Some((idx, e)) ==> {
                &&& index_of_label(self.label_seq(), label@) == Some(idx.index as int)
                &&& idx.index < self.label_seq().len()
                &&& e == self.root_seq()[idx.index as int]
                &&& e < self.expr_seq().len()
            },
    {
        proof {
            use_type_invariant(self);
        }
        match find_label_in(&self.labels, label) {
            Some(k) => {
                proof {
                    lemma_index_is_first(self.label_seq(), label@);
                }
                Some((ShapeLabelIdx { index: k }, self.roots[k]))
            },
            None => None,
        }
    }
}


/// Copies the labels of the declarations, in order.
fn copy_labels(decls: &Vec<ShapeDecl>) -> (labels: Vec<ShapeLabel>)
    ensures
        label_views(labels@) == decl_labels(decls@),
{
    let mut labels: Vec<ShapeLabel> = Vec::new();
    let mut k: usize = 0;
    while k < decls.len()
        invariant
            k <= decls.len(),
            labels@.len() == k,
            forall|j: int| 0 <= j < k ==> (#[trigger] labels@[j])@ == decls@[j].label@,
        decreases decls.len() - k,
    {
        labels.push(decls[k].label.duplicate());
        k += 1;
    }
    assert(label_views(labels@) =~= decl_labels(decls@));
    labels
}

/// The first position whose label repeats an earlier one, if any does.
fn first_duplicate(labels: &Vec<ShapeLabel>) -> (r: Option<usize>)
    ensures
        r is None <==> labels_distinct(label_views(labels@)),
        r matches Some(j) ==> {
            &&& j < labels@.len()
            &&& repeats_at(label_views(labels@), j as int)
            &&& forall|i: int| 0 <= i < j ==> !repeats_at(label_views(labels@), i)
        },
{
    let ghost views = label_views(labels@);
    let mut j: usize = 0;
    while j < labels.len()
        invariant
            j <= labels.len(),
            views == label_views(labels@),
            forall|i: int| 0 <= i < j ==> !repeats_at(views, i),
        decreases labels.len() - j,
    {
        let found = find_label_in(labels, &labels[j]);
        proof {
            assert(views[j as int] == labels@[j as int]@);
            if found is Some {
                lemma_index_is_first(views, views[j as int]);
            }
        }
        match found {
            Some(k) => {
                if k < j {
                    assert(repeats_at(views, j as int));
                    assert(!labels_distinct(views));
                    return Some(j);
                }
                assert(!repeats_at(views, j as int));
            },
            None => {
                assert(!repeats_at(views, j as int));
            },
        }
        j += 1;
    }
    assert(labels_distinct(views)) by {
        assert forall|a: int, b: int| 0 <= a < b < views.len() implies views[a] != views[b] by {
            assert(!repeats_at(views, b));
        }
    }
    None
}

/// The first declaration that names no expression among `count`, if any.
fn first_dangling(decls: &Vec<ShapeDecl>, count: usize) -> (r: Option<usize>)
    ensures
        r is None <==> forall|d: int| 0 <= d < decls@.len() ==> (#[trigger] decls@[d]).expr < count,
        r matches Some(d) ==> {
            &&& d < decls@.len()
            &&& decls@[d as int].expr >= count
            &&& forall|j: int| 0 <= j < d ==> (#[trigger] decls@[j]).expr < count
        },
{
    let mut d: usize = 0;
    while d < decls.len()
        invariant
            d <= decls.len(),
            forall|j: int| 0 <= j < d ==> (#[trigger] decls@[j]).expr < count,
        decreases decls.len() - d,
    {
        if decls[d].expr >= count {
            return Some(d);
        }
        d += 1;
    }
    None
}

/// Copies the expression positions of the declarations, in order.
fn copy_roots(decls: &Vec<ShapeDecl>) -> (roots: Vec<usize>)
    ensures
        roots@ == Seq::new(decls@.len(), |k: int| decls@[k].expr),
{
    let mut roots: Vec<usize> = Vec::new();
    let mut k: usize = 0;
    while k < decls.len()
        invariant
            k <= decls.len(),
            roots@.len() == k,
            forall|j: int| 0 <= j < k ==> (#[trigger] roots@[j]) == decls@[j].expr,
        decreases decls.len() - k,
    {
        roots.push(decls[k].expr);
        k += 1;
    }
    assert(roots@ =~= Seq::new(decls@.len(), |k: int| decls@[k].expr));
    roots
}

/// The state of one expression: in order, and what it refers to is
/// declared.
pub open spec fn expr_sound(e: RawShapeExpr, at: int, labels: Seq<ShapeLabelView>) -> bool {
    e.structure_ok(at) && e.resolvable(labels)
}

/// Checks the expressions from first to last and reports the first one
/// that is out of order or refers to an undeclared shape.
fn check_exprs(exprs: &Vec<RawShapeExpr>, labels: &Vec<ShapeLabel>) -> (r: Result<
    (),
    CompileError,
>)
    ensures
        r is Ok <==> forall|e: int|
            0 <= e < exprs@.len() ==> expr_sound(#[trigger] exprs@[e], e, label_views(labels@)),
        r matches Err(err) ==> match err {
            CompileError::MalformedConstraint { expr } => {
                &&& expr < exprs@.len()
                &&& !exprs@[expr as int].structure_ok(expr as int)
                &&& forall|j: int|
                    0 <= j < expr ==> expr_sound(#[trigger] exprs@[j], j, label_views(labels@))
            },
            CompileError::UnresolvedReference { expr, label } => {
                &&& expr < exprs@.len()
                &&& exprs@[expr as int].structure_ok(expr as int)
                &&& exprs@[expr as int] matches RawShapeExpr::Ref { label: l }
                &&& l@ == label@
                &&& index_of_label(label_views(labels@), label@) is None
                &&& forall|j: int|
                    0 <= j < expr ==> expr_sound(#[trigger] exprs@[j], j, label_views(labels@))
            },
            _ => false,
        },
{
    let ghost views = label_views(labels@);
    let mut e: usize = 0;
    while e < exprs.len()
        invariant
            e <= exprs.len(),
            views == label_views(labels@),
            forall|j: int| 0 <= j < e ==> expr_sound(#[trigger] exprs@[j], j, views),
        decreases exprs.len() - e,
    {
        let x = &exprs[e];
        if !x.check_structure(e) {
            assert(!expr_sound(exprs@[e as int], e as int, views));
            return Err(CompileError::MalformedConstraint { expr: e });
        }
        match x {
            RawShapeExpr::Ref { label } => {
                if find_label_in(labels, label).is_none() {
                    assert(!expr_sound(exprs@[e as int], e as int, views));
                    return Err(
                        CompileError::UnresolvedReference { expr: e, label: label.duplicate() },
                    );
                }
            },
            _ => {},
        }
        e += 1;
    }
    Ok(())
}

/// Turns a declared expression into its compiled form.
fn resolve(raw: RawShapeExpr, labels: &Vec<ShapeLabel>) -> (r: ShapeExpr)
    requires
        raw.resolvable(label_views(labels@)),
    ensures
        r == raw.resolved(label_views(labels@)),
{
    match raw {
        RawShapeExpr::NodeConstraint(nc) => ShapeExpr::NodeConstraint(nc),
        RawShapeExpr::Shape(body) => ShapeExpr::Shape(body),
        RawShapeExpr::ShapeAnd { exprs } => ShapeExpr::ShapeAnd { exprs },
        RawShapeExpr::ShapeOr { exprs } => ShapeExpr::ShapeOr { exprs },
        RawShapeExpr::ShapeNot { expr } => ShapeExpr::ShapeNot { expr },
        RawShapeExpr::Ref { label } => {
            match find_label_in(labels, &label) {
                Some(k) => ShapeExpr::Ref { idx: ShapeLabelIdx { index: k } },
                None => ShapeExpr::Empty,
            }
        },
        RawShapeExpr::ShapeExternal => ShapeExpr::ShapeExternal,
        RawShapeExpr::Empty => ShapeExpr::Empty,
    }
}

/// Resolves every expression, keeping the order.
fn resolve_all(exprs: Vec<RawShapeExpr>, labels: &Vec<ShapeLabel>) -> (out: Vec<ShapeExpr>)
    requires
        forall|e: int| 0 <= e < exprs@.len() ==> (#[trigger] exprs@[e]).resolvable(label_views(labels@)),
    ensures
        out@.len() == exprs@.len(),
        forall|e: int|
            0 <= e < exprs@.len() ==> (#[trigger] out@[e]) == exprs@[e].resolved(
                label_views(labels@),
            ),
{
    let ghost views = label_views(labels@);
    let ghost orig = exprs@;
    let ghost n = exprs@.len() as int;
    let mut exprs = exprs;
    let mut rev: Vec<ShapeExpr> = Vec::new();
    while exprs.len() > 0
        invariant
            views == label_views(labels@),
            n == orig.len(),
            exprs@.len() <= n,
            exprs@ == orig.subrange(0, exprs@.len() as int),
            rev@.len() == n - exprs@.len(),
            forall|e: int| 0 <= e < n ==> (#[trigger] orig[e]).resolvable(views),
            forall|k: int|
                0 <= k < rev@.len() ==> (#[trigger] rev@[k]) == orig[n - 1 - k].resolved(views),
        decreases exprs@.len(),
    {
        let ghost before = exprs@;
        let x = exprs.pop().unwrap();
        assert(x == orig[before.len() - 1]);
        assert(exprs@ =~= orig.subrange(0, exprs@.len() as int));
        let y = resolve(x, labels);
        rev.push(y);
    }
    let ghost revd = rev@;
    let mut out: Vec<ShapeExpr> = Vec::new();
    while rev.len() > 0
        invariant
            n == orig.len(),
            revd.len() == n,
            rev@.len() <= n,
            rev@ == revd.subrange(0, rev@.len() as int),
            out@.len() == n - rev@.len(),
            forall|k: int| 0 <= k < n ==> (#[trigger] revd[k]) == orig[n - 1 - k].resolved(views),
            forall|e: int| 0 <= e < out@.len() ==> (#[trigger] out@[e]) == orig[e].resolved(views),
        decreases rev@.len(),
    {
        let ghost before = rev@;
        let y = rev.pop().unwrap();
        assert(y == revd[before.len() - 1]);
        assert(rev@ =~= revd.subrange(0, rev@.len() as int));
        out.push(y);
    }
    out
}

/// Compiles declared shapes: gives every label the handle of its
/// declaration and turns every reference into the handle of the shape it
/// names. Refuses schemas with a repeated label, a declaration without
/// expression, an expression that is out of order, or a reference to a
/// shape that is not declared.
pub fn compile(raw: RawSchema) -> (r: Result<CompiledSchema, CompileError>)
    ensures
        r is Ok <==> raw.well_formed(),
        r matches Ok(schema) ==> {
            &&& schema.wf()
            &&& schema.label_seq() == raw.labels()
            &&& schema.root_seq() == raw.roots()
            &&& schema.expr_seq().len() == raw.exprs@.len()
            &&& forall|e: int|
                0 <= e < raw.exprs@.len() ==> (#[trigger] schema.expr_seq()[e])
                    == raw.exprs@[e].resolved(raw.labels())
        },
        r matches Err(err) ==> raw.rejects_with(err),
{
    let ghost views = raw.labels();
    let RawSchema { decls, exprs } = raw;
    let labels = copy_labels(&decls);
    match first_duplicate(&labels) {
        Some(j) => {
            return Err(CompileError::DuplicateLabel { decl: j });
        },
        None => {},
    }
    match first_dangling(&decls, exprs.len()) {
        Some(d) => {
            assert(raw.dangling_at(d as int));
            return Err(CompileError::DanglingDeclaration { decl: d });
        },
        None => {},
    }
    assert(raw.no_dangling());
    match check_exprs(&exprs, &labels) {
        Err(err) => {
            proof {
                let bad: int = match err {
                    CompileError::MalformedConstraint { expr } => expr as int,
                    CompileError::UnresolvedReference { expr, .. } => expr as int,
                    _ => 0,
                };
                assert(raw.defect_at(bad));
                assert forall|j: int| 0 <= j < bad implies !raw.defect_at(j) by {
                    assert(expr_sound(raw.exprs@[j], j, views));
                }
            }
            return Err(err);
        },
        Ok(_) => {},
    }
    assert forall|e: int| 0 <= e < raw.exprs@.len() implies !raw.defect_at(e) by {
        assert(expr_sound(raw.exprs@[e], e, views));
    }
    let roots = copy_roots(&decls);
    let ghost raw_exprs = exprs@;
    let out = resolve_all(exprs, &labels);
    proof {
        assert forall|e: int| 0 <= e < out@.len() implies (#[trigger] out@[e]).ok_at(
            e,
            views.len() as int,
        ) by {
            assert(expr_sound(raw_exprs[e], e, views));
            match raw_exprs[e] {
                RawShapeExpr::Ref { label } => {
                    lemma_index_is_first(views, label@);
                },
                _ => {},
            }
        }
        assert forall|k: int| 0 <= k < roots@.len() implies (#[trigger] roots@[k]) < out@.len() by {
            assert(decls@[k].expr < raw_exprs.len());
        }
    }
    Ok(CompiledSchema { labels, roots, exprs: out })
}

} // verus!
