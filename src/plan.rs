//! Logical plans: structural descriptors of collections, used as cache keys.
use vstd::prelude::*;

verus! {

/// The mathematical value of a plan: two plans address the same cached
/// artifact exactly when their models are equal.
pub enum PlanModel {
    Source(Seq<char>),
    Distinct(Box<PlanModel>),
    Concat(Box<PlanModel>, Box<PlanModel>),
    Project(Box<PlanModel>, Seq<usize>),
}

/// A descriptor of a logical collection: a named external source, or an
/// expression over other plans.
pub enum Plan {
    /// A named external input.
    Source(String),
    /// The distinct records of a collection.
    Distinct(Box<Plan>),
    /// The union of two collections.
    Concat(Box<Plan>, Box<Plan>),
    /// Each record restricted to the given columns, in that order.
    Project(Box<Plan>, Vec<usize>),
}

pub open spec fn plan_model(p: &Plan) -> PlanModel
    decreases p,
{
    match p {
        Plan::Source(name) => PlanModel::Source(name@),
        Plan::Distinct(inner) => PlanModel::Distinct(Box::new(plan_model(inner))),
        Plan::Concat(a, b) => PlanModel::Concat(Box::new(plan_model(a)), Box::new(plan_model(b))),
        Plan::Project(inner, cols) => PlanModel::Project(Box::new(plan_model(inner)), cols@),
    }
}

impl View for Plan {
    type V = PlanModel;

    open spec fn view(&self) -> PlanModel {
        plan_model(self)
    }
}

/// Whether two column sequences are equal, element by element.
pub fn columns_equal(a: &[usize], b: &[usize]) -> (r: bool)
    ensures
        r == (a@ == b@),
{
    if a.len() != b.len() {
        return false;
    }
    let mut i: usize = 0;
    while i < a.len()
        invariant
            a@.len() == b@.len(),
            i <= a@.len(),
            forall|j: int| 0 <= j < i ==> a@[j] == b@[j],
        decreases a@.len() - i,
    {
        if a[i] != b[i] {
            return false;
        }
        i = i + 1;
    }
    assert(a@ =~= b@);
    true
}

/// A copy of a column sequence.
pub fn copy_columns(cols: &[usize]) -> (r: Vec<usize>)
    ensures
        r@ == cols@,
{
    let mut r: Vec<usize> = Vec::new();
    let mut i: usize = 0;
    while i < cols.len()
        invariant
            i <= cols@.len(),
            r@ == cols@.subrange(0, i as int),
        decreases cols@.len() - i,
    {
        r.push(cols[i]);
        i = i + 1;
        assert(r@ =~= cols@.subrange(0, i as int));
    }
    assert(r@ =~= cols@);
    r
}

impl Plan {
    /// The plan of a named source.
    pub fn source(name: String) -> (r: Plan)
        ensures
            r@ == PlanModel::Source(name@),
    {
        Plan::Source(name)
    }

    /// Structural equality: the two plans describe the same collection.
    pub fn same_as(&self, other: &Plan) -> (r: bool)
        ensures
            r == (self@ == other@),
        decreases self,
    {
        match self {
            Plan::Source(a) => match other {
                Plan::Source(b) => a.eq(b),
                _ => false,
            },
            Plan::Distinct(a) => match other {
                Plan::Distinct(b) => a.same_as(b),
                _ => false,
            },
            Plan::Concat(a1, a2) => match other {
                Plan::Concat(b1, b2) => a1.same_as(b1) && a2.same_as(b2),
                _ => false,
            },
            Plan::Project(a, ca) => match other {
                Plan::Project(b, cb) => a.same_as(b) && columns_equal(ca.as_slice(), cb.as_slice()),
                _ => false,
            },
        }
    }

    /// A structurally equal copy of the plan.
    pub fn duplicate(&self) -> (r: Plan)
        ensures
            r@ == self@,
        decreases self,
    {
        match self {
            Plan::Source(name) => Plan::Source(name.clone()),
            Plan::Distinct(a) => Plan::Distinct(Box::new(a.duplicate())),
            Plan::Concat(a, b) => Plan::Concat(Box::new(a.duplicate()), Box::new(b.duplicate())),
            Plan::Project(a, cols) => Plan::Project(
                Box::new(a.duplicate()),
                copy_columns(cols.as_slice()),
            ),
        }
    }
}

} // verus!
