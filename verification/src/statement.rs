//! The plan emitter for a statement backend: the stages of a plan, placed onto the clauses
//! of one statement.
//!
//! A pipeline backend runs the stages as they come. A statement backend has one place for
//! each clause: the stages that keep rows before the grouping make the WHERE clause, the
//! group stage makes GROUP BY with its aggregate expressions, the stages that keep groups
//! make HAVING, and sort, skip and limit make ORDER BY, OFFSET and LIMIT. A plan whose
//! stages do not come in the order of the clauses cannot be expressed as one statement.

use vstd::prelude::*;
use crate::error::{ErrorKind, ErrorSpec};
use crate::plan::{stages, Stage, StageSpec};

verus! {

/// The clauses of a statement. A clause that is made of stages holds their positions in the
/// plan.
#[derive(Clone, Debug, PartialEq, Eq)]
pub struct Statement {
    /// WHERE: the match stages before the grouping, all of which must hold.
    pub filter: Vec<usize>,
    /// GROUP BY and the aggregate expressions: the group stage.
    pub group: Option<usize>,
    /// SELECT: the project stages.
    pub select: Vec<usize>,
    /// What is left out of SELECT: the remove stages.
    pub hidden: Vec<usize>,
    /// HAVING: the match stages after the grouping, all of which must hold.
    pub having: Vec<usize>,
    /// ORDER BY: the sort stage.
    pub order: Option<usize>,
    /// OFFSET.
    pub offset: Option<u64>,
    /// LIMIT.
    pub limit: Option<u64>,
}

/// The clauses of a statement, as plain values.
pub struct StatementSpec {
    pub filter: Seq<usize>,
    pub group: Option<usize>,
    pub select: Seq<usize>,
    pub hidden: Seq<usize>,
    pub having: Seq<usize>,
    pub order: Option<usize>,
    pub offset: Option<nat>,
    pub limit: Option<nat>,
}

impl View for Statement {
    type V = StatementSpec;

    open spec fn view(&self) -> StatementSpec {
        StatementSpec {
            filter: self.filter@,
            group: self.group,
            select: self.select@,
            hidden: self.hidden@,
            having: self.having@,
            order: self.order,
            offset: match self.offset {
                Some(n) => Some(n as nat),
                None => None,
            },
            limit: match self.limit {
                Some(n) => Some(n as nat),
                None => None,
            },
        }
    }
}

impl StatementSpec {
    /// The statement without any clause.
    pub open spec fn empty() -> StatementSpec {
        StatementSpec {
            filter: Seq::empty(),
            group: None,
            select: Seq::empty(),
            hidden: Seq::empty(),
            having: Seq::empty(),
            order: None,
            offset: None,
            limit: None,
        }
    }

    /// Whether the statement has a clause that comes after the rows are selected.
    pub open spec fn windowed(self) -> bool {
        self.order.is_some() || self.offset.is_some() || self.limit.is_some()
    }
}

/// The statement with one more stage placed, or `UnsupportedConstruct` where the stage has
/// no place left: a match, group, project or sort after the window began; a second group or
/// sort; a skip after a skip or a limit; a limit after a limit.
pub open spec fn placed(st: StatementSpec, stage: StageSpec, at: usize) -> Result<
    StatementSpec,
    ErrorSpec,
> {
    match stage {
        StageSpec::Match(_) => if st.windowed() {
            Err(ErrorSpec::UnsupportedConstruct)
        } else if st.group.is_some() {
            Ok(StatementSpec { having: st.having.push(at), ..st })
        } else {
            Ok(StatementSpec { filter: st.filter.push(at), ..st })
        },
        StageSpec::Group { .. } => if st.windowed() || st.group.is_some() {
            Err(ErrorSpec::UnsupportedConstruct)
        } else {
            Ok(StatementSpec { group: Some(at), ..st })
        },
        StageSpec::Project(_) => if st.windowed() {
            Err(ErrorSpec::UnsupportedConstruct)
        } else {
            Ok(StatementSpec { select: st.select.push(at), ..st })
        },
        StageSpec::RemoveFields(_) => Ok(StatementSpec { hidden: st.hidden.push(at), ..st }),
        StageSpec::Sort(_) => if st.windowed() {
            Err(ErrorSpec::UnsupportedConstruct)
        } else {
            Ok(StatementSpec { order: Some(at), ..st })
        },
        StageSpec::Skip(n) => if st.offset.is_some() || st.limit.is_some() {
            Err(ErrorSpec::UnsupportedConstruct)
        } else {
            Ok(StatementSpec { offset: Some(n), ..st })
        },
        StageSpec::Limit(n) => if st.limit.is_some() {
            Err(ErrorSpec::UnsupportedConstruct)
        } else {
            Ok(StatementSpec { limit: Some(n), ..st })
        },
    }
}

/// The statement that a plan stands for: its stages placed one after the other, or
/// `UnsupportedConstruct` where one of them has no place.
pub open spec fn statement_of(plan: Seq<StageSpec>) -> Result<StatementSpec, ErrorSpec>
    decreases plan.len(),
{
    if plan.len() == 0 {
        Ok(StatementSpec::empty())
    } else {
        match statement_of(plan.drop_last()) {
            Err(e) => Err(e),
            Ok(st) => placed(st, plan.last(), (plan.len() - 1) as usize),
        }
    }
}

/// A plan whose beginning has no statement has none.
pub proof fn lemma_unsupported_stays(plan: Seq<StageSpec>, i: int)
    requires
        0 <= i <= plan.len(),
        statement_of(plan.take(i)) is Err,
    ensures
        statement_of(plan) == statement_of(plan.take(i)),
    decreases plan.len() - i,
{
    if i < plan.len() {
        assert(plan.take(i + 1).drop_last() =~= plan.take(i));
        lemma_unsupported_stays(plan, i + 1);
    } else {
        assert(plan.take(i) =~= plan);
    }
}

/// Places the stages of a plan onto the clauses of one statement. Fails with
/// `UnsupportedConstruct` where the plan cannot be expressed as one statement.
pub fn emit_statement(plan: &Vec<Stage>) -> (r: Result<Statement, ErrorKind>)
    ensures
        match r {
            Ok(st) => statement_of(stages(plan@)) == Ok::<StatementSpec, ErrorSpec>(st@),
            Err(e) => e@ == ErrorSpec::UnsupportedConstruct && statement_of(stages(plan@)) == Err::<
                StatementSpec,
                ErrorSpec,
            >(ErrorSpec::UnsupportedConstruct),
        },
{
    let ghost all = stages(plan@);
    let mut st = Statement {
        filter: Vec::new(),
        group: None,
        select: Vec::new(),
        hidden: Vec::new(),
        having: Vec::new(),
        order: None,
        offset: None,
        limit: None,
    };
    let mut i: usize = 0;
    assert(all.take(0) =~= Seq::empty());
    while i < plan.len()
        invariant
            i <= plan.len(),
            all == stages(plan@),
            statement_of(all.take(i as int)) == Ok::<StatementSpec, ErrorSpec>(st@),
        decreases plan.len() - i,
    {
        proof {
            assert(all.take(i + 1).drop_last() =~= all.take(i as int));
            assert(all.take(i + 1).last() == plan@[i as int]@);
        }
        let ghost before = st@;
        let windowed = st.order.is_some() || st.offset.is_some() || st.limit.is_some();
        let fits = match &plan[i] {
            Stage::Match(_) => !windowed,
            Stage::Group { .. } => !windowed && st.group.is_none(),
            Stage::Project(_) => !windowed,
            Stage::RemoveFields(_) => true,
            Stage::Sort(_) => !windowed,
            Stage::Skip(_) => st.offset.is_none() && st.limit.is_none(),
            Stage::Limit(_) => st.limit.is_none(),
        };
        if !fits {
            proof {
                assert(placed(before, plan@[i as int]@, i) is Err);
                lemma_unsupported_stays(all, i + 1);
            }
            return Err(ErrorKind::UnsupportedConstruct);
        }
        match &plan[i] {
            Stage::Match(_) => {
                if st.group.is_some() {
                    st.having.push(i);
                } else {
                    st.filter.push(i);
                }
            },
            Stage::Group { .. } => {
                st.group = Some(i);
            },
            Stage::Project(_) => {
                st.select.push(i);
            },
            Stage::RemoveFields(_) => {
                st.hidden.push(i);
            },
            Stage::Sort(_) => {
                st.order = Some(i);
            },
            Stage::Skip(n) => {
                st.offset = Some(*n);
            },
            Stage::Limit(n) => {
                st.limit = Some(*n);
            },
        }
        assert(placed(before, plan@[i as int]@, i) == Ok::<StatementSpec, ErrorSpec>(st@));
        i += 1;
    }
    assert(all.take(i as int) =~= all);
    Ok(st)
}

} // verus!
