use vstd::prelude::*;
use crate::procedure::Procedure;

verus! {

/// Whether a pipeline (or procedure) fires on its own when a new commit is seen.
#[derive(Clone, Copy, Debug, PartialEq, Eq, Structural)]
pub enum Condition {
    Automatic,
    Manual,
}

/// A stage: one procedure, or a set of procedures that run side by side.
#[derive(Clone, Debug)]
pub enum Stage {
    Multiple(Vec<Procedure>),
    Single(Procedure),
}

impl Stage {
    pub open spec fn spec_procedures(&self) -> Seq<Procedure> {
        match self {
            Stage::Multiple(procedures) => procedures@,
            Stage::Single(procedure) => seq![*procedure],
        }
    }

    pub fn procedure_count(&self) -> (r: usize)
        ensures
            r == self.spec_procedures().len(),
    {
        match self {
            Stage::Multiple(procedures) => procedures.len(),
            Stage::Single(_) => 1,
        }
    }

    pub fn procedure(&self, i: usize) -> (r: &Procedure)
        requires
            i < self.spec_procedures().len(),
        ensures
            *r == self.spec_procedures()[i as int],
    {
        match self {
            Stage::Multiple(procedures) => &procedures[i],
            Stage::Single(procedure) => procedure,
        }
    }
}

/// How the output of a pipeline's commands is logged.
#[derive(Clone, Debug)]
pub struct Log {
    pub template: Option<String>,
    pub console: Option<bool>,
    pub save_to_file: Option<bool>,
    pub file_path: Option<String>,
    pub in_memory: Option<bool>,
}

/// An optional switch that is off unless set.
pub open spec fn switched_on(flag: Option<bool>) -> bool {
    flag == Some(true)
}

impl Log {
    pub open spec fn spec_is_enabled(&self) -> bool {
        switched_on(self.console) || switched_on(self.save_to_file) || switched_on(self.in_memory)
    }

    /// Whether any sink is switched on.
    pub fn is_enabled(&self) -> (r: bool)
        ensures
            r == self.spec_is_enabled(),
    {
        self.console.unwrap_or(false) || self.save_to_file.unwrap_or(false)
            || self.in_memory.unwrap_or(false)
    }
}

/// The names of a list of stage entries, in order.
pub open spec fn entry_names(entries: Seq<(String, Stage)>) -> Seq<Seq<char>> {
    entries.map_values(|e: (String, Stage)| e.0@)
}

pub open spec fn names_distinct(entries: Seq<(String, Stage)>) -> bool {
    forall|i: int, j: int|
        0 <= i < j < entries.len() ==> #[trigger] entries[i].0@ != #[trigger] entries[j].0@
}

pub open spec fn has_stage(entries: Seq<(String, Stage)>, name: Seq<char>) -> bool {
    exists|i: int| 0 <= i < entries.len() && #[trigger] entries[i].0@ == name
}

/// Position of the entry called `name`, if any.
pub fn find_stage(entries: &Vec<(String, Stage)>, name: &String) -> (r: Option<usize>)
    ensures
        r is None <==> !has_stage(entries@, name@),
        r matches Some(i) ==> i < entries@.len() && entries@[i as int].0@ == name@,
{
    let mut i: usize = 0;
    while i < entries.len()
        invariant
            i <= entries@.len(),
            forall|j: int| 0 <= j < i ==> #[trigger] entries@[j].0@ != name@,
        decreases entries@.len() - i,
    {
        if entries[i].0 == *name {
            return Some(i);
        }
        i = i + 1;
    }
    None
}

/// Stages keyed by name that also keeps the order in which the names were given
/// (a name given twice keeps its first place in the table, its last value, and
/// both places in the order).
#[derive(Clone, Debug)]
pub struct HashMapWithOriginalOrder {
    pub entries: Vec<(String, Stage)>,
    pub order: Vec<String>,
}

impl HashMapWithOriginalOrder {
    pub open spec fn wf(&self) -> bool {
        names_distinct(self.entries@)
    }

    pub fn new() -> (r: HashMapWithOriginalOrder)
        ensures
            r.wf(),
            r.entries@.len() == 0,
            r.order@.len() == 0,
    {
        HashMapWithOriginalOrder { entries: Vec::new(), order: Vec::new() }
    }

    /// Adds `value` under `key`, replacing an earlier value of that key.
    pub fn insert(&mut self, key: String, value: Stage)
        requires
            old(self).wf(),
        ensures
            final(self).wf(),
            final(self).order@ == old(self).order@.push(key),
            has_stage(old(self).entries@, key@) ==> exists|i: int|
                0 <= i < old(self).entries@.len() && old(self).entries@[i].0@ == key@
                    && final(self).entries@ == old(self).entries@.update(i, (key, value)),
            !has_stage(old(self).entries@, key@) ==> final(self).entries@ == old(
                self,
            ).entries@.push((key, value)),
    {
        let k = key.clone();
        match find_stage(&self.entries, &key) {
            Some(i) => {
                self.entries.set(i, (key, value));
                assert(names_distinct(self.entries@)) by {
                    assert forall|a: int, b: int|
                        0 <= a < b < self.entries@.len() implies #[trigger] self.entries@[a].0@
                        != #[trigger] self.entries@[b].0@ by {
                        assert(old(self).entries@[a].0@ != old(self).entries@[b].0@);
                    }
                }
            },
            None => {
                self.entries.push((key, value));
                assert(names_distinct(self.entries@)) by {
                    assert forall|a: int, b: int|
                        0 <= a < b < self.entries@.len() implies #[trigger] self.entries@[a].0@
                        != #[trigger] self.entries@[b].0@ by {
                        if b == self.entries@.len() - 1 {
                            if self.entries@[a].0@ == self.entries@[b].0@ {
                                assert(old(self).entries@[a].0@ == k@);
                            }
                        } else {
                            assert(old(self).entries@[a].0@ != old(self).entries@[b].0@);
                        }
                    }
                }
            },
        }
        self.order.push(k);
    }
}

/// A pipeline as it is read from the configuration, before its stage order is checked.
#[derive(Clone, Debug)]
pub struct IntermediatePipeline {
    pub name: String,
    pub stages_order: Option<Vec<String>>,
    pub branches: Vec<String>,
    pub deploy_path: Option<String>,
    pub log: Option<Log>,
    pub condition: Condition,
    pub stages: HashMapWithOriginalOrder,
    pub persistent: bool,
}

/// An ordered list of stages run against one branch of a repository.
#[derive(Clone, Debug)]
pub struct Pipeline {
    pub name: String,
    pub stages_order: Option<Vec<String>>,
    pub branches: Vec<String>,
    pub deploy_path: Option<String>,
    pub log: Option<Log>,
    pub condition: Condition,
    pub stages: Vec<(String, Stage)>,
    pub persistent: bool,
}

pub open spec fn string_views(v: Seq<String>) -> Seq<Seq<char>> {
    v.map_values(|s: String| s@)
}

pub open spec fn missing_stage_message(name: Seq<char>) -> Seq<char> {
    "Stage with name: "@ + name + " mentioned in order does not exist"@
}

/// `i` is the first position of the given order whose name is not a stage.
pub open spec fn first_missing_at(
    order: Option<Vec<String>>,
    entries: Seq<(String, Stage)>,
    i: int,
) -> bool {
    &&& order matches Some(o)
    &&& 0 <= i < o@.len()
    &&& !has_stage(entries, o@[i]@)
    &&& forall|j: int| 0 <= j < i ==> has_stage(entries, #[trigger] o@[j]@)
}

impl Pipeline {
    pub open spec fn wf(&self) -> bool {
        names_distinct(self.stages@)
    }

    /// The names of the stages in the order they run: the given order, else
    /// the order of the stage table.
    pub open spec fn spec_order(&self) -> Seq<Seq<char>> {
        match self.stages_order {
            Some(order) => string_views(order@),
            None => entry_names(self.stages@),
        }
    }

    pub fn order_len(&self) -> (r: usize)
        ensures
            r == self.spec_order().len(),
    {
        match &self.stages_order {
            Some(order) => order.len(),
            None => self.stages.len(),
        }
    }

    pub fn order_name(&self, position: usize) -> (r: &String)
        requires
            position < self.spec_order().len(),
        ensures
            r@ == self.spec_order()[position as int],
    {
        match &self.stages_order {
            Some(order) => &order[position],
            None => &self.stages[position].0,
        }
    }

    /// Checks that every name of the given stage order is a stage, and fills the
    /// order in from the stage table where none was given.
    pub fn try_from(intermediate: IntermediatePipeline) -> (r: Result<Pipeline, String>)
        requires
            intermediate.stages.wf(),
        ensures
            r is Ok <==> (intermediate.stages_order matches Some(order) ==> forall|i: int|
                0 <= i < order@.len() ==> has_stage(
                    intermediate.stages.entries@,
                    #[trigger] order@[i]@,
                )),
            r matches Err(message) ==> exists|i: int|
                #[trigger] first_missing_at(intermediate.stages_order, intermediate.stages.entries@, i)
                    && message@ == missing_stage_message(
                    intermediate.stages_order->Some_0@[i]@,
                ),
            r matches Ok(p) ==> {
                &&& p.wf()
                &&& p.name == intermediate.name
                &&& p.branches == intermediate.branches
                &&& p.deploy_path == intermediate.deploy_path
                &&& p.log == intermediate.log
                &&& p.condition == intermediate.condition
                &&& p.stages == intermediate.stages.entries
                &&& p.persistent == intermediate.persistent
                &&& intermediate.stages_order is Some ==> p.stages_order
                    == intermediate.stages_order
                &&& intermediate.stages_order is None ==> p.stages_order == Some(
                    intermediate.stages.order,
                )
            },
    {
        let stages_order = match intermediate.stages_order {
            Some(order) => {
                let mut i: usize = 0;
                while i < order.len()
                    invariant
                        i <= order@.len(),
                        intermediate.stages_order == Some(order),
                        forall|j: int|
                            0 <= j < i ==> has_stage(
                                intermediate.stages.entries@,
                                #[trigger] order@[j]@,
                            ),
                    decreases order@.len() - i,
                {
                    if find_stage(&intermediate.stages.entries, &order[i]).is_none() {
                        let mut message = String::from_str("Stage with name: ");
                        message.append(order[i].as_str());
                        message.append(" mentioned in order does not exist");
                        proof {
                            reveal_strlit("Stage with name: ");
                            assert(first_missing_at(
                                intermediate.stages_order,
                                intermediate.stages.entries@,
                                i as int,
                            ));
                        }
                        return Err(message);
                    }
                    i = i + 1;
                }
                order
            },
            None => intermediate.stages.order,
        };
        Ok(
            Pipeline {
                name: intermediate.name,
                stages_order: Some(stages_order),
                branches: intermediate.branches,
                deploy_path: intermediate.deploy_path,
                log: intermediate.log,
                condition: intermediate.condition,
                stages: intermediate.stages.entries,
                persistent: intermediate.persistent,
            },
        )
    }

    /// The stage run at `position` of the order, if the table has it.
    pub fn stage_at(&self, position: usize) -> (r: Option<usize>)
        requires
            position < self.spec_order().len(),
        ensures
            r is None <==> !has_stage(self.stages@, self.spec_order()[position as int]),
            r matches Some(i) ==> i < self.stages@.len() && self.stages@[i as int].0@
                == self.spec_order()[position as int],
    {
        find_stage(&self.stages, self.order_name(position))
    }

    /// Index of `branch` among the branches the pipeline applies to (first match).
    pub fn branch_index(&self, branch: &String) -> (r: Option<usize>)
        ensures
            r is None <==> !string_views(self.branches@).contains(branch@),
            r matches Some(i) ==> i < self.branches@.len() && self.branches@[i as int]@
                == branch@ && forall|j: int| 0 <= j < i ==> self.branches@[j]@ != branch@,
    {
        let mut i: usize = 0;
        while i < self.branches.len()
            invariant
                i <= self.branches@.len(),
                forall|j: int| 0 <= j < i ==> self.branches@[j]@ != branch@,
            decreases self.branches@.len() - i,
        {
            if self.branches[i] == *branch {
                assert(string_views(self.branches@)[i as int] == branch@);
                return Some(i);
            }
            i = i + 1;
        }
        assert(!string_views(self.branches@).contains(branch@)) by {
            if string_views(self.branches@).contains(branch@) {
                let k = choose|k: int|
                    0 <= k < string_views(self.branches@).len() && string_views(
                        self.branches@,
                    )[k] == branch@;
                assert(self.branches@[k]@ == branch@);
            }
        }
        None
    }
}

} // verus!
