use vstd::prelude::*;

verus! {

/// Identifies a CI job.
#[derive(Debug, Clone, Copy, PartialEq, Eq, Structural, PartialOrd, Ord, Hash)]
pub struct JobId {
    value: u64,
}

impl Default for JobId {
    /// The id numbered 0.
    fn default() -> (r: Self)
        ensures
            r.id() == 0,
    {
        Self { value: 0 }
    }
}

impl JobId {
    /// The number behind the id.
    pub closed spec fn id(self) -> u64 {
        self.value
    }

    pub fn new(id: u64) -> (r: Self)
        ensures
            r.id() == id,
    {
        Self { value: id }
    }

    pub fn value(&self) -> (r: u64)
        ensures
            r == self.id(),
    {
        self.value
    }

    /// Two ids are equal exactly when their numbers are.
    pub broadcast proof fn lemma_id_eq(a: Self, b: Self)
        ensures
            #[trigger] a.id() == #[trigger] b.id() <==> a == b,
    {
    }
}

/// Identifies a project.
#[derive(Debug, Clone, Copy, PartialEq, Eq, Structural, Hash)]
pub struct ProjectId {
    value: u64,
}

impl Default for ProjectId {
    /// The id numbered 0.
    fn default() -> (r: Self)
        ensures
            r.id() == 0,
    {
        Self { value: 0 }
    }
}

impl ProjectId {
    /// The number behind the id.
    pub closed spec fn id(self) -> u64 {
        self.value
    }

    pub fn new(id: u64) -> (r: Self)
        ensures
            r.id() == id,
    {
        Self { value: id }
    }

    pub fn value(&self) -> (r: u64)
        ensures
            r == self.id(),
    {
        self.value
    }

    /// Two ids are equal exactly when their numbers are.
    pub broadcast proof fn lemma_id_eq(a: Self, b: Self)
        ensures
            #[trigger] a.id() == #[trigger] b.id() <==> a == b,
    {
    }
}

/// Identifies a pipeline.
#[derive(Debug, Clone, Copy, PartialEq, Eq, Structural, Hash)]
pub struct PipelineId {
    value: u64,
}

impl Default for PipelineId {
    /// The id numbered 0.
    fn default() -> (r: Self)
        ensures
            r.id() == 0,
    {
        Self { value: 0 }
    }
}

impl PipelineId {
    /// The number behind the id.
    pub closed spec fn id(self) -> u64 {
        self.value
    }

    pub fn new(id: u64) -> (r: Self)
        ensures
            r.id() == id,
    {
        Self { value: id }
    }

    pub fn value(&self) -> (r: u64)
        ensures
            r == self.id(),
    {
        self.value
    }

    /// Two ids are equal exactly when their numbers are.
    pub broadcast proof fn lemma_id_eq(a: Self, b: Self)
        ensures
            #[trigger] a.id() == #[trigger] b.id() <==> a == b,
    {
    }
}

/// Identifies a merge request inside its project.
#[derive(Debug, Clone, Copy, PartialEq, Eq, Structural, Hash)]
pub struct MrIid {
    value: u64,
}

impl Default for MrIid {
    /// The id numbered 0.
    fn default() -> (r: Self)
        ensures
            r.id() == 0,
    {
        Self { value: 0 }
    }
}

impl MrIid {
    /// The number behind the id.
    pub closed spec fn id(self) -> u64 {
        self.value
    }

    pub fn new(id: u64) -> (r: Self)
        ensures
            r.id() == id,
    {
        Self { value: id }
    }

    pub fn value(&self) -> (r: u64)
        ensures
            r == self.id(),
    {
        self.value
    }

    /// Two ids are equal exactly when their numbers are.
    pub broadcast proof fn lemma_id_eq(a: Self, b: Self)
        ensures
            #[trigger] a.id() == #[trigger] b.id() <==> a == b,
    {
    }
}

pub broadcast group group_ids {
    JobId::lemma_id_eq,
    ProjectId::lemma_id_eq,
    PipelineId::lemma_id_eq,
    MrIid::lemma_id_eq,
}

} // verus!
