//! Workflows screen state: stored workflows, their runs, and the actions
//! the screen can request.

use vstd::prelude::*;

verus! {

/// One stored workflow.
#[derive(Clone, Debug)]
pub struct WorkflowInfo {
    pub id: String,
    pub name: String,
    pub steps: usize,
    pub created: String,
}

/// One recorded run of a workflow.
#[derive(Clone, Debug)]
pub struct WorkflowRun {
    pub id: String,
    pub state: String,
    pub duration: String,
    pub output_preview: String,
}

/// Which part of the workflows screen is showing.
#[derive(Clone, Copy, PartialEq, Eq, Structural, Debug)]
pub enum WorkflowSubScreen {
    List,
    Runs,
    Create,
    RunInput,
    RunResult,
}

/// What the workflows screen asks its driver to do next.
#[derive(Debug)]
pub enum WorkflowAction {
    Continue,
    Refresh,
    LoadRuns(String),
    CreateWorkflow { name: String, description: String, steps_json: String },
    RunWorkflow { id: String, input: String },
}

} // verus!
