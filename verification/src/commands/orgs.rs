//! The organization commands' data: the command tree and the plan built
//! before an organization is created. Prompting for missing values and the
//! API call itself stay with the caller.

use vstd::prelude::*;
use vstd::string::StringExecFns;

verus! {

/// The `orgs` command group.
pub struct Orgs {
    pub command: Option<Commands>,
}

/// One organization subcommand.
pub enum Commands {
    List(List),
    Create(Create),
    Switch(Switch),
}

/// Arguments of `orgs list`.
pub struct List {}

/// Arguments of `orgs create`.
pub struct Create {
    pub name: Option<String>,
    pub billing_email: Option<String>,
}

/// Arguments of `orgs switch`.
pub struct Switch {
    pub org: Option<String>,
}

/// Why a creation plan was rejected.
#[derive(Debug)]
pub enum PlanError {
    Invalid,
}

/// The settled inputs of an organization creation.
pub struct CreatePlan {
    pub name: String,
    pub billing_email: String,
}

/// Collects the inputs of an organization creation.
pub struct CreatePlanBuilder {
    pub name: String,
    pub billing_email: String,
}

impl CreatePlanBuilder {
    /// An empty builder.
    pub fn new() -> (r: CreatePlanBuilder)
        ensures
            r.name@ == Seq::<char>::empty(),
            r.billing_email@ == Seq::<char>::empty(),
    {
        CreatePlanBuilder { name: String::new(), billing_email: String::new() }
    }

    /// Takes the organization name when one was given; a missing value is
    /// left for the caller to resolve before building.
    pub fn name(self, name: Option<&str>) -> (r: CreatePlanBuilder)
        ensures
            r.name@ == (match name {
                Some(n) => n@,
                None => self.name@,
            }),
            r.billing_email@ == self.billing_email@,
    {
        match name {
            Some(n) => CreatePlanBuilder { name: n.to_owned(), ..self },
            None => self,
        }
    }

    /// Takes the billing email when one was given; a missing value is
    /// left for the caller to resolve before building.
    pub fn billing_email(self, billing_email: Option<&str>) -> (r: CreatePlanBuilder)
        ensures
            r.billing_email@ == (match billing_email {
                Some(b) => b@,
                None => self.billing_email@,
            }),
            r.name@ == self.name@,
    {
        match billing_email {
            Some(b) => CreatePlanBuilder { billing_email: b.to_owned(), ..self },
            None => self,
        }
    }

    /// Checks the collected inputs; every combination is accepted.
    pub fn verify(&self) -> (r: Result<(), PlanError>)
        ensures
            r is Ok,
    {
        Ok(())
    }

    /// Finishes the plan with the collected inputs.
    pub fn build(self) -> (r: Result<CreatePlan, PlanError>)
        ensures
            match r {
                Ok(p) => p.name@ == self.name@ && p.billing_email@ == self.billing_email@,
                Err(_) => false,
            },
    {
        match self.verify() {
            Ok(_) => Ok(CreatePlan { name: self.name, billing_email: self.billing_email }),
            Err(e) => Err(e),
        }
    }
}

impl CreatePlan {
    /// Starts collecting a creation plan.
    pub fn builder() -> (r: CreatePlanBuilder)
        ensures
            r.name@ == Seq::<char>::empty(),
            r.billing_email@ == Seq::<char>::empty(),
    {
        CreatePlanBuilder::new()
    }
}

} // verus!
