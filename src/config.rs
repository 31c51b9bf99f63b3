use vstd::prelude::*;

use crate::hydra_types::{duplicate_inputs, JobInputCollection};

verus! {

/// The settings shared by every jobset of one run.
#[derive(Clone, Debug)]
pub struct JobConfig {
    pub checkinterval: u64,
    pub emailoverride: String,
    pub enableemail: bool,
    pub keepnr: u64,
    pub schedulingshares: u64,
    pub input_template: JobInputCollection,
    pub email_responsible: bool,
    pub inputname: String,
    pub inputpath: String,
}

impl JobConfig {
    /// The template of inputs is in key order.
    pub open spec fn wf(&self) -> bool {
        self.input_template.wf()
    }

    /// A copy with the same settings and the same template entries.
    pub fn duplicate(&self) -> (r: JobConfig)
        requires
            self.wf(),
        ensures
            r.wf(),
            r.checkinterval == self.checkinterval,
            r.emailoverride == self.emailoverride,
            r.enableemail == self.enableemail,
            r.keepnr == self.keepnr,
            r.schedulingshares == self.schedulingshares,
            r.input_template@ == self.input_template@,
            r.email_responsible == self.email_responsible,
            r.inputname == self.inputname,
            r.inputpath == self.inputpath,
    {
        JobConfig {
            checkinterval: self.checkinterval,
            emailoverride: self.emailoverride.clone(),
            enableemail: self.enableemail,
            keepnr: self.keepnr,
            schedulingshares: self.schedulingshares,
            input_template: duplicate_inputs(&self.input_template),
            email_responsible: self.email_responsible,
            inputname: self.inputname.clone(),
            inputpath: self.inputpath.clone(),
        }
    }
}

/// Seconds between checks of a jobset's inputs, when not configured.
pub fn default_check_interval() -> (r: u64)
    ensures
        r == 300,
{
    300
}

/// Scheduling shares of a jobset, when not configured.
pub fn default_scheduling_shares() -> (r: u64)
    ensures
        r == 1,
{
    1
}

/// Evaluations kept per jobset, when not configured.
pub fn default_keep_evaluations() -> (r: u64)
    ensures
        r == 3,
{
    3
}

/// Name of the primary build input, when not configured.
pub fn default_input_name() -> (r: String)
    ensures
        r@ == "src"@,
{
    String::from_str("src")
}

/// Path of the build expression within the primary input, when not configured.
pub fn default_input_path() -> (r: String)
    ensures
        r@ == "default.nix"@,
{
    String::from_str("default.nix")
}

} // verus!
