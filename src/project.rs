use vstd::prelude::*;

use crate::sanitize::{clean_code_response, sanitized};

verus! {

/// The three illustrative project descriptions, in the order they are listed.
pub open spec fn project_examples() -> Seq<Seq<char>> {
    seq![
        "Counter: A simple counter canister with increment and get functions"@,
        "Todo List: Basic todo list with add, remove, and list tasks"@,
        "Profile: User profile storage with update and get methods"@,
    ]
}

/// Returns the fixed list of example project descriptions.
pub fn get_project_examples() -> (r: Vec<String>)
    ensures
        r@.len() == 3,
        forall|i: int| 0 <= i < 3 ==> #[trigger] r@[i]@ == project_examples()[i],
{
    let mut r: Vec<String> = Vec::new();
    r.push(String::from_str("Counter: A simple counter canister with increment and get functions"));
    r.push(String::from_str("Todo List: Basic todo list with add, remove, and list tasks"));
    r.push(String::from_str("Profile: User profile storage with update and get methods"));
    r
}

/// A generated starter project: its source code, its configuration and its
/// documentation.
pub struct SimpleProject {
    pub canister_code: String,
    pub dfx_json: String,
    pub readme: String,
}

impl SimpleProject {
    /// Assembles a project from the model's three replies: the code and the
    /// configuration are sanitized, the documentation is kept as it came.
    pub fn from_replies(code_reply: String, config_reply: String, readme_reply: String) -> (r:
        SimpleProject)
        ensures
            r.canister_code@ == sanitized(code_reply@),
            r.dfx_json@ == sanitized(config_reply@),
            r.readme@ == readme_reply@,
    {
        SimpleProject {
            canister_code: clean_code_response(code_reply),
            dfx_json: clean_code_response(config_reply),
            readme: readme_reply,
        }
    }
}

} // verus!
