use vstd::prelude::*;
use vstd::string::StringExecFns;
use crate::error::{bad_request, ErrorKind, ServerError};
use crate::flight::Sequence;
use crate::mappings::{ChannelType, NodeMapping};

verus! {

/// An operator's request for one manual command.
#[derive(Clone, Debug)]
pub struct OperatorCommandRequest {
    pub command: String,
    pub target: Option<String>,
    pub state: Option<String>,
}

/// Some valve mapping of the list has the given text id.
pub open spec fn names_mapping(active: Seq<NodeMapping>, t: Seq<char>) -> bool {
    exists|i: int| 0 <= i < active.len() && (#[trigger] active[i]).text_id@ == t && active[i].channel_type == ChannelType::Valve
}

/// The one-line script that moves a valve to the named state, if the state is known.
pub open spec fn click_script(target: Seq<char>, state: Seq<char>) -> Option<Seq<char>> {
    if state == "open"@ {
        Some(target + ".open()"@)
    } else if state == "closed"@ {
        Some(target + ".close()"@)
    } else {
        None
    }
}

/// The script that a request asks for: a `click_valve` command on a valve of
/// the active valve mappings, to a known state. `None` when the request is refused.
pub open spec fn command_script(req: OperatorCommandRequest, active: Seq<NodeMapping>) -> Option<Seq<char>> {
    if req.command@ == "click_valve"@ {
        match (req.target, req.state) {
            (Some(t), Some(s)) => if names_mapping(active, t@) { click_script(t@, s@) } else { None },
            _ => None,
        }
    } else {
        None
    }
}

/// Whether some valve mapping of the list has the given text id.
fn mapping_named(active: &Vec<NodeMapping>, t: &String) -> (r: bool)
    ensures
        r == names_mapping(active@, t@),
{
    let mut i: usize = 0;
    while i < active.len()
        invariant
            i <= active@.len(),
            forall|k: int| 0 <= k < i ==> !((#[trigger] active@[k]).text_id@ == t@ && active@[k].channel_type == ChannelType::Valve),
        decreases active@.len() - i,
    {
        let is_valve = match active[i].channel_type {
            ChannelType::Valve => true,
            _ => false,
        };
        if is_valve && active[i].text_id.eq(t) {
            return true;
        }
        i = i + 1;
    }
    false
}

/// Translates an operator command into the one-shot sequence named `command`
/// that carries it out. `click_valve` with a target among the active valve mappings
/// and a state of `open` or `closed` gives `<target>.open()` or
/// `<target>.close()`; anything else is refused with `BadRequest`.
pub fn operator_command(req: &OperatorCommandRequest, active: &Vec<NodeMapping>) -> (r: Result<Sequence, ServerError>)
    ensures
        r is Ok <==> command_script(*req, active@) is Some,
        r matches Ok(s) ==> s.name@ == "command"@ && command_script(*req, active@) == Some(s.script@),
        r matches Err(e) ==> e.kind == ErrorKind::BadRequest,
{
    proof {
        reveal_strlit("click_valve");
        reveal_strlit("open");
        reveal_strlit("closed");
        reveal_strlit(".open()");
        reveal_strlit(".close()");
        reveal_strlit("command");
    }
    if !req.command.eq(&String::from_str("click_valve")) {
        return Err(bad_request("unrecognized command identifier"));
    }
    let target = match &req.target {
        Some(t) => t,
        None => {
            return Err(bad_request("must supply target name"));
        },
    };
    if !mapping_named(active, target) {
        return Err(bad_request("target is not a valve of the active configuration"));
    }
    let state = match &req.state {
        Some(s) => s,
        None => {
            return Err(bad_request("valve state is required"));
        },
    };
    let mut script = target.clone();
    if state.eq(&String::from_str("open")) {
        script.append(".open()");
    } else if state.eq(&String::from_str("closed")) {
        script.append(".close()");
    } else {
        return Err(bad_request("unrecognized state identifier"));
    }
    Ok(Sequence { name: String::from_str("command"), script })
}

} // verus!
