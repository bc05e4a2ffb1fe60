//! The runtime of the generated TypeScript client: the text that every generated client
//! starts with.

use vstd::prelude::*;
use vstd::string::StringExecFns;
use crate::action::ActionType;
use crate::server::{handler_name, name_of_action};

verus! {

/// What stands between the type of the actions and the URL of the server.
pub const RUNTIME_HEAD: &'static str = r#"

export type Enumerable<T> = T | Array<T>

export type SortOrder = "asc" | "desc"

export interface Response<Meta, Data> {
    meta: Meta
    data: Data
}

export type PagingInfo = {
    count: number
    numberOfPages?: number
}

export type TokenInfo = {
    token: string
}

let bearerToken: string | undefined = undefined;
let bearerTokenLoaded: boolean = false;

export function setBearerToken(token: string) {
    localStorage.setItem("__teo_bearer_token", token);
    bearerToken = token;
    bearerTokenLoaded = true;
}

function getBearerToken(): string | undefined {
    if (!bearerTokenLoaded) {
        let token = localStorage.getItem("__teo_bearer_token");
        if (token != null) {
            bearerToken = token
        }
        bearerTokenLoaded = true
    }
    return bearerToken
}

export async function request(url_segment_name: string, action: Action, args: any): Promise<any> {
    let url = ""#;

/// What follows the URL of the server.
pub const RUNTIME_TAIL: &'static str = r#"/" + url_segment_name + "/action/" + action
    let response = await fetch(url, {
        method: "POST",
        headers: getBearerToken() ? { "Authorization": `Bearer ${getBearerToken()}` } : undefined,
        body: JSON.stringify(args)
    })
    return await response.json()
}
"#;

/// The built-in actions, in the order of their declaration.
pub open spec fn all_actions() -> Seq<ActionType> {
    seq![
        ActionType::FindMany,
        ActionType::FindFirst,
        ActionType::FindUnique,
        ActionType::Create,
        ActionType::Delete,
        ActionType::Update,
        ActionType::Upsert,
        ActionType::Copy,
        ActionType::CreateMany,
        ActionType::UpdateMany,
        ActionType::CopyMany,
        ActionType::DeleteMany,
        ActionType::Count,
        ActionType::Aggregate,
        ActionType::GroupBy,
    ]
}

/// The handler name of an action in double quotes.
pub open spec fn quoted(a: ActionType) -> Seq<char> {
    "\""@ + name_of_action(a) + "\""@
}

/// The union of the quoted handler names of the actions, with a bar between them.
pub open spec fn action_union(actions: Seq<ActionType>) -> Seq<char>
    decreases actions.len(),
{
    if actions.len() == 0 {
        Seq::empty()
    } else if actions.len() == 1 {
        quoted(actions[0])
    } else {
        action_union(actions.drop_last()) + " | "@ + quoted(actions.last())
    }
}

/// The text of the client runtime for a server at `url`: the type of the actions, the fixed
/// declarations, and the function that sends a request to the server.
pub open spec fn runtime_text(url: Seq<char>) -> Seq<char> {
    "type Action = "@ + action_union(all_actions()) + RUNTIME_HEAD@ + url + RUNTIME_TAIL@
}

/// The built-in actions, in the order of their declaration.
pub fn actions() -> (r: Vec<ActionType>)
    ensures
        r@ == all_actions(),
{
    let mut v: Vec<ActionType> = Vec::new();
    v.push(ActionType::FindMany);
    v.push(ActionType::FindFirst);
    v.push(ActionType::FindUnique);
    v.push(ActionType::Create);
    v.push(ActionType::Delete);
    v.push(ActionType::Update);
    v.push(ActionType::Upsert);
    v.push(ActionType::Copy);
    v.push(ActionType::CreateMany);
    v.push(ActionType::UpdateMany);
    v.push(ActionType::CopyMany);
    v.push(ActionType::DeleteMany);
    v.push(ActionType::Count);
    v.push(ActionType::Aggregate);
    v.push(ActionType::GroupBy);
    assert(v@ =~= all_actions());
    v
}

/// The union of the quoted handler names of the actions.
pub fn union_of(actions: &Vec<ActionType>) -> (r: String)
    ensures
        r@ == action_union(actions@),
{
    let mut out = String::new();
    let mut i: usize = 0;
    assert(actions@.take(0) =~= Seq::empty());
    while i < actions.len()
        invariant
            i <= actions.len(),
            out@ == action_union(actions@.take(i as int)),
        decreases actions.len() - i,
    {
        let ghost before = out@;
        proof {
            assert(actions@.take(i + 1).drop_last() =~= actions@.take(i as int));
            assert(actions@.take(i + 1).last() == actions@[i as int]);
            assert(actions@.take(i + 1)[0] == actions@[0]);
        }
        if i > 0 {
            out.append(" | ");
        }
        out.append("\"");
        out.append(handler_name(actions[i]));
        out.append("\"");
        proof {
            if i == 0 {
                assert(before =~= Seq::empty());
                assert(out@ =~= quoted(actions@[0]));
            } else {
                assert(out@ =~= before + " | "@ + quoted(actions@[i as int]));
            }
        }
        i += 1;
    }
    assert(actions@.take(i as int) =~= actions@);
    out
}

/// Writes the client runtime for a server at `host_url`; without one, for a server at the
/// page's own origin.
pub fn generate_runtime_ts(host_url: Option<&str>) -> (r: String)
    ensures
        r@ == runtime_text(
            match host_url {
                Some(h) => h@,
                None => Seq::empty(),
            },
        ),
{
    let url = match host_url {
        Some(h) => h,
        None => "",
    };
    proof {
        reveal_strlit("");
    }
    let all = actions();
    let out = String::from_str("type Action = ").concat(union_of(&all).as_str()).concat(
        RUNTIME_HEAD,
    ).concat(url).concat(RUNTIME_TAIL);
    assert(""@ =~= Seq::<char>::empty());
    out
}

} // verus!
