//! The decisions of the chat write path: whether a creation request is
//! admissible, which kind of chat it makes, and the exact error answered
//! when it is not. The database work around these decisions — looking up
//! which requested members exist, inserting the row — stays at the boundary
//! and hands this module plain values.

use vstd::prelude::*;

use crate::errors::AppError;
use crate::event::vec_contains_i64;
use crate::event::ChatType;
use crate::frame::append_i64;
use crate::frame::spec_dec_i64;

verus! {

/// A request to create a chat: an optional name, the requested member user
/// ids, and whether a named chat is public.
pub struct CreateChat {
    pub name: Option<String>,
    pub members: Vec<i64>,
    pub public: bool,
}

impl CreateChat {
    /// Builds a request.
    pub fn new(name: Option<String>, members: Vec<i64>, public: bool) -> (r: CreateChat)
        ensures
            r.name == name,
            r.members == members,
            r.public == public,
    {
        CreateChat { name, members, public }
    }
}

/// What an admitted creation request settles: the kind of chat to insert
/// and the distinct member ids, first occurrences in request order.
#[derive(Debug)]
pub struct ChatPlan {
    pub kind: ChatType,
    pub members: Vec<i64>,
}

/// The distinct values of `s`, each at its first occurrence, in order.
pub open spec fn spec_dedup(s: Seq<i64>) -> Seq<i64>
    decreases s.len(),
{
    if s.len() == 0 {
        Seq::empty()
    } else {
        let d = spec_dedup(s.drop_last());
        if d.contains(s.last()) {
            d
        } else {
            d.push(s.last())
        }
    }
}

/// The values of `s` absent from `present`, in order.
pub open spec fn spec_missing(s: Seq<i64>, present: Seq<i64>) -> Seq<i64>
    decreases s.len(),
{
    if s.len() == 0 {
        Seq::empty()
    } else {
        let d = spec_missing(s.drop_last(), present);
        if present.contains(s.last()) {
            d
        } else {
            d.push(s.last())
        }
    }
}

/// The kind of chat a request makes: two unnamed members are a single chat,
/// more unnamed members a group, and a named chat a public or private
/// channel as requested.
pub open spec fn spec_plan_kind(named: bool, member_count: int, public: bool) -> ChatType {
    if !named {
        if member_count == 2 {
            ChatType::Single
        } else {
            ChatType::Group
        }
    } else {
        if public {
            ChatType::PublicChannel
        } else {
            ChatType::PrivateChannel
        }
    }
}

/// The member list written the way the missing-members message shows it:
/// bracketed, comma-and-space separated decimals.
pub open spec fn spec_id_list(s: Seq<i64>) -> Seq<char> {
    "["@ + spec_id_items(s) + "]"@
}

/// The comma-and-space separated decimals of `s`.
pub open spec fn spec_id_items(s: Seq<i64>) -> Seq<char>
    decreases s.len(),
{
    if s.len() == 0 {
        Seq::empty()
    } else if s.len() == 1 {
        spec_dec_i64(s[0] as int)
    } else {
        spec_id_items(s.drop_last()) + ", "@ + spec_dec_i64(s.last() as int)
    }
}

fn dedup_members(members: &Vec<i64>) -> (r: Vec<i64>)
    ensures
        r@ == spec_dedup(members@),
{
    let mut r: Vec<i64> = Vec::new();
    let mut i: usize = 0;
    proof {
        assert(r@ =~= spec_dedup(members@.take(0)));
    }
    while i < members.len()
        invariant
            i <= members@.len(),
            r@ == spec_dedup(members@.take(i as int)),
        decreases members@.len() - i,
    {
        let x = members[i];
        proof {
            assert(members@.take(i + 1).drop_last() =~= members@.take(i as int));
            assert(members@.take(i + 1).last() == members@[i as int]);
        }
        if !vec_contains_i64(&r, x) {
            r.push(x);
        }
        i = i + 1;
    }
    proof {
        assert(members@.take(members@.len() as int) =~= members@);
    }
    r
}

fn missing_members(members: &Vec<i64>, present: &Vec<i64>) -> (r: Vec<i64>)
    ensures
        r@ == spec_missing(members@, present@),
{
    let mut r: Vec<i64> = Vec::new();
    let mut i: usize = 0;
    proof {
        assert(r@ =~= spec_missing(members@.take(0), present@));
    }
    while i < members.len()
        invariant
            i <= members@.len(),
            r@ == spec_missing(members@.take(i as int), present@),
        decreases members@.len() - i,
    {
        let x = members[i];
        proof {
            assert(members@.take(i + 1).drop_last() =~= members@.take(i as int));
            assert(members@.take(i + 1).last() == members@[i as int]);
        }
        if !vec_contains_i64(present, x) {
            r.push(x);
        }
        i = i + 1;
    }
    proof {
        assert(members@.take(members@.len() as int) =~= members@);
    }
    r
}

fn render_id_list(s: &Vec<i64>) -> (r: String)
    ensures
        r@ == spec_id_list(s@),
{
    let mut out = String::new();
    out.append("[");
    let mut i: usize = 0;
    while i < s.len()
        invariant
            i <= s@.len(),
            out@ == "["@ + spec_id_items(s@.take(i as int)),
        decreases s@.len() - i,
    {
        if i > 0 {
            out.append(", ");
        }
        append_i64(&mut out, s[i]);
        proof {
            assert(s@.take(i + 1).drop_last() =~= s@.take(i as int));
            assert(s@.take(i + 1).last() == s@[i as int]);
            if i > 0 {
                assert(s@.take(i + 1).len() > 1);
                assert(out@ =~= "["@ + spec_id_items(s@.take(i + 1)));
            } else {
                assert(s@.take(1).len() == 1);
                assert(spec_id_items(s@.take(1)) == spec_dec_i64(s@[0] as int));
                assert(out@ =~= "["@ + spec_id_items(s@.take(i + 1)));
            }
        }
        i = i + 1;
    }
    out.append("]");
    proof {
        assert(s@.take(s@.len() as int) =~= s@);
        assert(out@ =~= spec_id_list(s@));
    }
    out
}

/// Decides a creation request against the set of user ids that exist.
/// Admits it — settling kind and distinct members — exactly when at least
/// two distinct members are requested, a request of eight or more distinct
/// members carries a name, and every requested member exists; otherwise the
/// first failing rule, in that order, with its exact message.
pub fn create_chat_plan(input: &CreateChat, existing_users: &Vec<i64>) -> (r: Result<
    ChatPlan,
    AppError,
>)
    ensures
        match r {
            Ok(plan) => {
                let m = spec_dedup(input.members@);
                &&& m.len() >= 2
                &&& m.len() >= 8 ==> input.name is Some
                &&& spec_missing(m, existing_users@).len() == 0
                &&& plan.members@ == m
                &&& plan.kind == spec_plan_kind(input.name is Some, m.len() as int, input.public)
            },
            Err(e) => {
                let m = spec_dedup(input.members@);
                &&& e matches AppError::CreateChatError(msg)
                &&& if m.len() < 2 {
                    msg@ == "the chat members must >=2"@
                } else if m.len() >= 8 && input.name is None {
                    msg@ == "the chat members >=8, then the chat name must not empty"@
                } else {
                    spec_missing(m, existing_users@).len() > 0 && msg@ == "the chat members ("@
                        + spec_id_list(spec_missing(m, existing_users@)) + ") is not exist"@
                }
            },
        },
{
    let members = dedup_members(&input.members);
    if members.len() < 2 {
        return Err(AppError::CreateChatError(String::from_str("the chat members must >=2")));
    }
    if members.len() >= 8 && input.name.is_none() {
        return Err(
            AppError::CreateChatError(
                String::from_str("the chat members >=8, then the chat name must not empty"),
            ),
        );
    }
    let missing = missing_members(&members, existing_users);
    if missing.len() > 0 {
        let mut msg = String::from_str("the chat members (");
        let listed = render_id_list(&missing);
        msg.append(listed.as_str());
        msg.append(") is not exist");
        proof {
            assert(msg@ =~= "the chat members ("@ + spec_id_list(spec_missing(
                spec_dedup(input.members@),
                existing_users@,
            )) + ") is not exist"@);
        }
        return Err(AppError::CreateChatError(msg));
    }
    let kind = match &input.name {
        None => if members.len() == 2 {
            ChatType::Single
        } else {
            ChatType::Group
        },
        Some(_) => if input.public {
            ChatType::PublicChannel
        } else {
            ChatType::PrivateChannel
        },
    };
    Ok(ChatPlan { kind, members })
}

/// A window over a chat's messages: the id to read strictly below, when
/// given, and how many to read.
pub struct ListMessages {
    pub last_id: Option<u64>,
    pub limit: u64,
}

impl ListMessages {
    /// The window actually queried: an absent `last_id` means "from the
    /// newest", reading below the largest id any row can carry.
    pub fn query_window(&self) -> (r: (u64, u64))
        ensures
            r.0 == match self.last_id {
                Some(v) => v,
                None => i64::MAX as u64,
            },
            r.1 == self.limit,
    {
        let last = match self.last_id {
            Some(v) => v,
            None => i64::MAX as u64,
        };
        (last, self.limit)
    }
}

} // verus!
