//! Who may do what: the roles and tags that a caller's token carries.
use vstd::prelude::*;

use crate::text::same_text;

verus! {

/// A role of the caller.
#[derive(Debug)]
pub struct HtyRole {
    pub role_key: Option<String>,
}

/// A tag of the caller.
#[derive(Debug)]
pub struct HtyTag {
    pub tag_name: Option<String>,
}

/// What a caller's token says of the caller.
#[derive(Debug)]
pub struct HtyToken {
    pub roles: Option<Vec<HtyRole>>,
    pub tags: Option<Vec<HtyTag>>,
}

/// Whether the token has a role with this key.
pub open spec fn has_role(token: HtyToken, key: Seq<char>) -> bool {
    token.roles matches Some(roles) && exists|i: int|
        0 <= i < roles@.len() && (#[trigger] roles@[i]).role_key.deep_view() == Some(key)
}

/// Whether the token has a tag with this name.
pub open spec fn has_tag(token: HtyToken, name: Seq<char>) -> bool {
    token.tags matches Some(tags) && exists|i: int|
        0 <= i < tags@.len() && (#[trigger] tags@[i]).tag_name.deep_view() == Some(name)
}

/// Whether the caller is a system administrator, by role or by tag.
pub open spec fn system_admin(token: HtyToken) -> bool {
    ||| has_role(token, "ADMIN"@)
    ||| has_role(token, "ROOT"@)
    ||| has_role(token, "SYS_ADMIN"@)
    ||| has_tag(token, "SYS_ROOT"@)
    ||| has_tag(token, "SYS_ADMIN"@)
}

/// Whether the caller is a tester.
pub open spec fn tester(token: HtyToken) -> bool {
    has_role(token, "TESTER"@)
}

/// Whether the caller may change tickets and fetch attachments.
pub open spec fn admin_or_tester(token: HtyToken) -> bool {
    system_admin(token) || tester(token)
}

/// Whether some role of the token has this key.
fn any_role(token: &HtyToken, key: &str) -> (yes: bool)
    ensures
        yes == has_role(*token, key@),
{
    match &token.roles {
        None => false,
        Some(roles) => {
            let mut i: usize = 0;
            while i < roles.len()
                invariant
                    token.roles == Some(*roles),
                    i <= roles.len(),
                    forall|j: int|
                        0 <= j < i ==> (#[trigger] roles@[j]).role_key.deep_view() != Some(key@),
                decreases roles.len() - i,
            {
                if let Some(k) = &roles[i].role_key {
                    if same_text(k.as_str(), key) {
                        assert(roles@[i as int].role_key.deep_view() == Some(key@));
                        return true;
                    }
                }
                i += 1;
            }
            false
        },
    }
}

/// Whether some tag of the token has this name.
fn any_tag(token: &HtyToken, name: &str) -> (yes: bool)
    ensures
        yes == has_tag(*token, name@),
{
    match &token.tags {
        None => false,
        Some(tags) => {
            let mut i: usize = 0;
            while i < tags.len()
                invariant
                    token.tags == Some(*tags),
                    i <= tags.len(),
                    forall|j: int|
                        0 <= j < i ==> (#[trigger] tags@[j]).tag_name.deep_view() != Some(name@),
                decreases tags.len() - i,
            {
                if let Some(n) = &tags[i].tag_name {
                    if same_text(n.as_str(), name) {
                        assert(tags@[i as int].tag_name.deep_view() == Some(name@));
                        return true;
                    }
                }
                i += 1;
            }
            false
        },
    }
}

/// Whether the caller is a system administrator.
pub fn is_system_admin(token: &HtyToken) -> (yes: bool)
    ensures
        yes == system_admin(*token),
{
    any_role(token, "ADMIN") || any_role(token, "ROOT") || any_role(token, "SYS_ADMIN") || any_tag(
        token,
        "SYS_ROOT",
    ) || any_tag(token, "SYS_ADMIN")
}

/// Whether the caller is a tester.
pub fn is_tester(token: &HtyToken) -> (yes: bool)
    ensures
        yes == tester(*token),
{
    any_role(token, "TESTER")
}

/// Whether the caller is a system administrator or a tester.
pub fn is_admin_or_tester(token: &HtyToken) -> (yes: bool)
    ensures
        yes == admin_or_tester(*token),
{
    is_system_admin(token) || is_tester(token)
}

/// A token without roles and without tags gives no rights.
pub proof fn law_no_rights_without_roles_and_tags(token: HtyToken)
    requires
        token.roles matches Some(roles) ==> roles@.len() == 0,
        token.tags matches Some(tags) ==> tags@.len() == 0,
    ensures
        !admin_or_tester(token),
{
}

/// One role or one tag is enough, wherever it stands among the others; and without one of these there
/// are no rights.
pub proof fn law_one_role_or_tag_is_enough(token: HtyToken, i: int)
    ensures
        token.roles matches Some(roles) ==> (0 <= i < roles@.len() ==> (
        roles@[i].role_key matches Some(key) ==> {
            &&& key@ == "ADMIN"@ || key@ == "ROOT"@ || key@ == "SYS_ADMIN"@ ==> system_admin(token)
                && admin_or_tester(token)
            &&& key@ == "TESTER"@ ==> tester(token) && admin_or_tester(token)
        })),
        token.tags matches Some(tags) ==> (0 <= i < tags@.len() ==> (
        tags@[i].tag_name matches Some(name) ==> (name@ == "SYS_ROOT"@ || name@ == "SYS_ADMIN"@
            ==> system_admin(token) && admin_or_tester(token)))),
        tester(token) ==> token.roles is Some && exists|k: int|
            0 <= k < token.roles->0@.len() && ((#[trigger] token.roles->0@[k]).role_key matches Some(
                key,
            ) && key@ == "TESTER"@),
        system_admin(token) ==> (token.roles is Some && exists|k: int|
            0 <= k < token.roles->0@.len() && ((#[trigger] token.roles->0@[k]).role_key matches Some(
                key,
            ) && (key@ == "ADMIN"@ || key@ == "ROOT"@ || key@ == "SYS_ADMIN"@))) || (
        token.tags is Some && exists|k: int|
            0 <= k < token.tags->0@.len() && ((#[trigger] token.tags->0@[k]).tag_name matches Some(
                name,
            ) && (name@ == "SYS_ROOT"@ || name@ == "SYS_ADMIN"@))),
        admin_or_tester(token) ==> system_admin(token) || tester(token),
{
    if let Some(roles) = token.roles {
        if 0 <= i < roles@.len() {
            if let Some(key) = roles@[i].role_key {
                assert(roles@[i].role_key.deep_view() == Some(key@));
            }
        }
    }
    if let Some(tags) = token.tags {
        if 0 <= i < tags@.len() {
            if let Some(name) = tags@[i].tag_name {
                assert(tags@[i].tag_name.deep_view() == Some(name@));
            }
        }
    }
}

} // verus!
